//! macOS file flags: hiding and unhiding paths.

use vstd::prelude::*;
use vstd::string::*;

use crate::document::{find_key, find_other_key, first_other_key, lookup, toml_quote, toml_string_repr, TomlValue};
use crate::integrations::defaults::DomainError;
use crate::integrations::{absolute, is_absolute, IntegrationChange, DisplayValue, Location};
use crate::util::results::seq_result;
use crate::util::shell::{quote, quoted};
use crate::util::text::{debug_quote, debug_str};

verus! {

/// The `UF_HIDDEN` file flag of macOS `<sys/stat.h>`.
pub const UF_HIDDEN: u32 = 0x8000;

/// Whether file flags hold `UF_HIDDEN`.
pub open spec fn flags_hidden(flags: u32) -> bool {
    flags & UF_HIDDEN != 0
}

/// File flags with `UF_HIDDEN` set or cleared as `hidden` asks, the other
/// flags kept.
pub open spec fn with_hidden(flags: u32, hidden: bool) -> u32 {
    if hidden {
        flags | UF_HIDDEN
    } else {
        flags & !UF_HIDDEN
    }
}

/// Whether file flags mark a file hidden.
pub fn is_hidden(flags: u32) -> (r: bool)
    ensures
        r == flags_hidden(flags),
{
    flags & UF_HIDDEN != 0
}

/// The file flags that hide or unhide a file whose flags are `flags`.
pub fn hidden_flags(flags: u32, hidden: bool) -> (r: u32)
    ensures
        r == with_hidden(flags, hidden),
{
    if hidden {
        flags | UF_HIDDEN
    } else {
        flags & !UF_HIDDEN
    }
}

/// Setting the hidden flag makes the flags say exactly that, and leaves every
/// other flag as it was.
pub proof fn lemma_hidden_flags(flags: u32, hidden: bool)
    ensures
        flags_hidden(with_hidden(flags, hidden)) == hidden,
        with_hidden(flags, hidden) & !UF_HIDDEN == flags & !UF_HIDDEN,
{
    assert(((flags | 0x8000u32) & 0x8000u32 != 0) && ((flags & !0x8000u32) & 0x8000u32 == 0))
        by (bit_vector);
    assert(((flags | 0x8000u32) & !0x8000u32 == flags & !0x8000u32) && ((flags & !0x8000u32)
        & !0x8000u32 == flags & !0x8000u32)) by (bit_vector);
}

/// One configured filesystem path.
#[derive(Debug)]
pub struct Setting {
    pub path: String,
    pub hidden: bool,
}

/// Why the `filesystem` part of the configuration is refused.
#[derive(Debug)]
pub enum ParseError {
    /// `filesystem` is not a table.
    NotTable,
    /// A path is empty.
    EmptyPath,
    /// A path does not hold a table.
    PathNotTable(String),
    /// A key other than `hidden`.
    UnsupportedKey { path: String, key: String },
    /// A path without `hidden`.
    MissingHidden(String),
    /// `hidden` is not a boolean.
    HiddenNotBool(String),
}

/// The setting of one path table.
pub open spec fn setting_of_entry(path: String, value: TomlValue) -> Result<Setting, ParseError> {
    if path@.len() == 0 {
        Err(ParseError::EmptyPath)
    } else {
        match value {
            TomlValue::Table(t) => match first_other_key(t.entries@, "hidden"@) {
                Some(key) => Err(ParseError::UnsupportedKey { path, key }),
                None => match lookup(t.entries@, "hidden"@) {
                    None => Err(ParseError::MissingHidden(path)),
                    Some(TomlValue::Boolean(b)) => Ok(Setting { path, hidden: b }),
                    Some(_) => Err(ParseError::HiddenNotBool(path)),
                },
            },
            _ => Err(ParseError::PathNotTable(path)),
        }
    }
}

/// The settings of the path tables `entries`, in order.
pub open spec fn settings_of_entries(entries: Seq<(String, TomlValue)>) -> Result<
    Seq<Setting>,
    ParseError,
>
    decreases entries.len(),
{
    if entries.len() == 0 {
        Ok(seq![])
    } else {
        match settings_of_entries(entries.drop_last()) {
            Err(e) => Err(e),
            Ok(before) => match setting_of_entry(entries.last().0, entries.last().1) {
                Err(e) => Err(e),
                Ok(s) => Ok(before.push(s)),
            },
        }
    }
}

/// The settings below the top-level `filesystem` key.
pub open spec fn settings_of(value: TomlValue) -> Result<Seq<Setting>, ParseError> {
    match value {
        TomlValue::Table(t) => settings_of_entries(t.entries@),
        _ => Err(ParseError::NotTable),
    }
}

fn parse_entry(path: &String, value: &TomlValue) -> (r: Result<Setting, ParseError>)
    ensures
        r == setting_of_entry(*path, *value),
{
    if path.unicode_len() == 0 {
        return Err(ParseError::EmptyPath);
    }
    let table = match value {
        TomlValue::Table(t) => t,
        _ => {
            return Err(ParseError::PathNotTable(path.clone()));
        },
    };
    if let Some(key) = find_other_key(&table.entries, "hidden") {
        return Err(ParseError::UnsupportedKey { path: path.clone(), key });
    }
    match find_key(&table.entries, "hidden") {
        None => Err(ParseError::MissingHidden(path.clone())),
        Some(i) => match &table.entries[i].1 {
            TomlValue::Boolean(b) => Ok(Setting { path: path.clone(), hidden: *b }),
            _ => Err(ParseError::HiddenNotBool(path.clone())),
        },
    }
}

proof fn lemma_entries_error_stays(entries: Seq<(String, TomlValue)>, k: int)
    requires
        0 <= k <= entries.len(),
        settings_of_entries(entries.subrange(0, k)) is Err,
    ensures
        settings_of_entries(entries) == settings_of_entries(entries.subrange(0, k)),
    decreases entries.len() - k,
{
    if k == entries.len() {
        assert(entries.subrange(0, k) =~= entries);
    } else {
        assert(entries.drop_last().subrange(0, k) =~= entries.subrange(0, k));
        lemma_entries_error_stays(entries.drop_last(), k);
    }
}

/// Parse the table below the top-level `filesystem` key.
pub fn parse(value: &TomlValue) -> (r: Result<Vec<Setting>, ParseError>)
    ensures
        seq_result(r) == settings_of(*value),
{
    let table = match value {
        TomlValue::Table(t) => t,
        _ => {
            return Err(ParseError::NotTable);
        },
    };
    let entries = &table.entries;
    let mut settings: Vec<Setting> = Vec::new();
    let mut i: usize = 0;
    while i < entries.len()
        invariant
            i <= entries.len(),
            settings_of(*value) == settings_of_entries(entries@),
            settings_of_entries(entries@.subrange(0, i as int)) == Ok::<
                Seq<Setting>,
                ParseError,
            >(settings@),
        decreases entries.len() - i,
    {
        let ghost prefix = entries@.subrange(0, i as int + 1);
        assert(prefix.drop_last() =~= entries@.subrange(0, i as int));
        assert(prefix.last() == entries@[i as int]);
        match parse_entry(&entries[i].0, &entries[i].1) {
            Err(e) => {
                proof {
                    assert(settings_of_entries(prefix) == Err::<Seq<Setting>, ParseError>(e));
                    lemma_entries_error_stays(entries@, i as int + 1);
                }
                return Err(e);
            },
            Ok(s) => {
                settings.push(s);
            },
        }
        i = i + 1;
    }
    assert(entries@.subrange(0, entries@.len() as int) =~= entries@);
    Ok(settings)
}

/// A planned change to one filesystem flag.
#[derive(Debug)]
pub struct Change {
    pub location: Location,
    pub desired: bool,
    pub current: bool,
}

/// What inspecting one configured path gave: the path with `~` expanded, and
/// the file flags of what it names.
#[derive(Debug)]
pub struct Observation {
    pub expanded: Result<Location, String>,
    pub flags: Result<u32, String>,
}

/// Why no plan can be made for a configured path.
#[derive(Debug)]
pub enum PlanError {
    /// `~` could not be expanded.
    ExpandFailed(String),
    /// The configured path is neither absolute nor begins with `~`.
    NotAbsolute(String),
    /// The path could not be inspected.
    InspectFailed(String),
}

/// The change for one setting, from what inspecting its path gave.
pub open spec fn change_of(setting: Setting, observation: Observation) -> Result<
    Change,
    PlanError,
> {
    match observation.expanded {
        Err(m) => Err(PlanError::ExpandFailed(m)),
        Ok(location) => if !absolute(location.path@) {
            Err(PlanError::NotAbsolute(setting.path))
        } else {
            match observation.flags {
                Err(m) => Err(PlanError::InspectFailed(m)),
                Ok(flags) => Ok(
                    Change { location, desired: setting.hidden, current: flags_hidden(flags) },
                ),
            }
        },
    }
}

/// The changes for the first `n` settings, in order; the first that fails
/// refuses the plan.
pub open spec fn changes_upto(settings: Seq<Setting>, observations: Seq<Observation>, n: nat) -> Result<
    Seq<Change>,
    PlanError,
>
    decreases n,
{
    if n == 0 {
        Ok(seq![])
    } else {
        match changes_upto(settings, observations, (n - 1) as nat) {
            Err(e) => Err(e),
            Ok(before) => match change_of(settings[n - 1], observations[n - 1]) {
                Err(e) => Err(e),
                Ok(c) => Ok(before.push(c)),
            },
        }
    }
}

proof fn lemma_changes_error_stays(
    settings: Seq<Setting>,
    observations: Seq<Observation>,
    k: nat,
    n: nat,
)
    requires
        k <= n,
        changes_upto(settings, observations, k) is Err,
    ensures
        changes_upto(settings, observations, n) == changes_upto(settings, observations, k),
    decreases n,
{
    if n > k {
        lemma_changes_error_stays(settings, observations, k, (n - 1) as nat);
    }
}

fn plan_one(setting: &Setting, observation: Observation) -> (r: Result<Change, PlanError>)
    ensures
        r == change_of(*setting, observation),
{
    match observation.expanded {
        Err(m) => Err(PlanError::ExpandFailed(m)),
        Ok(location) => {
            if !is_absolute(location.path.as_str()) {
                Err(PlanError::NotAbsolute(setting.path.clone()))
            } else {
                match observation.flags {
                    Err(m) => Err(PlanError::InspectFailed(m)),
                    Ok(flags) => Ok(
                        Change { location, desired: setting.hidden, current: is_hidden(flags) },
                    ),
                }
            }
        },
    }
}

/// Read current state and build an owned reconciliation plan: one change for
/// each setting, in order, from what inspecting its path gave.
pub fn plan(settings: &Vec<Setting>, observations: Vec<Observation>) -> (r: Result<
    Vec<Change>,
    PlanError,
>)
    requires
        observations.len() == settings.len(),
    ensures
        seq_result(r) == changes_upto(settings@, observations@, settings@.len()),
{
    let ghost all = observations@;
    let mut rest = observations;
    let mut changes: Vec<Change> = Vec::new();
    let mut i: usize = 0;
    while i < settings.len()
        invariant
            i <= settings.len(),
            all.len() == settings.len(),
            all == observations@,
            rest@ == all.subrange(i as int, all.len() as int),
            changes_upto(settings@, all, i as nat) == Ok::<Seq<Change>, PlanError>(changes@),
        decreases settings.len() - i,
    {
        let observation = rest.remove(0);
        assert(observation == all[i as int]);
        match plan_one(&settings[i], observation) {
            Err(e) => {
                proof {
                    assert(changes_upto(settings@, all, (i + 1) as nat) == Err::<
                        Seq<Change>,
                        PlanError,
                    >(e));
                    lemma_changes_error_stays(settings@, all, (i + 1) as nat, settings@.len());
                }
                return Err(e);
            },
            Ok(c) => {
                changes.push(c);
            },
        }
        i = i + 1;
    }
    Ok(changes)
}

/// The text of the operation that hides or unhides a path.
pub open spec fn hint_text(change: Change) -> Seq<char> {
    "lchflags(3) "@ + (if change.desired {
        "hidden"@
    } else {
        "nohidden"@
    }) + " "@ + quoted(change.location.path@)
}

impl IntegrationChange for Change {
    /// The section that the change is printed under.
    fn section(&self) -> (r: String)
        ensures
            r@ == "filesystem."@ + toml_string_repr(self.location.friendly@),
    {
        let r = String::from_str("filesystem.");
        let path = toml_quote(self.location.friendly.as_str());
        r.concat(path.as_str())
    }

    /// The key that the change sets.
    fn key(&self) -> (r: &str)
        ensures
            r@ == "hidden"@,
    {
        "hidden"
    }

    /// Whether the path is hidden now.
    fn current(&self) -> (r: DisplayValue)
        ensures
            r == DisplayValue::Boolean(self.current),
    {
        DisplayValue::Boolean(self.current)
    }

    /// Whether the path is to be hidden.
    fn desired(&self) -> (r: DisplayValue)
        ensures
            r == DisplayValue::Boolean(self.desired),
    {
        DisplayValue::Boolean(self.desired)
    }

    /// Whether the path already is as configured.
    fn is_applied(&self) -> (r: bool)
        ensures
            r == (self.current == self.desired),
    {
        self.current == self.desired
    }

    /// The operation that makes the change.
    fn operation_hint(&self) -> (r: Result<String, DomainError>)
        ensures
            r matches Ok(text) && text@ == hint_text(*self),
    {
        Ok({
            let r = String::from_str("lchflags(3) ");
            let r = if self.desired {
                r.concat("hidden")
            } else {
                r.concat("nohidden")
            };
            let r = r.concat(" ");
            let path = quote(self.location.path.as_str());
            r.concat(path.as_str())
        })
    }

    /// The processes to relaunch once the change is made: none.
    fn relaunches(&self) -> (r: Vec<String>)
        ensures
            r@.len() == 0,
    {
        Vec::new()
    }
}


/// What a refused `filesystem` configuration is told.
pub open spec fn parse_error_text(error: ParseError) -> Seq<char> {
    match error {
        ParseError::NotTable => "filesystem must be a table"@,
        ParseError::EmptyPath => "filesystem path may not be empty"@,
        ParseError::PathNotTable(path) => "filesystem path "@ + debug_str(path@)
            + " must be a table"@,
        ParseError::UnsupportedKey { path, key } => "filesystem."@ + debug_str(path@) + "."@ + key@
            + " is unsupported"@,
        ParseError::MissingHidden(path) => "filesystem."@ + debug_str(path@) + ".hidden is required"@,
        ParseError::HiddenNotBool(path) => "filesystem."@ + debug_str(path@)
            + ".hidden must be a boolean"@,
    }
}

impl ParseError {
    /// What a refused `filesystem` configuration is told.
    pub fn message(&self) -> (r: String)
        ensures
            r@ == parse_error_text(*self),
    {
        match self {
            ParseError::NotTable => String::from_str("filesystem must be a table"),
            ParseError::EmptyPath => String::from_str("filesystem path may not be empty"),
            ParseError::PathNotTable(path) => String::from_str("filesystem path ").concat(
                debug_quote(path.as_str()).as_str(),
            ).concat(" must be a table"),
            ParseError::UnsupportedKey { path, key } => String::from_str("filesystem.").concat(
                debug_quote(path.as_str()).as_str(),
            ).concat(".").concat(key.as_str()).concat(" is unsupported"),
            ParseError::MissingHidden(path) => String::from_str("filesystem.").concat(
                debug_quote(path.as_str()).as_str(),
            ).concat(".hidden is required"),
            ParseError::HiddenNotBool(path) => String::from_str("filesystem.").concat(
                debug_quote(path.as_str()).as_str(),
            ).concat(".hidden must be a boolean"),
        }
    }
}

/// What a failed filesystem plan is told.
pub open spec fn plan_error_text(error: PlanError) -> Seq<char> {
    match error {
        PlanError::ExpandFailed(m) => m@,
        PlanError::NotAbsolute(path) => "filesystem path must be absolute or begin with '~': "@
            + path@,
        PlanError::InspectFailed(m) => m@,
    }
}

impl PlanError {
    /// What a failed filesystem plan is told.
    pub fn message(&self) -> (r: String)
        ensures
            r@ == plan_error_text(*self),
    {
        match self {
            PlanError::ExpandFailed(m) => m.clone(),
            PlanError::NotAbsolute(path) => String::from_str(
                "filesystem path must be absolute or begin with '~': ",
            ).concat(path.as_str()),
            PlanError::InspectFailed(m) => m.clone(),
        }
    }
}


/// A filesystem plan holds one change for each setting.
pub proof fn lemma_plan_length(settings: Seq<Setting>, observations: Seq<Observation>, n: nat)
    ensures
        changes_upto(settings, observations, n) matches Ok(cs) ==> cs.len() == n,
    decreases n,
{
    if n > 0 {
        lemma_plan_length(settings, observations, (n - 1) as nat);
    }
}

} // verus!
