//! The desktop wallpaper of every screen.

use vstd::prelude::*;
use vstd::string::*;

use crate::document::{find_key, find_other_key, first_other_key, lookup, TomlValue};
use crate::integrations::defaults::DomainError;
use crate::integrations::{absolute, is_absolute, IntegrationChange, DisplayValue, Location};

verus! {

/// The configuration below the top-level `wallpaper` key.
#[derive(Debug)]
pub struct Setting {
    pub path: String,
}

/// Why the `wallpaper` part of the configuration is refused.
#[derive(Debug)]
pub enum ParseError {
    /// `wallpaper` is not a table.
    NotTable,
    /// A key other than `path`.
    UnsupportedKey(String),
    /// No `path` key.
    MissingPath,
    /// `path` is not a string.
    PathNotString,
    /// `path` is empty.
    EmptyPath,
}

/// The setting that the value below `wallpaper` gives.
pub open spec fn setting_of(value: TomlValue) -> Result<Setting, ParseError> {
    match value {
        TomlValue::Table(t) => match first_other_key(t.entries@, "path"@) {
            Some(key) => Err(ParseError::UnsupportedKey(key)),
            None => match lookup(t.entries@, "path"@) {
                None => Err(ParseError::MissingPath),
                Some(TomlValue::String(s)) => if s@.len() == 0 {
                    Err(ParseError::EmptyPath)
                } else {
                    Ok(Setting { path: s })
                },
                Some(_) => Err(ParseError::PathNotString),
            },
        },
        _ => Err(ParseError::NotTable),
    }
}

/// Parse the value below the top-level `wallpaper` key.
pub fn parse(value: &TomlValue) -> (r: Result<Setting, ParseError>)
    ensures
        r == setting_of(*value),
{
    let table = match value {
        TomlValue::Table(t) => t,
        _ => {
            return Err(ParseError::NotTable);
        },
    };
    if let Some(key) = find_other_key(&table.entries, "path") {
        return Err(ParseError::UnsupportedKey(key));
    }
    let i = match find_key(&table.entries, "path") {
        Some(i) => i,
        None => {
            return Err(ParseError::MissingPath);
        },
    };
    match &table.entries[i].1 {
        TomlValue::String(s) => {
            if s.unicode_len() == 0 {
                Err(ParseError::EmptyPath)
            } else {
                Ok(Setting { path: s.clone() })
            }
        },
        _ => Err(ParseError::PathNotString),
    }
}

/// An owned snapshot of the current and desired wallpaper state.
#[derive(Debug)]
pub struct Change {
    pub desired: Location,
    /// The image of each screen, where it has one.
    pub current: Vec<Option<Location>>,
}

/// What inspecting the wallpaper gave: the configured path with `~`
/// expanded, that path resolved, whether it names a file, and the image of
/// each connected screen.
#[derive(Debug)]
pub struct Observation {
    pub expanded: Result<String, String>,
    pub resolved: Result<Location, String>,
    pub is_file: bool,
    pub screens: Result<Vec<Option<Location>>, String>,
}

/// Why no wallpaper plan can be made.
#[derive(Debug)]
pub enum PlanError {
    /// `~` could not be expanded.
    ExpandFailed(String),
    /// The configured path is neither absolute nor begins with `~`.
    NotAbsolute(String),
    /// The image could not be resolved.
    ResolveFailed(String),
    /// The resolved path is not a file.
    NotAFile(String),
    /// The screens could not be listed.
    ScreensFailed(String),
    /// No screen is connected.
    NoScreens,
}

/// The plan that the observation gives for a setting.
pub open spec fn change_of(setting: Setting, observation: Observation) -> Result<
    Change,
    PlanError,
> {
    match observation.expanded {
        Err(m) => Err(PlanError::ExpandFailed(m)),
        Ok(path) => if !absolute(path@) {
            Err(PlanError::NotAbsolute(setting.path))
        } else {
            match observation.resolved {
                Err(m) => Err(PlanError::ResolveFailed(m)),
                Ok(desired) => if !observation.is_file {
                    Err(PlanError::NotAFile(desired.path))
                } else {
                    match observation.screens {
                        Err(m) => Err(PlanError::ScreensFailed(m)),
                        Ok(current) => if current.len() == 0 {
                            Err(PlanError::NoScreens)
                        } else {
                            Ok(Change { desired, current })
                        },
                    }
                },
            }
        },
    }
}

/// Read current state and build an owned reconciliation plan.
pub fn plan(setting: &Setting, observation: Observation) -> (r: Result<Change, PlanError>)
    ensures
        r == change_of(*setting, observation),
{
    let path = match observation.expanded {
        Err(m) => {
            return Err(PlanError::ExpandFailed(m));
        },
        Ok(path) => path,
    };
    if !is_absolute(path.as_str()) {
        return Err(PlanError::NotAbsolute(setting.path.clone()));
    }
    let desired = match observation.resolved {
        Err(m) => {
            return Err(PlanError::ResolveFailed(m));
        },
        Ok(desired) => desired,
    };
    if !observation.is_file {
        return Err(PlanError::NotAFile(desired.path));
    }
    match observation.screens {
        Err(m) => Err(PlanError::ScreensFailed(m)),
        Ok(current) => {
            if current.len() == 0 {
                Err(PlanError::NoScreens)
            } else {
                Ok(Change { desired, current })
            }
        },
    }
}

/// Whether two screens show the same image (or both none).
pub open spec fn same_image(a: Option<Location>, b: Option<Location>) -> bool {
    match (a, b) {
        (Some(x), Some(y)) => x.path@ == y.path@,
        (None, None) => true,
        _ => false,
    }
}

/// How `Debug` writes a path: quoted and escaped.
pub uninterp spec fn path_debug_str(path: Seq<char>) -> Seq<char>;

/// The path as `format!("{:?}", Path::new(path))` writes it.
#[verifier::external_body]
fn path_debug(path: &str) -> (r: String)
    ensures
        r@ == path_debug_str(path@),
{
    format!("{:?}", std::path::Path::new(path))
}

fn same_image_exec(a: &Option<Location>, b: &Option<Location>) -> (r: bool)
    ensures
        r == same_image(*a, *b),
{
    match (a, b) {
        (Some(x), Some(y)) => crate::util::text::same_text(x.path.as_str(), y.path.as_str()),
        (None, None) => true,
        _ => false,
    }
}

/// Whether a screen shows the configured image of `change`.
pub open spec fn shows_desired_image(change: Change, image: Option<Location>) -> bool {
    image matches Some(l) && l.path@ == change.desired.path@
}

/// Whether every screen shows the configured image, and there is a screen.
pub open spec fn applied(change: Change) -> bool {
    change.current@.len() > 0 && forall|i: int|
        0 <= i < change.current@.len() ==> shows_desired_image(change, #[trigger] change.current@[i])
}

/// Whether the screens show different images.
pub open spec fn varies(change: Change) -> bool {
    exists|i: int|
        0 <= i < change.current@.len() && !same_image(
            #[trigger] change.current@[i],
            change.current@[0],
        )
}

/// Whether `r` presents the current wallpaper of `change`: nothing without
/// screens, a note where screens differ, else the image of the first screen.
pub open spec fn shows_current(change: Change, r: DisplayValue) -> bool {
    if change.current@.len() == 0 {
        r == DisplayValue::Missing
    } else if varies(change) {
        r matches DisplayValue::Description(d) && d@ == "<varies by screen>"@
    } else {
        r == match change.current@[0] {
            Some(l) => DisplayValue::String(l.friendly),
            None => DisplayValue::Missing,
        }
    }
}

impl IntegrationChange for Change {
    /// The section that the change is printed under.
    fn section(&self) -> (r: String)
        ensures
            r@ == "wallpaper"@,
    {
        String::from_str("wallpaper")
    }

    /// The key that the change sets.
    fn key(&self) -> (r: &str)
        ensures
            r@ == "path"@,
    {
        "path"
    }

    /// The current wallpaper, for presentation: nothing without screens, a
    /// note where screens differ, else the image of the first screen.
    fn current(&self) -> (r: DisplayValue)
        ensures
            shows_current(*self, r),
    {
        let n = self.current.len();
        if n == 0 {
            return DisplayValue::Missing;
        }
        let first = &self.current[0];
        let mut i: usize = 0;
        while i < n
            invariant
                n == self.current@.len(),
                n > 0,
                *first == self.current@[0],
                i <= n,
                forall|j: int| 0 <= j < i ==> same_image(#[trigger] self.current@[j], *first),
            decreases n - i,
        {
            if !same_image_exec(&self.current[i], first) {
                return DisplayValue::Description(String::from_str("<varies by screen>"));
            }
            i = i + 1;
        }
        match first {
            Some(l) => DisplayValue::String(l.friendly.clone()),
            None => DisplayValue::Missing,
        }
    }

    /// The configured wallpaper, for presentation.
    fn desired(&self) -> (r: DisplayValue)
        ensures
            r == DisplayValue::String(self.desired.friendly),
    {
        DisplayValue::String(self.desired.friendly.clone())
    }

    /// Whether every screen shows the configured image, and there is a screen.
    fn is_applied(&self) -> (r: bool)
        ensures
            r == applied(*self),
    {
        let n = self.current.len();
        if n == 0 {
            return false;
        }
        let mut i: usize = 0;
        while i < n
            invariant
                n == self.current@.len(),
                i <= n,
                forall|j: int| 0 <= j < i ==> shows_desired_image(*self, #[trigger] self.current@[j]),
            decreases n - i,
        {
            match &self.current[i] {
                Some(l) => {
                    if !crate::util::text::same_text(l.path.as_str(), self.desired.path.as_str()) {
                        return false;
                    }
                },
                None => {
                    return false;
                },
            }
            i = i + 1;
        }
        true
    }

    /// The operation that makes the change.
    fn operation_hint(&self) -> (r: Result<String, DomainError>)
        ensures
            r matches Ok(text) && text@ == "NSWorkspace setDesktopImageURL "@ + path_debug_str(self.desired.path@),
    {
        Ok({
            let r = String::from_str("NSWorkspace setDesktopImageURL ");
            let path = path_debug(self.desired.path.as_str());
            r.concat(path.as_str())
        })
    }

    /// The processes to relaunch once the change is made: none.
    fn relaunches(&self) -> (r: Vec<String>)
        ensures
            r@.len() == 0,
    {
        Vec::new()
    }
}


/// What a refused `wallpaper` configuration is told.
pub open spec fn parse_error_text(error: ParseError) -> Seq<char> {
    match error {
        ParseError::NotTable => "wallpaper must be a table"@,
        ParseError::UnsupportedKey(key) => "wallpaper."@ + key@ + " is unsupported"@,
        ParseError::MissingPath => "wallpaper.path is required"@,
        ParseError::PathNotString => "wallpaper.path must be a string"@,
        ParseError::EmptyPath => "wallpaper.path may not be empty"@,
    }
}

impl ParseError {
    /// What a refused `wallpaper` configuration is told.
    pub fn message(&self) -> (r: String)
        ensures
            r@ == parse_error_text(*self),
    {
        match self {
            ParseError::NotTable => String::from_str("wallpaper must be a table"),
            ParseError::UnsupportedKey(key) => String::from_str("wallpaper.").concat(
                key.as_str(),
            ).concat(" is unsupported"),
            ParseError::MissingPath => String::from_str("wallpaper.path is required"),
            ParseError::PathNotString => String::from_str("wallpaper.path must be a string"),
            ParseError::EmptyPath => String::from_str("wallpaper.path may not be empty"),
        }
    }
}

/// What a failed wallpaper plan is told.
pub open spec fn plan_error_text(error: PlanError) -> Seq<char> {
    match error {
        PlanError::ExpandFailed(m) => m@,
        PlanError::NotAbsolute(path) => "wallpaper.path must be absolute or begin with '~': "@
            + path@,
        PlanError::ResolveFailed(m) => m@,
        PlanError::NotAFile(path) => "wallpaper path is not a file: "@ + path@,
        PlanError::ScreensFailed(m) => m@,
        PlanError::NoScreens => "macOS did not report any connected screens"@,
    }
}

impl PlanError {
    /// What a failed wallpaper plan is told.
    pub fn message(&self) -> (r: String)
        ensures
            r@ == plan_error_text(*self),
    {
        match self {
            PlanError::ExpandFailed(m) => m.clone(),
            PlanError::NotAbsolute(path) => String::from_str(
                "wallpaper.path must be absolute or begin with '~': ",
            ).concat(path.as_str()),
            PlanError::ResolveFailed(m) => m.clone(),
            PlanError::NotAFile(path) => String::from_str("wallpaper path is not a file: ").concat(
                path.as_str(),
            ),
            PlanError::ScreensFailed(m) => m.clone(),
            PlanError::NoScreens => String::from_str("macOS did not report any connected screens"),
        }
    }
}

/// A wallpaper change is in place exactly when there is a screen and every
/// screen shows the configured image: a single screen with another image, or
/// with none, leaves it pending.
pub proof fn lemma_applied_needs_every_screen(change: Change)
    ensures
        applied(change) <==> change.current@.len() > 0 && forall|i: int|
            0 <= i < change.current@.len() ==> (#[trigger] change.current@[i] matches Some(l)
                && l.path@ == change.desired.path@),
        forall|i: int|
            0 <= i < change.current@.len() && !(#[trigger] change.current@[i] matches Some(l)
                && l.path@ == change.desired.path@) ==> !applied(change),
        change.current@.len() == 0 ==> !applied(change),
{
}

} // verus!
