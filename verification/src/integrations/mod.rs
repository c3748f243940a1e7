//! Integrations turn configuration into owned, executable reconciliation plans.

pub mod appearance;
pub mod defaults;
pub mod filesystem;
pub mod wallpaper;

use vstd::prelude::*;
use vstd::string::*;

use crate::config::Config;
use crate::document::toml_string_repr;
use crate::number::Real;
use crate::util::home::{friendly, friendly_path, home_text};
use crate::util::text::{bool_string, bool_text, debug_quote, debug_str, decimal, decimal_string};

verus! {

/// An integration-neutral value prepared for command-line presentation.
#[derive(Debug)]
pub enum DisplayValue {
    Boolean(bool),
    Integer(i64),
    Float(Real),
    String(String),
    Missing,
    Description(String),
}

/// The text of a presented value.
pub open spec fn rendered(value: DisplayValue) -> Seq<char> {
    match value {
        DisplayValue::Boolean(b) => bool_text(b),
        DisplayValue::Integer(i) => decimal(i as int),
        DisplayValue::Float(r) => r.text@,
        DisplayValue::String(s) => debug_str(s@),
        DisplayValue::Missing => "<unset>"@,
        DisplayValue::Description(d) => d@,
    }
}

impl DisplayValue {
    /// The value as it is shown to the user.
    pub fn render(&self) -> (r: String)
        ensures
            r@ == rendered(*self),
    {
        match self {
            DisplayValue::Boolean(b) => bool_string(*b),
            DisplayValue::Integer(i) => decimal_string(*i),
            DisplayValue::Float(r) => r.text.clone(),
            DisplayValue::String(s) => debug_quote(s.as_str()),
            DisplayValue::Missing => String::from_str("<unset>"),
            DisplayValue::Description(d) => d.clone(),
        }
    }
}

impl Clone for DisplayValue {
    fn clone(&self) -> (r: Self)
        ensures
            r == *self,
    {
        match self {
            DisplayValue::Boolean(b) => DisplayValue::Boolean(*b),
            DisplayValue::Integer(i) => DisplayValue::Integer(*i),
            DisplayValue::Float(r) => DisplayValue::Float(r.clone()),
            DisplayValue::String(s) => DisplayValue::String(s.clone()),
            DisplayValue::Missing => DisplayValue::Missing,
            DisplayValue::Description(d) => DisplayValue::Description(d.clone()),
        }
    }
}


/// A resolved path, with the form in which it is shown to the user (the home
/// directory written as `~`).
#[derive(Debug)]
pub struct Location {
    pub path: String,
    pub friendly: String,
}

impl Clone for Location {
    fn clone(&self) -> (r: Self)
        ensures
            r == *self,
    {
        Location { path: self.path.clone(), friendly: self.friendly.clone() }
    }
}

impl Location {
    /// A resolved path, shown with the home directory written as `~`.
    pub fn new(path: &str, home: Option<&str>) -> (r: Location)
        ensures
            r.path@ == path@,
            r.friendly@ == friendly(path@, home_text(home)),
    {
        Location { path: path.to_owned(), friendly: friendly_path(path, home) }
    }
}

/// Whether a path is absolute: it begins at the root, `/`.
pub open spec fn absolute(path: Seq<char>) -> bool {
    path.len() > 0 && path[0] == '/'
}

/// Whether a path is absolute.
pub fn is_absolute(path: &str) -> (r: bool)
    ensures
        r == absolute(path@),
{
    path.unicode_len() > 0 && path.get_char(0) == '/'
}


/// One planned unit of work, with current state captured before any mutation.
#[derive(Debug)]
pub enum PlannedChange {
    Appearance(appearance::Change),
    Defaults(defaults::Change),
    Filesystem(filesystem::Change),
    Wallpaper(wallpaper::Change),
}

/// The ANSI color in which a presented value is shown.
pub open spec fn value_color(value: DisplayValue) -> Seq<char> {
    match value {
        DisplayValue::Boolean(_) => "35"@,
        DisplayValue::Integer(_) | DisplayValue::Float(_) => "36"@,
        DisplayValue::String(_) => "32"@,
        DisplayValue::Missing | DisplayValue::Description(_) => "2"@,
    }
}

/// The ANSI color in which a presented value is shown.
pub fn value_color_of(value: &DisplayValue) -> (r: &'static str)
    ensures
        r@ == value_color(*value),
{
    match value {
        DisplayValue::Boolean(_) => "35",
        DisplayValue::Integer(_) | DisplayValue::Float(_) => "36",
        DisplayValue::String(_) => "32",
        DisplayValue::Missing | DisplayValue::Description(_) => "2",
    }
}

/// The section a change is printed under.
pub open spec fn section_of(change: PlannedChange) -> Seq<char> {
    match change {
        PlannedChange::Appearance(_) => "appearance"@,
        PlannedChange::Defaults(d) => defaults::section_name(d.setting.domain@),
        PlannedChange::Filesystem(f) => "filesystem."@ + toml_string_repr(f.location.friendly@),
        PlannedChange::Wallpaper(_) => "wallpaper"@,
    }
}

/// The key a change sets.
pub open spec fn key_of(change: PlannedChange) -> Seq<char> {
    match change {
        PlannedChange::Appearance(_) => "mode"@,
        PlannedChange::Defaults(d) => d.setting.key@,
        PlannedChange::Filesystem(_) => "hidden"@,
        PlannedChange::Wallpaper(_) => "path"@,
    }
}

/// Whether a change is already in place.
pub open spec fn applied(change: PlannedChange) -> bool {
    match change {
        PlannedChange::Appearance(a) => a.current == a.desired,
        PlannedChange::Defaults(d) => defaults::applied(d),
        PlannedChange::Filesystem(f) => f.current == f.desired,
        PlannedChange::Wallpaper(w) => wallpaper::applied(w),
    }
}

/// The processes to relaunch once a change is made.
pub open spec fn relaunches_of(change: PlannedChange) -> Seq<Seq<char>> {
    match change {
        PlannedChange::Defaults(d) => defaults::relaunch_names(d.setting.domain@),
        _ => seq![],
    }
}

/// Whether `r` presents the current state of a change.
pub open spec fn shows_current(change: PlannedChange, r: DisplayValue) -> bool {
    match change {
        PlannedChange::Appearance(a) => r matches DisplayValue::String(s) && s@
            == appearance::mode_name(a.current),
        PlannedChange::Defaults(d) => r == match d.current {
            Some(v) => defaults::display_of(v),
            None => DisplayValue::Missing,
        },
        PlannedChange::Filesystem(f) => r == DisplayValue::Boolean(f.current),
        PlannedChange::Wallpaper(w) => wallpaper::shows_current(w, r),
    }
}

/// Whether `r` presents the configured state of a change.
pub open spec fn shows_desired(change: PlannedChange, r: DisplayValue) -> bool {
    match change {
        PlannedChange::Appearance(a) => r matches DisplayValue::String(s) && s@
            == appearance::mode_name(a.desired),
        PlannedChange::Defaults(d) => r == defaults::display_of(d.setting.value),
        PlannedChange::Filesystem(f) => r == DisplayValue::Boolean(f.desired),
        PlannedChange::Wallpaper(w) => r == DisplayValue::String(w.desired.friendly),
    }
}

/// The text of the current state of a change.
pub open spec fn current_text(change: PlannedChange) -> Seq<char> {
    match change {
        PlannedChange::Appearance(a) => debug_str(appearance::mode_name(a.current)),
        PlannedChange::Defaults(d) => match d.current {
            Some(v) => rendered(defaults::display_of(v)),
            None => "<unset>"@,
        },
        PlannedChange::Filesystem(f) => bool_text(f.current),
        PlannedChange::Wallpaper(w) => if w.current@.len() == 0 {
            "<unset>"@
        } else if wallpaper::varies(w) {
            "<varies by screen>"@
        } else {
            match w.current@[0] {
                Some(l) => debug_str(l.friendly@),
                None => "<unset>"@,
            }
        },
    }
}

/// The color of the current state of a change.
pub open spec fn current_color(change: PlannedChange) -> Seq<char> {
    match change {
        PlannedChange::Appearance(_) => "32"@,
        PlannedChange::Defaults(d) => match d.current {
            Some(v) => value_color(defaults::display_of(v)),
            None => "2"@,
        },
        PlannedChange::Filesystem(_) => "35"@,
        PlannedChange::Wallpaper(w) => if w.current@.len() == 0 || wallpaper::varies(w) {
            "2"@
        } else {
            match w.current@[0] {
                Some(_) => "32"@,
                None => "2"@,
            }
        },
    }
}

/// The text of the configured state of a change.
pub open spec fn desired_text(change: PlannedChange) -> Seq<char> {
    match change {
        PlannedChange::Appearance(a) => debug_str(appearance::mode_name(a.desired)),
        PlannedChange::Defaults(d) => rendered(defaults::display_of(d.setting.value)),
        PlannedChange::Filesystem(f) => bool_text(f.desired),
        PlannedChange::Wallpaper(w) => debug_str(w.desired.friendly@),
    }
}

/// The color of the configured state of a change.
pub open spec fn desired_color(change: PlannedChange) -> Seq<char> {
    match change {
        PlannedChange::Appearance(_) => "32"@,
        PlannedChange::Defaults(d) => value_color(defaults::display_of(d.setting.value)),
        PlannedChange::Filesystem(_) => "35"@,
        PlannedChange::Wallpaper(_) => "32"@,
    }
}

/// Whether `r` is the operation hint of a change: the command or call that
/// makes it, or why a defaults domain is refused.
pub open spec fn hints(change: PlannedChange, r: Result<String, defaults::DomainError>) -> bool {
    match change {
        PlannedChange::Appearance(a) => r matches Ok(t) && t@ == appearance::command_text(
            appearance::script_text(a.desired),
        ),
        PlannedChange::Defaults(d) => match defaults::domain_check(d.setting.domain@) {
            Err(e) => r == Err::<String, defaults::DomainError>(e),
            Ok(_) => r matches Ok(t) && t@ == defaults::write_command_text(d.setting),
        },
        PlannedChange::Filesystem(f) => r matches Ok(t) && t@ == filesystem::hint_text(f),
        PlannedChange::Wallpaper(w) => r matches Ok(t) && t@ == "NSWorkspace setDesktopImageURL "@
            + wallpaper::path_debug_str(w.desired.path@),
    }
}

/// The shared behavior exposed by every integration-specific change.
pub trait IntegrationChange {
    /// The section that the change is printed under.
    fn section(&self) -> String;

    /// The key that the change sets.
    fn key(&self) -> &str;

    /// The current state, for presentation.
    fn current(&self) -> DisplayValue;

    /// The configured state, for presentation.
    fn desired(&self) -> DisplayValue;

    /// Whether the change is already in place.
    fn is_applied(&self) -> bool;

    /// The command or call that makes the change.
    fn operation_hint(&self) -> Result<String, defaults::DomainError>;

    /// The processes to relaunch once the change is made.
    fn relaunches(&self) -> Vec<String>;
}

impl IntegrationChange for PlannedChange {
    /// The section that the change is printed under.
    fn section(&self) -> (r: String)
        ensures
            r@ == section_of(*self),
    {
        match self {
            PlannedChange::Appearance(a) => a.section(),
            PlannedChange::Defaults(d) => d.section(),
            PlannedChange::Filesystem(f) => f.section(),
            PlannedChange::Wallpaper(w) => w.section(),
        }
    }

    /// The key that the change sets.
    fn key(&self) -> (r: &str)
        ensures
            r@ == key_of(*self),
    {
        match self {
            PlannedChange::Appearance(a) => a.key(),
            PlannedChange::Defaults(d) => d.key(),
            PlannedChange::Filesystem(f) => f.key(),
            PlannedChange::Wallpaper(w) => w.key(),
        }
    }

    /// The current state, for presentation.
    fn current(&self) -> (r: DisplayValue)
        ensures
            shows_current(*self, r),
            rendered(r) == current_text(*self),
            value_color(r) == current_color(*self),
    {
        match self {
            PlannedChange::Appearance(a) => a.current(),
            PlannedChange::Defaults(d) => d.current(),
            PlannedChange::Filesystem(f) => f.current(),
            PlannedChange::Wallpaper(w) => w.current(),
        }
    }

    /// The configured state, for presentation.
    fn desired(&self) -> (r: DisplayValue)
        ensures
            shows_desired(*self, r),
            rendered(r) == desired_text(*self),
            value_color(r) == desired_color(*self),
    {
        match self {
            PlannedChange::Appearance(a) => a.desired(),
            PlannedChange::Defaults(d) => d.desired(),
            PlannedChange::Filesystem(f) => f.desired(),
            PlannedChange::Wallpaper(w) => w.desired(),
        }
    }

    /// Whether the change is already in place.
    fn is_applied(&self) -> (r: bool)
        ensures
            r == applied(*self),
    {
        match self {
            PlannedChange::Appearance(a) => a.is_applied(),
            PlannedChange::Defaults(d) => d.is_applied(),
            PlannedChange::Filesystem(f) => f.is_applied(),
            PlannedChange::Wallpaper(w) => w.is_applied(),
        }
    }

    /// The command or call that makes the change.
    fn operation_hint(&self) -> (r: Result<String, defaults::DomainError>)
        ensures
            hints(*self, r),
    {
        match self {
            PlannedChange::Appearance(a) => a.operation_hint(),
            PlannedChange::Defaults(d) => d.operation_hint(),
            PlannedChange::Filesystem(f) => f.operation_hint(),
            PlannedChange::Wallpaper(w) => w.operation_hint(),
        }
    }

    /// The processes to relaunch once the change is made.
    fn relaunches(&self) -> (r: Vec<String>)
        ensures
            defaults::texts(r@) == relaunches_of(*self),
    {
        let r = match self {
            PlannedChange::Appearance(a) => a.relaunches(),
            PlannedChange::Defaults(d) => d.relaunches(),
            PlannedChange::Filesystem(f) => f.relaunches(),
            PlannedChange::Wallpaper(w) => w.relaunches(),
        };
        assert(!(*self is Defaults) ==> defaults::texts(r@) =~= seq![]);
        r
    }
}

/// What inspecting the system gave for each configured integration.
#[derive(Debug)]
pub struct Observations {
    /// What running the appearance script gave, when the appearance is configured.
    pub appearance: Option<Result<String, String>>,
    /// The export of each configured defaults domain.
    pub exports: Vec<defaults::DomainExport>,
    /// What inspecting each configured filesystem path gave, in order.
    pub filesystem: Vec<filesystem::Observation>,
    /// What inspecting the wallpaper gave, when it is configured.
    pub wallpaper: Option<wallpaper::Observation>,
}

/// Why no plan can be made.
#[derive(Debug)]
pub enum PlanError {
    Appearance(appearance::PlanError),
    Defaults(defaults::PlanError),
    Filesystem(filesystem::PlanError),
    Wallpaper(wallpaper::PlanError),
}

/// Whether the appearance part plans without failing.
pub open spec fn appearance_ok(config: Config, observations: Observations) -> bool {
    match config.appearance {
        None => true,
        Some(s) => match observations.appearance {
            Some(Ok(output)) => appearance::change_of(s, output@) is Ok,
            _ => false,
        },
    }
}

/// The planned appearance change, when there is one.
pub open spec fn appearance_changes(config: Config, observations: Observations) -> Seq<
    PlannedChange,
> {
    match config.appearance {
        None => seq![],
        Some(s) => match observations.appearance {
            Some(Ok(output)) => match appearance::change_of(s, output@) {
                Ok(c) => seq![PlannedChange::Appearance(c)],
                Err(_) => seq![],
            },
            _ => seq![],
        },
    }
}

/// The planned defaults changes, or why there are none.
pub open spec fn defaults_changes(config: Config, observations: Observations) -> Result<
    Seq<PlannedChange>,
    defaults::PlanError,
> {
    match defaults::changes_of(config.defaults@, observations.exports@) {
        Ok(cs) => Ok(cs.map_values(|c: defaults::Change| PlannedChange::Defaults(c))),
        Err(e) => Err(e),
    }
}

/// The planned filesystem changes, or why there are none.
pub open spec fn filesystem_changes(config: Config, observations: Observations) -> Result<
    Seq<PlannedChange>,
    filesystem::PlanError,
> {
    match filesystem::changes_upto(
        config.filesystem@,
        observations.filesystem@,
        config.filesystem@.len(),
    ) {
        Ok(cs) => Ok(cs.map_values(|c: filesystem::Change| PlannedChange::Filesystem(c))),
        Err(e) => Err(e),
    }
}

/// The planned wallpaper change, or why there is none.
pub open spec fn wallpaper_changes(config: Config, observations: Observations) -> Result<
    Seq<PlannedChange>,
    wallpaper::PlanError,
> {
    match (config.wallpaper, observations.wallpaper) {
        (Some(s), Some(o)) => match wallpaper::change_of(s, o) {
            Ok(c) => Ok(seq![PlannedChange::Wallpaper(c)]),
            Err(e) => Err(e),
        },
        _ => Ok(seq![]),
    }
}

/// Whether `r` is the plan of `config` under `observations`: the appearance
/// change, then the defaults, filesystem and wallpaper changes, each in
/// configuration order; or the failure of the first part that fails.
pub open spec fn planned(config: Config, observations: Observations, r: Result<
    Vec<PlannedChange>,
    PlanError,
>) -> bool {
    let a = appearance_ok(config, observations);
    let d = defaults_changes(config, observations);
    let f = filesystem_changes(config, observations);
    let w = wallpaper_changes(config, observations);
    match r {
        Ok(v) => a && d is Ok && f is Ok && w is Ok && v@ == appearance_changes(
            config,
            observations,
        ) + d->Ok_0 + f->Ok_0 + w->Ok_0,
        Err(PlanError::Appearance(e)) => !a && match (config.appearance, observations.appearance) {
            (Some(s), Some(observed)) => appearance::planned(s, observed, Err(e)),
            _ => false,
        },
        Err(PlanError::Defaults(e)) => a && d == Err::<Seq<PlannedChange>, defaults::PlanError>(
            e,
        ),
        Err(PlanError::Filesystem(e)) => a && d is Ok && f == Err::<
            Seq<PlannedChange>,
            filesystem::PlanError,
        >(e),
        Err(PlanError::Wallpaper(e)) => a && d is Ok && f is Ok && w == Err::<
            Seq<PlannedChange>,
            wallpaper::PlanError,
        >(e),
    }
}

/// Build the complete plan before applying any changes.
pub fn plan(config: &Config, observations: Observations) -> (r: Result<
    Vec<PlannedChange>,
    PlanError,
>)
    requires
        config.appearance is Some ==> observations.appearance is Some,
        observations.filesystem@.len() == config.filesystem@.len(),
        config.wallpaper is Some ==> observations.wallpaper is Some,
    ensures
        planned(*config, observations, r),
{
    let ghost obs = observations;
    let Observations { appearance: observed_appearance, exports, filesystem: fs_obs, wallpaper: wp_obs } =
        observations;
    let mut plan: Vec<PlannedChange> = Vec::new();
    if let Some(setting) = &config.appearance {
        let observed = match &observed_appearance {
            Some(o) => o,
            None => {
                proof {
                    assert(false);
                }
                return Err(PlanError::Appearance(appearance::PlanError::ReadFailed(String::new())));
            },
        };
        match appearance::plan(setting, observed) {
            Ok(c) => {
                plan.push(PlannedChange::Appearance(c));
            },
            Err(e) => {
                return Err(PlanError::Appearance(e));
            },
        }
    }
    assert(plan@ == appearance_changes(*config, obs));
    let d = match defaults::plan(&config.defaults, &exports) {
        Ok(d) => d,
        Err(e) => {
            return Err(PlanError::Defaults(e));
        },
    };
    assert(appearance_ok(*config, obs));
    assert(defaults_changes(*config, obs) == Ok::<Seq<PlannedChange>, defaults::PlanError>(
        d@.map_values(|c: defaults::Change| PlannedChange::Defaults(c)),
    ));
    let ghost before = plan@;
    let ghost mut i: int = 0;
    let mut d_rest = d;
    let ghost d_all = d_rest@;
    while d_rest.len() > 0
        invariant
            plan@ == before + d_all.subrange(0, i).map_values(
                |c: defaults::Change| PlannedChange::Defaults(c),
            ),
            d_rest@ == d_all.subrange(i, d_all.len() as int),
            0 <= i <= d_all.len(),
        decreases d_rest.len(),
    {
        let c = d_rest.remove(0);
        plan.push(PlannedChange::Defaults(c));
        proof {
            i = i + 1;
        }
        assert(plan@ =~= before + d_all.subrange(0, i).map_values(
            |c: defaults::Change| PlannedChange::Defaults(c),
        ));
    }
    assert(d_all.subrange(0, i) =~= d_all);
    let f = match filesystem::plan(&config.filesystem, fs_obs) {
        Ok(f) => f,
        Err(e) => {
            return Err(PlanError::Filesystem(e));
        },
    };
    assert(filesystem_changes(*config, obs) == Ok::<Seq<PlannedChange>, filesystem::PlanError>(
        f@.map_values(|c: filesystem::Change| PlannedChange::Filesystem(c)),
    ));
    let ghost before = plan@;
    let ghost mut k: int = 0;
    let mut f_rest = f;
    let ghost f_all = f_rest@;
    while f_rest.len() > 0
        invariant
            plan@ == before + f_all.subrange(0, k).map_values(
                |c: filesystem::Change| PlannedChange::Filesystem(c),
            ),
            f_rest@ == f_all.subrange(k, f_all.len() as int),
            0 <= k <= f_all.len(),
        decreases f_rest.len(),
    {
        let c = f_rest.remove(0);
        plan.push(PlannedChange::Filesystem(c));
        proof {
            k = k + 1;
        }
        assert(plan@ =~= before + f_all.subrange(0, k).map_values(
            |c: filesystem::Change| PlannedChange::Filesystem(c),
        ));
    }
    assert(f_all.subrange(0, k) =~= f_all);
    let ghost upto_f = plan@;
    assert(upto_f == appearance_changes(*config, obs) + defaults_changes(*config, obs)->Ok_0
        + filesystem_changes(*config, obs)->Ok_0);
    if let Some(setting) = &config.wallpaper {
        let observation = match wp_obs {
            Some(o) => o,
            None => {
                proof {
                    assert(false);
                }
                return Err(PlanError::Wallpaper(wallpaper::PlanError::NoScreens));
            },
        };
        match wallpaper::plan(setting, observation) {
            Ok(c) => {
                plan.push(PlannedChange::Wallpaper(c));
                assert(wallpaper_changes(*config, obs) == Ok::<
                    Seq<PlannedChange>,
                    wallpaper::PlanError,
                >(seq![PlannedChange::Wallpaper(c)]));
                assert(plan@ =~= upto_f + seq![PlannedChange::Wallpaper(c)]);
            },
            Err(e) => {
                return Err(PlanError::Wallpaper(e));
            },
        }
    }
    proof {
        if config.wallpaper is None {
            assert(wallpaper_changes(*config, obs) == Ok::<
                Seq<PlannedChange>,
                wallpaper::PlanError,
            >(seq![]));
            assert(plan@ =~= upto_f + seq![]);
        }
    }
    Ok(plan)
}


/// What a failed plan is told.
pub open spec fn plan_error_text(error: PlanError) -> Seq<char> {
    match error {
        PlanError::Appearance(e) => appearance::plan_error_text(e),
        PlanError::Defaults(e) => defaults::plan_error_text(e),
        PlanError::Filesystem(e) => filesystem::plan_error_text(e),
        PlanError::Wallpaper(e) => wallpaper::plan_error_text(e),
    }
}

impl PlanError {
    /// What a failed plan is told.
    pub fn message(&self) -> (r: String)
        ensures
            r@ == plan_error_text(*self),
    {
        match self {
            PlanError::Appearance(e) => e.message(),
            PlanError::Defaults(e) => e.message(),
            PlanError::Filesystem(e) => e.message(),
            PlanError::Wallpaper(e) => e.message(),
        }
    }

    /// What lies below the message, where there is more to say.
    pub fn cause(&self) -> (r: Option<String>)
        ensures
            match *self {
                PlanError::Appearance(appearance::PlanError::ReadFailed(m)) => r == Some(m),
                PlanError::Defaults(defaults::PlanError::ExportFailed { cause, .. }) => r == cause,
                _ => r is None,
            },
    {
        match self {
            PlanError::Appearance(e) => e.cause(),
            PlanError::Defaults(e) => e.cause(),
            _ => None,
        }
    }
}


/// A plan covers the whole configuration: one change for the appearance and
/// for the wallpaper where they are configured, and one for each defaults
/// setting and each filesystem path.
pub proof fn lemma_plan_covers_config(
    config: Config,
    observations: Observations,
    r: Result<Vec<PlannedChange>, PlanError>,
)
    requires
        planned(config, observations, r),
        r is Ok,
        config.wallpaper is Some ==> observations.wallpaper is Some,
    ensures
        r->Ok_0@.len() == (if config.appearance is Some {
            1int
        } else {
            0int
        }) + config.defaults@.len() + config.filesystem@.len() + (if config.wallpaper is Some {
            1int
        } else {
            0int
        }),
{
    defaults::lemma_plan_shape(config.defaults@, observations.exports@);
    filesystem::lemma_plan_length(
        config.filesystem@,
        observations.filesystem@,
        config.filesystem@.len(),
    );
    let a = appearance_changes(config, observations);
    assert(config.appearance is Some ==> a.len() == 1);
    assert(config.appearance is None ==> a.len() == 0);
    assert(defaults_changes(config, observations)->Ok_0.len() == config.defaults@.len());
    assert(filesystem_changes(config, observations)->Ok_0.len() == config.filesystem@.len());
    assert(config.wallpaper is Some ==> wallpaper_changes(config, observations)->Ok_0.len() == 1);
    assert(config.wallpaper is None ==> wallpaper_changes(config, observations)->Ok_0.len() == 0);
}

/// Whether a planned change is in place is what its own integration says:
/// the appearance and a filesystem path when the current state is the
/// configured one, a defaults setting and the wallpaper by their own rules.
pub proof fn lemma_applied_per_integration(change: PlannedChange)
    ensures
        change matches PlannedChange::Appearance(a) ==> (applied(change) <==> a.current
            == a.desired),
        change matches PlannedChange::Defaults(d) ==> (applied(change) <==> defaults::applied(d)),
        change matches PlannedChange::Filesystem(f) ==> (applied(change) <==> f.current
            == f.desired),
        change matches PlannedChange::Wallpaper(w) ==> (applied(change) <==> wallpaper::applied(w)),
{
}

} // verus!
