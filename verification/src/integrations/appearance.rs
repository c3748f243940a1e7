//! The macOS system appearance, read and set through System Events.

use vstd::prelude::*;
use vstd::string::*;

use crate::document::{find_key, find_other_key, first_other_key, lookup, TomlValue};
use crate::integrations::defaults::DomainError;
use crate::integrations::{DisplayValue, IntegrationChange};
use crate::util::shell::{quote, quoted};
use crate::util::text::{
    bool_text, chars_of, debug_quote, debug_str, same_text, string_of, trim, trim_chars,
};

verus! {

/// The path of `osascript(1)`.
pub const OSASCRIPT_CMD: &'static str = "/usr/bin/osascript";

/// The script that asks whether dark mode is on.
pub const READ_SCRIPT: &'static str =
    "Application(\"System Events\").appearancePreferences.darkMode()";

/// The configured system appearance
#[derive(Clone, Copy, Debug, PartialEq, Eq, Structural)]
pub enum Mode {
    Light,
    Dark,
}

/// The name of a mode, as the configuration writes it.
pub open spec fn mode_name(mode: Mode) -> Seq<char> {
    match mode {
        Mode::Light => "light"@,
        Mode::Dark => "dark"@,
    }
}

impl Mode {
    /// Whether the mode is dark.
    pub fn dark_mode(self) -> (r: bool)
        ensures
            r == (self == Mode::Dark),
    {
        match self {
            Mode::Light => false,
            Mode::Dark => true,
        }
    }

    /// The name of the mode: `light` or `dark`.
    pub fn name(&self) -> (r: &'static str)
        ensures
            r@ == mode_name(*self),
    {
        match self {
            Mode::Light => "light",
            Mode::Dark => "dark",
        }
    }
}

/// The config below the top-level `appearance` key.
#[derive(Clone, Copy, Debug, PartialEq, Eq, Structural)]
pub struct Setting {
    pub mode: Mode,
}

/// A planned system appearance change.
#[derive(Clone, Copy, Debug, PartialEq, Eq, Structural)]
pub struct Change {
    pub desired: Mode,
    pub current: Mode,
}

/// Why the `appearance` part of the configuration is refused.
#[derive(Debug)]
pub enum ParseError {
    /// `appearance` is not a table.
    NotTable,
    /// A key other than `mode`.
    UnsupportedKey(String),
    /// No `mode` key.
    MissingMode,
    /// `mode` is not a string.
    ModeNotString,
    /// `mode` is neither `light` nor `dark`.
    InvalidMode,
}

/// The setting that the value below `appearance` gives.
pub open spec fn setting_of(value: TomlValue) -> Result<Setting, ParseError> {
    match value {
        TomlValue::Table(t) => match first_other_key(t.entries@, "mode"@) {
            Some(key) => Err(ParseError::UnsupportedKey(key)),
            None => match lookup(t.entries@, "mode"@) {
                None => Err(ParseError::MissingMode),
                Some(TomlValue::String(s)) => if s@ == "light"@ {
                    Ok(Setting { mode: Mode::Light })
                } else if s@ == "dark"@ {
                    Ok(Setting { mode: Mode::Dark })
                } else {
                    Err(ParseError::InvalidMode)
                },
                Some(_) => Err(ParseError::ModeNotString),
            },
        },
        _ => Err(ParseError::NotTable),
    }
}

/// Parse the value below the top-level `appearance` key.
pub fn parse(value: &TomlValue) -> (r: Result<Setting, ParseError>)
    ensures
        r == setting_of(*value),
{
    let table = match value {
        TomlValue::Table(t) => t,
        _ => {
            return Err(ParseError::NotTable);
        },
    };
    if let Some(key) = find_other_key(&table.entries, "mode") {
        return Err(ParseError::UnsupportedKey(key));
    }
    let i = match find_key(&table.entries, "mode") {
        Some(i) => i,
        None => {
            return Err(ParseError::MissingMode);
        },
    };
    match &table.entries[i].1 {
        TomlValue::String(s) => {
            if same_text(s.as_str(), "light") {
                Ok(Setting { mode: Mode::Light })
            } else if same_text(s.as_str(), "dark") {
                Ok(Setting { mode: Mode::Dark })
            } else {
                Err(ParseError::InvalidMode)
            }
        },
        _ => Err(ParseError::ModeNotString),
    }
}

/// Why the current appearance could not be read.
#[derive(Debug)]
pub enum PlanError {
    /// Running the script failed.
    ReadFailed(String),
    /// The script answered something other than `true` or `false`.
    InvalidOutput(String),
}

/// The change that the answer of [`READ_SCRIPT`] gives: `true` means dark,
/// `false` light, white space around the answer aside.
pub open spec fn change_of(setting: Setting, output: Seq<char>) -> Result<Change, Seq<char>> {
    if trim(output) == "true"@ {
        Ok(Change { desired: setting.mode, current: Mode::Dark })
    } else if trim(output) == "false"@ {
        Ok(Change { desired: setting.mode, current: Mode::Light })
    } else {
        Err(trim(output))
    }
}

/// Whether `r` is the plan for `setting` when running [`READ_SCRIPT`] gave
/// `observed`: a failed run, an answer other than `true` or `false` (given
/// back trimmed), or the change.
pub open spec fn planned(
    setting: Setting,
    observed: Result<String, String>,
    r: Result<Change, PlanError>,
) -> bool {
    match observed {
        Err(message) => r == Err::<Change, PlanError>(PlanError::ReadFailed(message)),
        Ok(output) => match change_of(setting, output@) {
            Ok(change) => r == Ok::<Change, PlanError>(change),
            Err(answer) => r matches Err(PlanError::InvalidOutput(text)) && text@ == answer,
        },
    }
}

/// Read current state and build an owned reconciliation plan, from what
/// running [`READ_SCRIPT`] gave.
pub fn plan(setting: &Setting, observed: &Result<String, String>) -> (r: Result<Change, PlanError>)
    ensures
        planned(*setting, *observed, r),
{
    let output = match observed {
        Err(message) => {
            return Err(PlanError::ReadFailed(message.clone()));
        },
        Ok(output) => output,
    };
    let cs = chars_of(output.as_str());
    let trimmed = trim_chars(&cs);
    let answer = string_of(trimmed.as_slice());
    if same_text(answer.as_str(), "true") {
        Ok(Change { desired: setting.mode, current: Mode::Dark })
    } else if same_text(answer.as_str(), "false") {
        Ok(Change { desired: setting.mode, current: Mode::Light })
    } else {
        Err(PlanError::InvalidOutput(answer))
    }
}

/// The script that sets the appearance to `mode`.
pub open spec fn script_text(mode: Mode) -> Seq<char> {
    "Application(\"System Events\").appearancePreferences.darkMode = "@ + bool_text(
        mode == Mode::Dark,
    )
}

/// Create the javascript script to run
pub fn write_script(mode: Mode) -> (r: String)
    ensures
        r@ == script_text(mode),
{
    let r = String::from_str("Application(\"System Events\").appearancePreferences.darkMode = ");
    if mode.dark_mode() {
        r.concat("true")
    } else {
        r.concat("false")
    }
}

/// The shell command that runs a script, for display.
pub open spec fn command_text(script: Seq<char>) -> Seq<char> {
    OSASCRIPT_CMD@ + " -l JavaScript -e "@ + quoted(script)
}

/// Write the command needed to enforce this - used only for display
pub fn write_command(script: &str) -> (r: String)
    ensures
        r@ == command_text(script@),
{
    let r = String::from_str(OSASCRIPT_CMD);
    let r = r.concat(" -l JavaScript -e ");
    let quoted_script = quote(script);
    r.concat(quoted_script.as_str())
}

/// The arguments to `osascript` that run a script as JavaScript.
pub fn javascript_arguments(script: &str) -> (r: Vec<String>)
    ensures
        r@.map_values(|s: String| s@) == seq!["-l"@, "JavaScript"@, "-e"@, script@],
{
    let mut r: Vec<String> = Vec::new();
    r.push(String::from_str("-l"));
    r.push(String::from_str("JavaScript"));
    r.push(String::from_str("-e"));
    r.push(script.to_owned());
    assert(r@.map_values(|s: String| s@) =~= seq!["-l"@, "JavaScript"@, "-e"@, script@]);
    r
}

impl Change {
    /// The script that makes the change.
    pub fn script(&self) -> (r: String)
        ensures
            r@ == script_text(self.desired),
    {
        write_script(self.desired)
    }
}

impl IntegrationChange for Change {
    /// The section that the change is printed under.
    fn section(&self) -> (r: String)
        ensures
            r@ == "appearance"@,
    {
        String::from_str("appearance")
    }

    /// The key that the change sets.
    fn key(&self) -> (r: &str)
        ensures
            r@ == "mode"@,
    {
        "mode"
    }

    /// The current mode, for presentation.
    fn current(&self) -> (r: DisplayValue)
        ensures
            r matches DisplayValue::String(s) && s@ == mode_name(self.current),
    {
        DisplayValue::String(String::from_str(self.current.name()))
    }

    /// The configured mode, for presentation.
    fn desired(&self) -> (r: DisplayValue)
        ensures
            r matches DisplayValue::String(s) && s@ == mode_name(self.desired),
    {
        DisplayValue::String(String::from_str(self.desired.name()))
    }

    /// Whether the system already has the configured mode.
    fn is_applied(&self) -> (r: bool)
        ensures
            r == (self.current == self.desired),
    {
        self.current == self.desired
    }

    /// The shell command that makes the change.
    fn operation_hint(&self) -> (r: Result<String, DomainError>)
        ensures
            r matches Ok(text) && text@ == command_text(script_text(self.desired)),
    {
        Ok({
            let script = write_script(self.desired);
            write_command(script.as_str())
        })
    }

    /// The processes to relaunch once the change is made: none.
    fn relaunches(&self) -> (r: Vec<String>)
        ensures
            r@.len() == 0,
    {
        Vec::new()
    }
}


/// What a refused `appearance` configuration is told.
pub open spec fn parse_error_text(error: ParseError) -> Seq<char> {
    match error {
        ParseError::NotTable => "appearance must be a table"@,
        ParseError::UnsupportedKey(key) => "appearance."@ + key@ + " is unsupported"@,
        ParseError::MissingMode => "appearance.mode is required"@,
        ParseError::ModeNotString => "appearance.mode must be a string"@,
        ParseError::InvalidMode => "appearance.mode must be \"light\" or \"dark\""@,
    }
}

impl ParseError {
    /// What a refused `appearance` configuration is told.
    pub fn message(&self) -> (r: String)
        ensures
            r@ == parse_error_text(*self),
    {
        match self {
            ParseError::NotTable => String::from_str("appearance must be a table"),
            ParseError::UnsupportedKey(key) => String::from_str("appearance.").concat(
                key.as_str(),
            ).concat(" is unsupported"),
            ParseError::MissingMode => String::from_str("appearance.mode is required"),
            ParseError::ModeNotString => String::from_str("appearance.mode must be a string"),
            ParseError::InvalidMode => String::from_str(
                "appearance.mode must be \"light\" or \"dark\"",
            ),
        }
    }
}

/// What a failed appearance plan is told.
pub open spec fn plan_error_text(error: PlanError) -> Seq<char> {
    match error {
        PlanError::ReadFailed(_) => "could not read system appearance"@,
        PlanError::InvalidOutput(answer) => "osascript returned an invalid dark mode value: "@
            + debug_str(answer@),
    }
}

impl PlanError {
    /// What a failed appearance plan is told.
    pub fn message(&self) -> (r: String)
        ensures
            r@ == plan_error_text(*self),
    {
        match self {
            PlanError::ReadFailed(_) => String::from_str("could not read system appearance"),
            PlanError::InvalidOutput(answer) => String::from_str(
                "osascript returned an invalid dark mode value: ",
            ).concat(debug_quote(answer.as_str()).as_str()),
        }
    }

    /// Why reading failed, below the message.
    pub fn cause(&self) -> (r: Option<String>)
        ensures
            match *self {
                PlanError::ReadFailed(m) => r == Some(m),
                _ => r is None,
            },
    {
        match self {
            PlanError::ReadFailed(m) => Some(m.clone()),
            _ => None,
        }
    }
}

} // verus!
