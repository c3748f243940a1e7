//! The subcommands: what each decides and prints.

pub mod apply;
pub mod check;
pub mod init;

use vstd::prelude::*;
use vstd::string::*;

use crate::util::color::{colorize, colorized};

verus! {

/// What the bare `prefset` command shows.
#[derive(Clone, Copy, Debug, PartialEq, Eq, Structural)]
pub enum BareAction {
    /// A config file exists: say so, then print the help.
    ShowHelp,
    /// No config file exists: show how to get started.
    ShowGettingStarted,
}

/// Why the bare command refuses to run.
#[derive(Clone, Copy, Debug, PartialEq, Eq, Structural)]
pub enum BareError {
    /// A `--config` path other than the default was given.
    CustomConfigPath,
}

/// `prefset` called with no arguments: only for the default config path;
/// help when the config exists, else how to get started.
pub fn run(is_default_path: bool, config_exists: bool) -> (r: Result<BareAction, BareError>)
    ensures
        !is_default_path ==> r == Err::<BareAction, BareError>(BareError::CustomConfigPath),
        is_default_path && config_exists ==> r == Ok::<BareAction, BareError>(BareAction::ShowHelp),
        is_default_path && !config_exists ==> r == Ok::<BareAction, BareError>(
            BareAction::ShowGettingStarted,
        ),
{
    if !is_default_path {
        return Err(BareError::CustomConfigPath);
    }
    if config_exists {
        Ok(BareAction::ShowHelp)
    } else {
        Ok(BareAction::ShowGettingStarted)
    }
}

/// The line printed above the help when a config file exists.
pub open spec fn found_text(friendly_path: Seq<char>, color: bool) -> Seq<char> {
    colorized("config file found:"@, "1;33"@, color) + " "@ + colorized(friendly_path, "36"@, color)
        + "\n"@
}

/// The line printed above the help when a config file exists.
pub fn found_message(friendly_path: &str, color: bool) -> (r: String)
    ensures
        r@ == found_text(friendly_path@, color),
{
    let status = colorize("config file found:", "1;33", color);
    let path = colorize(friendly_path, "36", color);
    let r = status.concat(" ");
    let r = r.concat(path.as_str());
    r.concat("\n")
}

/// How to get started, printed when no config file exists.
pub open spec fn getting_started_text(friendly_path: Seq<char>, color: bool) -> Seq<char> {
    "to get started, create and test a minimal config with:\n\n    "@ + colorized(
        "prefset init"@,
        "36"@,
        color,
    ) + "\n    "@ + colorized("$EDITOR "@ + friendly_path, "36"@, color) + "\n    "@ + colorized(
        "prefset apply --dry-run"@,
        "36"@,
        color,
    ) + "\n\nrun `prefset -h` or `prefset apply -h` to see more options\n"@
}

/// How to get started, printed when no config file exists.
pub fn getting_started(friendly_path: &str, color: bool) -> (r: String)
    ensures
        r@ == getting_started_text(friendly_path@, color),
{
    let init = colorize("prefset init", "36", color);
    let edit = String::from_str("$EDITOR ").concat(friendly_path);
    let edit = colorize(edit.as_str(), "36", color);
    let apply = colorize("prefset apply --dry-run", "36", color);
    let r = String::from_str("to get started, create and test a minimal config with:\n\n    ");
    let r = r.concat(init.as_str());
    let r = r.concat("\n    ");
    let r = r.concat(edit.as_str());
    let r = r.concat("\n    ");
    let r = r.concat(apply.as_str());
    r.concat("\n\nrun `prefset -h` or `prefset apply -h` to see more options\n")
}

} // verus!
