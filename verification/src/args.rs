//! The command line of `prefset`, as plain values.

use vstd::prelude::*;

verus! {

/// The parsed command line.
#[derive(Debug)]
pub struct Cli {
    /// Config file
    pub config: String,
    pub command: Option<Command>,
}

/// The subcommands.
#[derive(Debug)]
pub enum Command {
    /// Create a starter config file
    Init(InitCommand),
    /// Exit successfully if all configured preferences are set
    Check(CheckCommand),
    /// Apply configured preferences
    Apply(ApplyCommand),
    /// Print an equivalent standalone shell script
    Export(ExportCommand),
}

/// `prefset init` options.
#[derive(Clone, Copy, Debug, Default, PartialEq, Eq, Structural)]
pub struct InitCommand {
    /// Create a minimal starter configuration (default)
    pub minimal: bool,
    /// Create a comprehensive example configuration
    pub full: bool,
    /// Create Dave's opinionated configuration
    pub dave: bool,
}

/// `prefset check` options.
#[derive(Clone, Copy, Debug, Default, PartialEq, Eq, Structural)]
pub struct CheckCommand {}

/// `prefset apply` options.
#[derive(Clone, Copy, Debug, Default, PartialEq, Eq, Structural)]
pub struct ApplyCommand {
    /// Show changes without writing them
    pub dry_run: bool,
    /// Increase verbosity (shows commands being executed)
    pub verbose: bool,
    /// Always write preferences regardless if they are already set
    pub force: bool,
    /// Restart affected macOS processes without prompting
    pub relaunch: bool,
    /// Do not relaunch affected macOS processes or prompt
    pub no_relaunch: bool,
}

/// `prefset export` options.
#[derive(Clone, Copy, Debug, Default, PartialEq, Eq, Structural)]
pub struct ExportCommand {}

/// CLI app config / state
#[derive(Debug)]
pub struct State {
    pub color_enabled: bool,
    pub config_path: String,
}

/// Whether output is colored: standard output is a terminal, `NO_COLOR` is
/// unset, and `TERM` is not `dumb`.
pub fn color_enabled(stdout_is_terminal: bool, no_color_set: bool, term: Option<&str>) -> (r: bool)
    ensures
        r == (stdout_is_terminal && !no_color_set && !(term matches Some(t) && t@ == "dumb"@)),
{
    let dumb = match term {
        Some(t) => crate::util::text::same_text(t, "dumb"),
        None => false,
    };
    stdout_is_terminal && !no_color_set && !dumb
}

} // verus!
