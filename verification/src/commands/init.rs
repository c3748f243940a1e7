//! `prefset init`: which starter config to write, and what to say.

use vstd::prelude::*;
use vstd::string::*;

use crate::args::InitCommand;
use crate::util::color::{colorize, colorized};

verus! {

/// The starter configurations.
#[derive(Clone, Copy, Debug, PartialEq, Eq, Structural)]
pub enum Template {
    Minimal,
    Full,
    Dave,
}

/// Why `init` refuses to run.
#[derive(Clone, Copy, Debug, PartialEq, Eq, Structural)]
pub enum InitError {
    /// A `--config` path other than the default was given.
    CustomConfigPath,
    /// The config file exists already.
    AlreadyExists,
}

/// The template that the options choose: `--full`, else `--dave`, else the
/// minimal one.
pub open spec fn template_of(cmd: InitCommand) -> Template {
    if cmd.full {
        Template::Full
    } else if cmd.dave {
        Template::Dave
    } else {
        Template::Minimal
    }
}

/// `prefset init ...`: only for the default config path, and never over an
/// existing config file.
pub fn run(is_default_path: bool, config_exists: bool, cmd: &InitCommand) -> (r: Result<
    Template,
    InitError,
>)
    ensures
        !is_default_path ==> r == Err::<Template, InitError>(InitError::CustomConfigPath),
        is_default_path && config_exists ==> r == Err::<Template, InitError>(
            InitError::AlreadyExists,
        ),
        is_default_path && !config_exists ==> r == Ok::<Template, InitError>(template_of(*cmd)),
{
    if !is_default_path {
        return Err(InitError::CustomConfigPath);
    }
    if config_exists {
        return Err(InitError::AlreadyExists);
    }
    if cmd.full {
        Ok(Template::Full)
    } else if cmd.dave {
        Ok(Template::Dave)
    } else {
        Ok(Template::Minimal)
    }
}

/// What `init` prints when the config file exists.
pub open spec fn exists_text(friendly_path: Seq<char>, color: bool) -> Seq<char> {
    colorized("config already exists:"@, "1;33"@, color) + " "@ + colorized(
        friendly_path,
        "36"@,
        color,
    ) + "\n\nif you really want to re-init the config then remove it and re-run this\ncommand.\n\n"@
}

/// What `init` prints when the config file exists.
pub fn exists_message(friendly_path: &str, color: bool) -> (r: String)
    ensures
        r@ == exists_text(friendly_path@, color),
{
    let status = colorize("config already exists:", "1;33", color);
    let path = colorize(friendly_path, "36", color);
    let r = status.concat(" ");
    let r = r.concat(path.as_str());
    r.concat(
        "\n\nif you really want to re-init the config then remove it and re-run this\ncommand.\n\n",
    )
}

/// What `init` prints once the config file is written.
pub open spec fn created_text(friendly_path: Seq<char>, color: bool) -> Seq<char> {
    "created: "@ + colorized(friendly_path, "36"@, color)
        + "\n\nlook over this file, modify it to your liking, then run:\n\n    "@ + colorized(
        "prefset apply --dry-run"@,
        "36"@,
        color,
    ) + "\n\nto get started.\n"@
}

/// What `init` prints once the config file is written.
pub fn created_message(friendly_path: &str, color: bool) -> (r: String)
    ensures
        r@ == created_text(friendly_path@, color),
{
    let path = colorize(friendly_path, "36", color);
    let apply = colorize("prefset apply --dry-run", "36", color);
    let r = String::from_str("created: ");
    let r = r.concat(path.as_str());
    let r = r.concat("\n\nlook over this file, modify it to your liking, then run:\n\n    ");
    let r = r.concat(apply.as_str());
    r.concat("\n\nto get started.\n")
}

} // verus!
