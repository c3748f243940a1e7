use prefset::args::{ApplyCommand, InitCommand};
use prefset::commands::apply::{self, RelaunchStep};
use prefset::commands::check::{self, Unsynced};
use prefset::commands::init::{self, InitError, Template};
use prefset::commands::{self, BareAction, BareError};
use prefset::integrations::appearance::{self, Mode};
use prefset::integrations::defaults::{Change, Setting, Value};
use prefset::integrations::{DisplayValue, PlannedChange};

fn dock(key: &str, value: Value, current: Option<Value>) -> PlannedChange {
    PlannedChange::Defaults(Change {
        setting: Setting { domain: "com.apple.dock".into(), key: key.into(), value },
        current,
    })
}

fn global(key: &str, value: Value, current: Option<Value>) -> PlannedChange {
    PlannedChange::Defaults(Change {
        setting: Setting { domain: "NSGlobalDomain".into(), key: key.into(), value },
        current,
    })
}

fn finder(key: &str, value: Value, current: Option<Value>) -> PlannedChange {
    PlannedChange::Defaults(Change {
        setting: Setting { domain: "com.apple.finder".into(), key: key.into(), value },
        current,
    })
}

fn readme_plan() -> Vec<PlannedChange> {
    vec![
        global("NSAutomaticSpellingCorrectionEnabled", Value::Boolean(false), Some(Value::Boolean(true))),
        global("KeyRepeat", Value::Integer(2), Some(Value::Integer(3))),
        dock("orientation", Value::String("left".into()), Some(Value::String("right".into()))),
        dock("autohide", Value::Boolean(true), Some(Value::Boolean(false))),
        finder("ShowStatusBar", Value::Boolean(true), Some(Value::Boolean(false))),
    ]
}

#[test]
fn apply_prints_the_readme_run() {
    let plan = readme_plan();
    let steps = apply::steps(&plan, &ApplyCommand::default(), false);
    let mut out = Vec::new();
    for step in &steps {
        out.extend(step.header.iter().cloned());
        out.push(step.line.clone());
    }
    assert_eq!(
        out,
        vec![
            "[defaults.NSGlobalDomain]",
            "    \u{2192} NSAutomaticSpellingCorrectionEnabled: true -> false",
            "    \u{2192} KeyRepeat: 3 -> 2",
            "",
            "[defaults.\"com.apple.dock\"]",
            "    \u{2192} orientation: \"right\" -> \"left\"",
            "    \u{2192} autohide: false -> true",
            "",
            "[defaults.\"com.apple.finder\"]",
            "    \u{2192} ShowStatusBar: false -> true",
        ]
    );
    assert!(steps.iter().all(|s| s.apply && s.write && !s.show_operation));
    assert_eq!(apply::changed_count(&plan, false), 5);
    assert_eq!(apply::summary_line(5, 5, false), "- updated 5/5 preferences");
    let relaunch = apply::relaunch_list(&plan, false);
    assert_eq!(relaunch, vec!["Dock", "Finder"]);
    assert_eq!(apply::relaunch_notice(&relaunch, false),
        "\n----------------------------------------\n\n2 process(es) need to relaunch: Dock, Finder");
    assert_eq!(apply::relaunch_command(&relaunch), "/usr/bin/killall Dock Finder");
}

#[test]
fn apply_second_run_changes_nothing() {
    let plan = vec![
        global("KeyRepeat", Value::Integer(2), Some(Value::Integer(2))),
        dock("orientation", Value::String("left".into()), Some(Value::String("left".into()))),
    ];
    let steps = apply::steps(&plan, &ApplyCommand::default(), false);
    assert_eq!(steps[0].line, "    \u{2713} KeyRepeat = 2");
    assert_eq!(steps[1].line, "    \u{2713} orientation = \"left\"");
    assert!(steps.iter().all(|s| !s.apply));
    assert_eq!(apply::changed_count(&plan, false), 0);
    assert_eq!(apply::summary_line(0, 2, false), "- updated 0/2 preferences");
    assert!(apply::relaunch_list(&plan, false).is_empty());
    assert!(matches!(check::run(&plan), Ok(2)));
}

#[test]
fn force_rewrites_everything() {
    let plan = vec![dock("autohide", Value::Boolean(true), Some(Value::Boolean(true)))];
    let steps = apply::steps(&plan, &ApplyCommand { force: true, ..Default::default() }, false);
    assert_eq!(steps[0].line, "    o autohide = true");
    assert!(steps[0].apply);
    assert_eq!(apply::changed_count(&plan, true), 1);
    assert_eq!(apply::relaunch_list(&plan, true), vec!["Dock"]);
}

#[test]
fn dry_run_writes_nothing() {
    let plan = readme_plan();
    let cmd = ApplyCommand { dry_run: true, verbose: true, ..Default::default() };
    let steps = apply::steps(&plan, &cmd, false);
    assert!(steps.iter().all(|s| s.apply && !s.write && s.show_operation));
}

#[test]
fn colored_lines() {
    let plan = vec![global("KeyRepeat", Value::Integer(2), None)];
    let steps = apply::steps(&plan, &ApplyCommand::default(), true);
    assert_eq!(steps[0].header, vec!["[\x1b[36mdefaults.NSGlobalDomain\x1b[0m]"]);
    assert_eq!(
        steps[0].line,
        "    \x1b[33m\u{2192}\x1b[0m KeyRepeat: \x1b[2m<unset>\x1b[0m -> \x1b[36m2\x1b[0m"
    );
    assert_eq!(apply::styled_value(&DisplayValue::Boolean(true), true), "\x1b[35mtrue\x1b[0m");
    assert_eq!(apply::styled_value(&DisplayValue::String("x".into()), true), "\x1b[32m\"x\"\x1b[0m");
    assert_eq!(apply::done_line(true), "\x1b[32m\u{2713}\x1b[0m done");
    assert_eq!(apply::done_line(false), "\u{2713} done");
}

#[test]
fn appearance_change_line() {
    let plan = vec![PlannedChange::Appearance(appearance::Change { desired: Mode::Dark, current: Mode::Light })];
    let steps = apply::steps(&plan, &ApplyCommand::default(), false);
    assert_eq!(steps[0].header, vec!["[appearance]"]);
    assert_eq!(steps[0].line, "    \u{2192} mode: \"light\" -> \"dark\"");
}

#[test]
fn operation_and_summary_lines() {
    assert_eq!(apply::operation_line("killall Dock", false, true), "        [SKIPPED] killall Dock\n");
    assert_eq!(apply::operation_line("killall Dock", false, false), "        [RUN] killall Dock\n");
    assert_eq!(apply::summary_line(3, 5, true), "- updated 3/5 preferences (dry-run, nothing done)");
    assert_eq!(apply::join_names(&vec!["Dock".to_string()]), "Dock");
    assert_eq!(apply::join_names(&vec![]), "");
}

#[test]
fn relaunch_decisions() {
    let cmd = |relaunch, no_relaunch, dry_run| ApplyCommand { relaunch, no_relaunch, dry_run, ..Default::default() };
    assert_eq!(apply::relaunch_step(&cmd(false, true, false), true), RelaunchStep::SkipRequested);
    assert_eq!(apply::relaunch_step(&cmd(false, false, false), false), RelaunchStep::SkipNotTerminal);
    assert_eq!(apply::relaunch_step(&cmd(true, false, false), false), RelaunchStep::Proceed);
    assert_eq!(apply::relaunch_step(&cmd(false, false, true), true), RelaunchStep::PromptAssumeNo);
    assert_eq!(apply::relaunch_step(&cmd(false, false, false), true), RelaunchStep::Prompt);
    assert_eq!(apply::relaunch_step(&cmd(true, false, true), true), RelaunchStep::Proceed);
    assert_eq!(apply::skip_requested_message(false), "skipping relaunch - `--no-relaunch` given");
    assert_eq!(apply::assumed_no_message(false), "(assuming no - `--dry-run` is given)");
    assert_eq!(
        apply::prompt_message(&vec!["Dock".to_string(), "Finder".to_string()], false),
        "\n> relaunching the services helps these changes take effect.\n> this will not log you out, but affected UI may briefly disappear.\n> will run: /usr/bin/killall Dock Finder\n"
    );
}

#[test]
fn affirmative_answers() {
    assert!(apply::is_affirmative("y\n"));
    assert!(apply::is_affirmative("  YES \n"));
    assert!(apply::is_affirmative("Yes"));
    assert!(!apply::is_affirmative("n\n"));
    assert!(!apply::is_affirmative(""));
    assert!(!apply::is_affirmative("yes please"));
}

#[test]
fn check_counts_unsynced() {
    let plan = readme_plan();
    assert_eq!(check::run(&plan).err(), Some(Unsynced { differences: 5, total: 5 }));
    assert!(matches!(check::run(&vec![]), Ok(0)));
}

#[test]
fn bare_command() {
    assert_eq!(commands::run(false, true), Err(BareError::CustomConfigPath));
    assert_eq!(commands::run(true, true), Ok(BareAction::ShowHelp));
    assert_eq!(commands::run(true, false), Ok(BareAction::ShowGettingStarted));
    assert_eq!(
        commands::getting_started("~/.config/prefset/config.toml", false),
        "to get started, create and test a minimal config with:\n\n    prefset init\n    $EDITOR ~/.config/prefset/config.toml\n    prefset apply --dry-run\n\nrun `prefset -h` or `prefset apply -h` to see more options\n"
    );
    assert_eq!(commands::found_message("~/x", false), "config file found: ~/x\n");
}

#[test]
fn init_command() {
    let cmd = InitCommand::default();
    assert_eq!(init::run(false, false, &cmd), Err(InitError::CustomConfigPath));
    assert_eq!(init::run(true, true, &cmd), Err(InitError::AlreadyExists));
    assert_eq!(init::run(true, false, &cmd), Ok(Template::Minimal));
    assert_eq!(init::run(true, false, &InitCommand { full: true, ..cmd }), Ok(Template::Full));
    assert_eq!(init::run(true, false, &InitCommand { dave: true, ..cmd }), Ok(Template::Dave));
    assert_eq!(
        init::created_message("~/.config/prefset/config.toml", false),
        "created: ~/.config/prefset/config.toml\n\nlook over this file, modify it to your liking, then run:\n\n    prefset apply --dry-run\n\nto get started.\n"
    );
    assert_eq!(
        init::exists_message("~/c", false),
        "config already exists: ~/c\n\nif you really want to re-init the config then remove it and re-run this\ncommand.\n\n"
    );
}

#[test]
fn check_and_apply_agree() {
    let mut plan = readme_plan();
    plan.push(global("KeyRepeat", Value::Integer(2), Some(Value::Integer(2))));
    let changed = apply::changed_count(&plan, false);
    assert_eq!(changed, 5);
    assert_eq!(check::run(&plan).err(), Some(Unsynced { differences: changed, total: 6 }));
    assert_eq!(apply::changed_count(&plan, true), plan.len());
}

fn readme_plan_in_place() -> Vec<PlannedChange> {
    vec![
        global("NSAutomaticSpellingCorrectionEnabled", Value::Boolean(false), Some(Value::Boolean(false))),
        global("KeyRepeat", Value::Integer(2), Some(Value::Integer(2))),
        dock("orientation", Value::String("left".into()), Some(Value::String("left".into()))),
        dock("autohide", Value::Boolean(true), Some(Value::Boolean(true))),
        finder("ShowStatusBar", Value::Boolean(true), Some(Value::Boolean(true))),
    ]
}

#[test]
fn second_run_changes_nothing() {
    let plan = readme_plan_in_place();
    let cmd = ApplyCommand::default();
    let steps = apply::steps(&plan, &cmd, false);
    assert!(steps.iter().all(|s| !s.apply && !s.write && !s.show_operation));
    assert_eq!(apply::changed_count(&plan, cmd.force), 0);
    assert!(apply::relaunch_list(&plan, cmd.force).is_empty());
    assert_eq!(apply::summary_line(0, plan.len(), cmd.dry_run), "- updated 0/5 preferences");
    assert_eq!(check::run(&plan), Ok(5));
}

#[test]
fn dry_run_never_runs_killall() {
    let cmd = |relaunch, dry_run| ApplyCommand { relaunch, dry_run, ..Default::default() };
    assert!(!apply::relaunch_runs(&cmd(true, true)));
    assert!(!apply::relaunch_runs(&cmd(false, true)));
    assert!(apply::relaunch_runs(&cmd(true, false)));
    assert!(apply::relaunch_runs(&cmd(false, false)));
    assert_ne!(apply::relaunch_step(&cmd(false, true), true), RelaunchStep::Prompt);
    assert_ne!(apply::relaunch_step(&cmd(false, true), false), RelaunchStep::Prompt);
}

#[test]
fn relaunch_texts() {
    let names = vec!["Dock".to_string(), "Finder".to_string()];
    assert_eq!(apply::not_terminal_message(), "skipping relaunch - input/output is not a TTY");
    assert_eq!(apply::prompt_question(), "relaunch services now? [y/N]: ");
    assert_eq!(apply::assumed_answer(), "n");
    assert_eq!(apply::declined_message(), "not relaunching...");
    assert_eq!(apply::relaunched_message(&names), "relaunched Dock, Finder");
    assert_eq!(apply::relaunch_failure(&names), "could not relaunch Dock, Finder");
    assert_eq!(
        apply::closing_note(),
        "\n> note that some changes may not take affect until the user\n> logs out and logs back in."
    );
    assert_eq!(apply::KILLALL_CMD, "/usr/bin/killall");
}

#[test]
fn check_texts() {
    assert_eq!(
        check::unsynced_message(Unsynced { differences: 3, total: 12 }),
        "3/12 preferences not synced"
    );
    assert_eq!(check::synced_message(12), "all preferences synced (12 total)");
    assert_eq!(check::synced_message(0), "all preferences synced (0 total)");
}
