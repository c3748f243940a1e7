use prefset::config::Config;
use prefset::integrations::appearance::{self, Mode};
use prefset::integrations::defaults::{
    self, Change, DomainContents, DomainExport, ExportFailure, PlanError, PlistValue, Setting, Value,
};
use prefset::integrations::filesystem::{self, UF_HIDDEN};
use prefset::integrations::wallpaper;
use prefset::integrations::{
    self as integ, DisplayValue, IntegrationChange, Location, Observations, PlannedChange,
};
use prefset::number::Real;

fn number(value: f64) -> Real {
    Real { bits: value.to_bits(), text: value.to_string() }
}

fn setting(domain: &str, key: &str, value: Value) -> Setting {
    Setting { domain: domain.into(), key: key.into(), value }
}

fn export(domain: &str, entries: Vec<(&str, PlistValue)>) -> DomainExport {
    DomainExport {
        domain: domain.into(),
        contents: Ok(DomainContents {
            entries: entries.into_iter().map(|(k, v)| (k.to_string(), v)).collect(),
        }),
    }
}

fn location(path: &str, friendly: &str) -> Location {
    Location { path: path.into(), friendly: friendly.into() }
}

#[test]
fn export_order_names_each_domain_once() {
    let settings = vec![
        setting("b", "x", Value::Integer(1)),
        setting("a", "y", Value::Integer(1)),
        setting("b", "z", Value::Integer(1)),
    ];
    assert_eq!(defaults::export_order(&settings), vec!["b".to_string(), "a".to_string()]);
}

#[test]
fn defaults_plan_reads_current_values() {
    let settings = vec![
        setting("com.apple.dock", "autohide", Value::Boolean(true)),
        setting("com.apple.dock", "tilesize", Value::Integer(48)),
        setting("NSGlobalDomain", "KeyRepeat", Value::Integer(2)),
    ];
    let exports = vec![
        export("com.apple.dock", vec![("autohide", PlistValue::Boolean(false)), ("tilesize", PlistValue::Integer(Some(48)))]),
        export("NSGlobalDomain", vec![]),
    ];
    let plan = defaults::plan(&settings, &exports).ok().unwrap();
    assert_eq!(plan.len(), 3);
    assert!(!plan[0].is_applied());
    assert!(plan[1].is_applied());
    assert!(!plan[2].is_applied());
    assert_eq!(plan[0].describe(), "com.apple.dock.autohide: false -> true");
    assert_eq!(plan[2].describe(), "NSGlobalDomain.KeyRepeat: (unset) -> 2");
    let diff = defaults::diff(&settings, &exports).ok().unwrap();
    assert_eq!(diff.len(), 2);
    assert_eq!(diff[0].setting.key, "autohide");
    assert_eq!(diff[1].setting.key, "KeyRepeat");
}

#[test]
fn defaults_plan_reports_first_failure() {
    let settings = vec![
        setting("a", "x", Value::Integer(1)),
        setting("b", "y", Value::Integer(1)),
    ];
    let exports = vec![
        export("a", vec![]),
        DomainExport { domain: "b".into(), contents: Err(ExportFailure { message: "defaults could not export domain \"b\": boom".into(), cause: None }) },
    ];
    match defaults::plan(&settings, &exports) {
        Err(e @ PlanError::ExportFailed { .. }) => assert_eq!(e.message(), "defaults could not export domain \"b\": boom"),
        _ => panic!("expected an export failure"),
    }
    let settings = vec![setting("a/b", "x", Value::Integer(1))];
    assert!(matches!(defaults::plan(&settings, &vec![]), Err(PlanError::InvalidDomain { .. })));
    let settings = vec![setting("c", "x", Value::Integer(1))];
    assert!(matches!(defaults::plan(&settings, &vec![]), Err(PlanError::NotExported { .. })));
}

#[test]
fn plist_values_map_to_defaults_values() {
    assert!(matches!(defaults::value_from_plist(&PlistValue::Boolean(true)), Some(Value::Boolean(true))));
    assert!(matches!(defaults::value_from_plist(&PlistValue::Integer(Some(5))), Some(Value::Integer(5))));
    assert!(defaults::value_from_plist(&PlistValue::Integer(None)).is_none());
    assert!(matches!(defaults::value_from_plist(&PlistValue::Real(number(0.5))), Some(Value::Float(r)) if r.text == "0.5"));
    assert!(matches!(defaults::value_from_plist(&PlistValue::String("s".into())), Some(Value::String(s)) if s == "s"));
    assert!(defaults::value_from_plist(&PlistValue::Other).is_none());
}

#[test]
fn float_values_compare_as_numbers() {
    assert!(Value::Float(number(0.0)).equals(&Value::Float(number(-0.0))));
    assert!(Value::Float(number(1.5)).equals(&Value::Float(number(1.5))));
    assert!(!Value::Float(number(f64::NAN)).equals(&Value::Float(number(f64::NAN))));
    assert!(!Value::Integer(1).equals(&Value::Float(number(1.0))));
    assert!(number(2.0).is_finite());
    assert!(!number(f64::NEG_INFINITY).is_finite());
}

#[test]
fn write_command_quotes_every_word() {
    let s = setting("com.apple.dock", "orientation", Value::String("left side".into()));
    assert_eq!(
        defaults::write_command(&s).ok().unwrap(),
        "/usr/bin/defaults write com.apple.dock orientation -string 'left side'"
    );
    let s = setting("NSGlobalDomain", "KeyRepeat", Value::Integer(2));
    assert_eq!(defaults::write_command(&s).ok().unwrap(), "/usr/bin/defaults write NSGlobalDomain KeyRepeat -int 2");
    let s = setting("-bad", "k", Value::Boolean(true));
    assert_eq!(defaults::write_command(&s).err().unwrap(), defaults::DomainError::LeadingDash);
    let s = setting("d", "k", Value::Boolean(false));
    assert_eq!(defaults::write_arguments(&s).ok().unwrap(), vec!["write", "d", "k", "-bool", "false"]);
    assert_eq!(defaults::export_arguments("d").ok().unwrap(), vec!["export", "d", "-"]);
}

#[test]
fn value_text_and_types() {
    assert_eq!(Value::Boolean(true).defaults_type(), "-bool");
    assert_eq!(Value::Integer(1).defaults_type(), "-int");
    assert_eq!(Value::Float(number(1.0)).defaults_type(), "-float");
    assert_eq!(Value::String("x".into()).defaults_type(), "-string");
    assert_eq!(Value::String("a\"b".into()).to_text(), "\"a\\\"b\"");
    assert_eq!(Value::String("a\"b".into()).argument(), "a\"b");
    assert_eq!(Value::Integer(-5).to_text(), "-5");
}

#[test]
fn sections_are_quoted_unless_bare() {
    assert_eq!(defaults::section("NSGlobalDomain"), "defaults.NSGlobalDomain");
    assert_eq!(defaults::section("com.apple.dock"), "defaults.\"com.apple.dock\"");
    assert_eq!(defaults::section("my-domain_2"), "defaults.my-domain_2");
}

#[test]
fn dock_and_finder_changes_relaunch_them() {
    assert_eq!(defaults::relaunches("com.apple.dock"), vec!["Dock"]);
    assert_eq!(defaults::relaunches("com.apple.finder"), vec!["Finder"]);
    assert!(defaults::relaunches("NSGlobalDomain").is_empty());
}

#[test]
fn appearance_reads_dark_mode_answer() {
    let s = appearance::Setting { mode: Mode::Dark };
    let c = appearance::plan(&s, &Ok(" true\n".into())).ok().unwrap();
    assert_eq!(c.current, Mode::Dark);
    assert!(c.is_applied());
    let c = appearance::plan(&s, &Ok("false\n".into())).ok().unwrap();
    assert_eq!(c.current, Mode::Light);
    assert!(!c.is_applied());
    match appearance::plan(&s, &Ok(" maybe \n".into())) {
        Err(e @ appearance::PlanError::InvalidOutput(_)) => {
            assert_eq!(e.message(), "osascript returned an invalid dark mode value: \"maybe\"")
        }
        _ => panic!("expected an invalid answer"),
    }
    match appearance::plan(&s, &Err("osascript failed".into())) {
        Err(e) => {
            assert_eq!(e.message(), "could not read system appearance");
            assert_eq!(e.cause().unwrap(), "osascript failed");
        }
        _ => panic!("expected a read failure"),
    }
}

#[test]
fn appearance_script_and_hint() {
    assert_eq!(
        appearance::write_script(Mode::Dark),
        "Application(\"System Events\").appearancePreferences.darkMode = true"
    );
    let c = appearance::Change { desired: Mode::Light, current: Mode::Dark };
    assert_eq!(
        c.operation_hint().unwrap(),
        "/usr/bin/osascript -l JavaScript -e 'Application(\"System Events\").appearancePreferences.darkMode = false'"
    );
    assert!(matches!(c.current(), DisplayValue::String(s) if s == "dark"));
    assert!(matches!(c.desired(), DisplayValue::String(s) if s == "light"));
    assert_eq!(Mode::Dark.name(), "dark");
    assert!(Mode::Dark.dark_mode());
    assert!(!Mode::Light.dark_mode());
    assert_eq!(appearance::javascript_arguments("x"), vec!["-l", "JavaScript", "-e", "x"]);
}

#[test]
fn hidden_flag_is_set_and_cleared() {
    let flags = 0x0000_0041u32;
    let hidden = filesystem::hidden_flags(flags, true);
    assert_eq!(hidden, flags | UF_HIDDEN);
    assert!(filesystem::is_hidden(hidden));
    let shown = filesystem::hidden_flags(hidden, false);
    assert_eq!(shown, flags);
    assert!(!filesystem::is_hidden(shown));
}

#[test]
fn filesystem_plan_checks_paths() {
    let settings = vec![filesystem::Setting { path: "~/Library".into(), hidden: false }];
    let ok = vec![filesystem::Observation { expanded: Ok(location("/Users/d/Library", "~/Library")), flags: Ok(UF_HIDDEN) }];
    let plan = filesystem::plan(&settings, ok).ok().unwrap();
    assert!(plan[0].current);
    assert!(!plan[0].is_applied());
    assert_eq!(plan[0].section(), "filesystem.\"~/Library\"");
    assert_eq!(plan[0].operation_hint().unwrap(), "lchflags(3) nohidden /Users/d/Library");
    let relative = vec![filesystem::Observation { expanded: Ok(location("Library", "Library")), flags: Err("x".into()) }];
    match filesystem::plan(&settings, relative) {
        Err(e) => assert_eq!(e.message(), "filesystem path must be absolute or begin with '~': ~/Library"),
        _ => panic!("expected a relative path to be refused"),
    }
}

#[test]
fn wallpaper_current_value_and_applied() {
    let desired = location("/Users/d/a.png", "~/a.png");
    let same = wallpaper::Change { desired: location("/Users/d/a.png", "~/a.png"), current: vec![Some(location("/Users/d/a.png", "~/a.png")), Some(location("/Users/d/a.png", "~/a.png"))] };
    assert!(same.is_applied());
    assert!(matches!(same.current(), DisplayValue::String(s) if s == "~/a.png"));
    let varies = wallpaper::Change { desired, current: vec![Some(location("/b.png", "/b.png")), None] };
    assert!(!varies.is_applied());
    assert!(matches!(varies.current(), DisplayValue::Description(d) if d == "<varies by screen>"));
    let none = wallpaper::Change { desired: location("/a", "/a"), current: vec![] };
    assert!(!none.is_applied());
    assert!(matches!(none.current(), DisplayValue::Missing));
    let hint = wallpaper::Change { desired: location("/a \"b\".png", "/a.png"), current: vec![None] };
    assert_eq!(hint.operation_hint().unwrap(), "NSWorkspace setDesktopImageURL \"/a \\\"b\\\".png\"");
}

#[test]
fn wallpaper_plan_checks_the_image() {
    let s = wallpaper::Setting { path: "a.png".into() };
    let obs = wallpaper::Observation { expanded: Ok("a.png".into()), resolved: Err("x".into()), is_file: false, screens: Ok(vec![]) };
    match wallpaper::plan(&s, obs) {
        Err(e) => assert_eq!(e.message(), "wallpaper.path must be absolute or begin with '~': a.png"),
        _ => panic!("expected a relative path to be refused"),
    }
    let s = wallpaper::Setting { path: "/a".into() };
    let obs = wallpaper::Observation { expanded: Ok("/a".into()), resolved: Ok(location("/a", "/a")), is_file: false, screens: Ok(vec![]) };
    assert!(matches!(wallpaper::plan(&s, obs), Err(wallpaper::PlanError::NotAFile(p)) if p == "/a"));
    let obs = wallpaper::Observation { expanded: Ok("/a".into()), resolved: Ok(location("/a", "/a")), is_file: true, screens: Ok(vec![]) };
    match wallpaper::plan(&s, obs) {
        Err(e) => assert_eq!(e.message(), "macOS did not report any connected screens"),
        _ => panic!("expected no screens"),
    }
    let obs = wallpaper::Observation { expanded: Ok("/a".into()), resolved: Ok(location("/a", "/a")), is_file: true, screens: Ok(vec![None]) };
    assert!(wallpaper::plan(&s, obs).is_ok());
}

#[test]
fn whole_plan_is_in_integration_order() {
    let config = Config {
        defaults: vec![setting("com.apple.dock", "autohide", Value::Boolean(true))],
        appearance: Some(appearance::Setting { mode: Mode::Dark }),
        filesystem: vec![filesystem::Setting { path: "/x".into(), hidden: true }],
        wallpaper: Some(wallpaper::Setting { path: "/a.png".into() }),
    };
    let observations = Observations {
        appearance: Some(Ok("false".into())),
        exports: vec![export("com.apple.dock", vec![("autohide", PlistValue::Boolean(true))])],
        filesystem: vec![filesystem::Observation { expanded: Ok(location("/x", "/x")), flags: Ok(0) }],
        wallpaper: Some(wallpaper::Observation { expanded: Ok("/a.png".into()), resolved: Ok(location("/a.png", "/a.png")), is_file: true, screens: Ok(vec![Some(location("/a.png", "/a.png"))]) }),
    };
    let plan = integ::plan(&config, observations).ok().unwrap();
    assert_eq!(plan.len(), 4);
    assert!(matches!(plan[0], PlannedChange::Appearance(_)));
    assert!(matches!(plan[1], PlannedChange::Defaults(_)));
    assert!(matches!(plan[2], PlannedChange::Filesystem(_)));
    assert!(matches!(plan[3], PlannedChange::Wallpaper(_)));
    let applied: Vec<bool> = plan.iter().map(|c| c.is_applied()).collect();
    assert_eq!(applied, vec![false, true, false, true]);
    let sections: Vec<String> = plan.iter().map(|c| c.section()).collect();
    assert_eq!(sections, vec!["appearance", "defaults.\"com.apple.dock\"", "filesystem.\"/x\"", "wallpaper"]);
    assert_eq!(plan[1].relaunches(), vec!["Dock"]);
}

#[test]
fn whole_plan_reports_the_first_failing_part() {
    let config = Config {
        defaults: vec![setting("d", "k", Value::Boolean(true))],
        appearance: Some(appearance::Setting { mode: Mode::Dark }),
        filesystem: vec![],
        wallpaper: None,
    };
    let observations = Observations {
        appearance: Some(Ok("bogus".into())),
        exports: vec![DomainExport { domain: "d".into(), contents: Err(ExportFailure { message: "export failed".into(), cause: Some("io".into()) }) }],
        filesystem: vec![],
        wallpaper: None,
    };
    match integ::plan(&config, observations) {
        Err(e @ integ::PlanError::Appearance(_)) => {
            assert_eq!(e.message(), "osascript returned an invalid dark mode value: \"bogus\"")
        }
        _ => panic!("expected the appearance to fail first"),
    }
}

#[test]
fn display_values_render() {
    assert_eq!(DisplayValue::Boolean(false).render(), "false");
    assert_eq!(DisplayValue::Integer(-12).render(), "-12");
    assert_eq!(DisplayValue::Float(number(2.5)).render(), "2.5");
    assert_eq!(DisplayValue::String("left".into()).render(), "\"left\"");
    assert_eq!(DisplayValue::Missing.render(), "<unset>");
    assert_eq!(DisplayValue::Description("<varies by screen>".into()).render(), "<varies by screen>");
    let change = Change { setting: setting("d", "k", Value::Integer(1)), current: None };
    assert!(matches!(change.current(), DisplayValue::Missing));
}

const EXPORTED_PLIST: &str = r#"<?xml version="1.0" encoding="UTF-8"?>
<!DOCTYPE plist PUBLIC "-//Apple//DTD PLIST 1.0//EN" "http://www.apple.com/DTDs/PropertyList-1.0.dtd">
<plist version="1.0">
<dict>
	<key>autohide</key>
	<true/>
	<key>tilesize</key>
	<integer>48</integer>
	<key>huge</key>
	<integer>18446744073709551615</integer>
	<key>autohide-delay</key>
	<real>0.5</real>
	<key>orientation</key>
	<string>left</string>
	<key>persistent-apps</key>
	<array/>
</dict>
</plist>
"#;

#[test]
fn export_of_output_reads_a_dictionary() {
    let contents =
        defaults::export_of_output("com.apple.dock", true, EXPORTED_PLIST.as_bytes(), "")
            .expect("a dictionary");
    let keys: Vec<&str> = contents.entries.iter().map(|(k, _)| k.as_str()).collect();
    assert_eq!(
        keys,
        vec!["autohide", "tilesize", "huge", "autohide-delay", "orientation", "persistent-apps"]
    );
    assert!(matches!(contents.entries[0].1, PlistValue::Boolean(true)));
    assert!(matches!(contents.entries[1].1, PlistValue::Integer(Some(48))));
    assert!(matches!(contents.entries[2].1, PlistValue::Integer(None)));
    match &contents.entries[3].1 {
        PlistValue::Real(r) => {
            assert_eq!(r.bits, 0.5f64.to_bits());
            assert_eq!(r.text, "0.5");
        }
        other => panic!("expected a real, found {other:?}"),
    }
    assert!(matches!(&contents.entries[4].1, PlistValue::String(s) if s == "left"));
    assert!(matches!(contents.entries[5].1, PlistValue::Other));
}

#[test]
fn export_of_output_refuses_a_non_dictionary() {
    let plist = r#"<?xml version="1.0" encoding="UTF-8"?>
<plist version="1.0">
<array><string>a</string></array>
</plist>
"#;
    let error = defaults::export_of_output("com.apple.dock", true, plist.as_bytes(), "")
        .expect_err("not a dictionary");
    assert_eq!(error.message, "defaults returned a non-dictionary plist for domain \"com.apple.dock\"");
    assert_eq!(error.cause, None);
}

#[test]
fn export_of_output_refuses_an_invalid_plist() {
    let error = defaults::export_of_output("com.apple.dock", true, b"<plist><dict>", "")
        .expect_err("not a plist");
    assert_eq!(error.message, "defaults returned an invalid plist for domain \"com.apple.dock\"");
    assert!(matches!(&error.cause, Some(cause) if !cause.is_empty()));
}

#[test]
fn export_of_output_reports_a_failed_export_without_reading() {
    let error = defaults::export_of_output(
        "com.example.missing",
        false,
        EXPORTED_PLIST.as_bytes(),
        "  Domain com.example.missing does not exist\n",
    )
    .expect_err("a failed export");
    assert_eq!(
        error.message,
        "defaults could not export domain \"com.example.missing\": Domain com.example.missing does not exist"
    );
    assert_eq!(error.cause, None);
}

#[test]
fn export_of_reading_passes_contents_on() {
    let reading = defaults::PlistReading::Dictionary(DomainContents {
        entries: vec![("tilesize".to_string(), PlistValue::Integer(Some(36)))],
    });
    let contents = defaults::export_of_reading("com.apple.dock", reading).expect("contents");
    assert_eq!(contents.entries.len(), 1);
    assert_eq!(contents.entries[0].0, "tilesize");
    let error = defaults::export_of_reading(
        "com.apple.dock",
        defaults::PlistReading::Invalid("unexpected end of file".to_string()),
    )
    .expect_err("invalid");
    assert_eq!(error.message, "defaults returned an invalid plist for domain \"com.apple.dock\"");
    assert_eq!(error.cause.as_deref(), Some("unexpected end of file"));
}

#[test]
fn a_failed_export_keeps_its_cause() {
    let config = Config {
        defaults: vec![setting("com.apple.dock", "autohide", Value::Boolean(true))],
        appearance: None,
        filesystem: vec![],
        wallpaper: None,
    };
    let observations = Observations {
        appearance: None,
        exports: vec![DomainExport {
            domain: "com.apple.dock".into(),
            contents: Err(ExportFailure {
                message: "defaults returned an invalid plist for domain \"com.apple.dock\"".into(),
                cause: Some("unexpected end of file".into()),
            }),
        }],
        filesystem: vec![],
        wallpaper: None,
    };
    match integ::plan(&config, observations) {
        Err(e) => {
            assert_eq!(e.message(), "defaults returned an invalid plist for domain \"com.apple.dock\"");
            assert_eq!(e.cause().as_deref(), Some("unexpected end of file"));
        }
        Ok(_) => panic!("expected the export to fail"),
    }
}
