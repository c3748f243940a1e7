use prefset::config::{Config, ConfigError};
use prefset::document::{TomlTable, TomlValue};
use prefset::integrations::appearance::{self, Mode};
use prefset::integrations::defaults::{self, DomainError, Value, ValueError};
use prefset::integrations::{filesystem, wallpaper, IntegrationChange};
use prefset::number::Real;

fn number(value: f64) -> Real {
    Real { bits: value.to_bits(), text: value.to_string() }
}

fn parse(source: &str) -> Result<Config, ConfigError> {
    Config::parse(source)
}

fn message(source: &str) -> String {
    match parse(source) {
        Ok(_) => panic!("accepted: {source}"),
        Err(e) => e.message(),
    }
}

#[test]
fn readme_example_parses() {
    let config = parse(
        r#"
[defaults.NSGlobalDomain]
NSAutomaticSpellingCorrectionEnabled = false
KeyRepeat = 2

[defaults."com.apple.dock"]
orientation = "left"
autohide = true

[defaults."com.apple.finder"]
ShowStatusBar = true
"#,
    )
    .unwrap();
    let settings: Vec<(String, String, String)> = config
        .defaults
        .iter()
        .map(|s| (s.domain.clone(), s.key.clone(), s.value.argument()))
        .collect();
    assert_eq!(
        settings,
        vec![
            ("NSGlobalDomain".into(), "KeyRepeat".into(), "2".into()),
            ("NSGlobalDomain".into(), "NSAutomaticSpellingCorrectionEnabled".into(), "false".into()),
            ("com.apple.dock".into(), "autohide".into(), "true".into()),
            ("com.apple.dock".into(), "orientation".into(), "left".into()),
            ("com.apple.finder".into(), "ShowStatusBar".into(), "true".into()),
        ]
    );
    assert!(config.appearance.is_none());
    assert!(config.filesystem.is_empty());
    assert!(config.wallpaper.is_none());
}

#[test]
fn every_integration_parses() {
    let config = parse(
        r#"
appearance.mode = "dark"
wallpaper.path = "~/Pictures/a.png"

[filesystem."~/Library"]
hidden = false

[filesystem."/tmp/x"]
hidden = true

[defaults.NSGlobalDomain]
Scale = 1.5
"#,
    )
    .unwrap();
    assert_eq!(config.appearance.unwrap().mode, Mode::Dark);
    assert_eq!(config.wallpaper.unwrap().path, "~/Pictures/a.png");
    let fs: Vec<(String, bool)> =
        config.filesystem.iter().map(|s| (s.path.clone(), s.hidden)).collect();
    assert_eq!(fs, vec![("/tmp/x".to_string(), true), ("~/Library".to_string(), false)]);
    assert_eq!(config.defaults.len(), 1);
    assert_eq!(config.defaults[0].value.defaults_type(), "-float");
    assert_eq!(config.defaults[0].value.argument(), "1.5");
}

#[test]
fn unknown_integration_is_refused() {
    assert!(matches!(parse("[bogus]\na = 1\n"), Err(ConfigError::UnsupportedIntegration(k)) if k == "bogus"));
    assert_eq!(message("[bogus]\na = 1\n"), "unsupported integration: \"bogus\"");
}

#[test]
fn appearance_errors() {
    assert_eq!(message("appearance = 1\n"), "appearance must be a table");
    assert_eq!(message("[appearance]\nmode = \"dark\"\ncolor = 1\n"), "appearance.color is unsupported");
    assert_eq!(message("[appearance]\n"), "appearance.mode is required");
    assert_eq!(message("[appearance]\nmode = 1\n"), "appearance.mode must be a string");
    assert_eq!(message("[appearance]\nmode = \"blue\"\n"), "appearance.mode must be \"light\" or \"dark\"");
    assert!(matches!(
        parse("[appearance]\nmode = \"light\"\n"),
        Ok(c) if c.appearance.map(|s| s.mode) == Some(Mode::Light)
    ));
}

#[test]
fn defaults_errors() {
    assert_eq!(message("defaults = 1\n"), "the defaults namespace must contain domain tables");
    assert_eq!(message("[defaults]\nNSGlobalDomain = 1\n"),
        "domain \"NSGlobalDomain\" must be a table - quote dotted domain names, for example [defaults.\"com.apple.dock\"]");
    assert_eq!(message("[defaults.\"-x\"]\na = 1\n"), "preference domain may not start with '-': \"-x\"");
    assert_eq!(message("[defaults.\"a/b\"]\na = 1\n"), "preference domain may not contain '/': \"a/b\"");
    assert_eq!(message("[defaults.\"\"]\na = 1\n"), "preference domain may not be empty");
    assert_eq!(message("[defaults.\"a\\tb\"]\na = 1\n"),
        "preference domain may not contain control characters: \"a\\tb\"");
    let e = parse("[defaults.d]\nk = [1, 2]\n").err().unwrap();
    assert_eq!(e.message(), "defaults.d.k unsupported type");
    assert_eq!(e.cause().unwrap(), "unsupported value type");
    let e = parse("[defaults.d]\nk = inf\n").err().unwrap();
    assert_eq!(e.message(), "defaults.d.k unsupported type");
    assert_eq!(e.cause().unwrap(), "non-finite floats are not supported: inf");
    let e = parse("[defaults.d]\nk = nan\n").err().unwrap();
    assert_eq!(e.cause().unwrap(), "non-finite floats are not supported: NaN");
}

#[test]
fn filesystem_errors() {
    assert_eq!(message("filesystem = 1\n"), "filesystem must be a table");
    assert_eq!(message("[filesystem.\"\"]\nhidden = true\n"), "filesystem path may not be empty");
    assert_eq!(message("[filesystem]\n\"/x\" = 1\n"), "filesystem path \"/x\" must be a table");
    assert_eq!(message("[filesystem.\"/x\"]\nhidden = true\nmode = 1\n"), "filesystem.\"/x\".mode is unsupported");
    assert_eq!(message("[filesystem.\"/x\"]\n"), "filesystem.\"/x\".hidden is required");
    assert_eq!(message("[filesystem.\"/x\"]\nhidden = \"yes\"\n"), "filesystem.\"/x\".hidden must be a boolean");
}

#[test]
fn wallpaper_errors() {
    assert_eq!(message("wallpaper = 1\n"), "wallpaper must be a table");
    assert_eq!(message("[wallpaper]\npath = \"/a\"\nfit = 1\n"), "wallpaper.fit is unsupported");
    assert_eq!(message("[wallpaper]\n"), "wallpaper.path is required");
    assert_eq!(message("[wallpaper]\npath = 1\n"), "wallpaper.path must be a string");
    assert_eq!(message("[wallpaper]\npath = \"\"\n"), "wallpaper.path may not be empty");
}

#[test]
fn first_refused_key_is_reported() {
    // keys are walked in order: "appearance" comes before "wallpaper"
    assert_eq!(message("appearance = 1\nwallpaper = 1\n"), "appearance must be a table");
    assert!(matches!(parse("wallpaper = 1\nzzz = 1\n"), Err(ConfigError::Wallpaper(_))));
}

#[test]
fn value_from_toml_keeps_values() {
    assert!(matches!(Value::from_toml(&TomlValue::Boolean(true)), Ok(Value::Boolean(true))));
    assert!(matches!(Value::from_toml(&TomlValue::Integer(-3)), Ok(Value::Integer(-3))));
    assert!(matches!(Value::from_toml(&TomlValue::String("x".into())), Ok(Value::String(s)) if s == "x"));
    assert!(matches!(Value::from_toml(&TomlValue::Float(number(f64::INFINITY))), Err(ValueError::NonFinite(_))));
    assert!(matches!(Value::from_toml(&TomlValue::Datetime("1979-05-27".into())), Err(ValueError::Unsupported)));
}

#[test]
fn parse_functions_of_each_integration() {
    let v = TomlValue::Table(TomlTable { entries: vec![("mode".into(), TomlValue::String("dark".into()))] });
    assert!(matches!(appearance::parse(&v), Ok(s) if s.mode == Mode::Dark));
    let v = TomlValue::Table(TomlTable { entries: vec![("path".into(), TomlValue::String("/a.png".into()))] });
    assert!(matches!(wallpaper::parse(&v), Ok(s) if s.path == "/a.png"));
    let inner = TomlValue::Table(TomlTable { entries: vec![("hidden".into(), TomlValue::Boolean(true))] });
    let v = TomlValue::Table(TomlTable { entries: vec![("/x".into(), inner)] });
    assert!(matches!(filesystem::parse(&v), Ok(s) if s.len() == 1 && s[0].hidden));
    let inner = TomlValue::Table(TomlTable { entries: vec![("k".into(), TomlValue::Integer(1))] });
    let v = TomlValue::Table(TomlTable { entries: vec![("d".into(), inner)] });
    assert!(matches!(defaults::parse(&v), Ok(s) if s.len() == 1 && s[0].domain == "d"));
    assert!(matches!(defaults::validate_domain("ok.domain"), Ok(())));
    assert_eq!(defaults::validate_domain(""), Err(DomainError::Empty));
    assert_eq!(defaults::validate_domain("-a"), Err(DomainError::LeadingDash));
    assert_eq!(defaults::validate_domain("a/b"), Err(DomainError::ContainsSlash));
    assert_eq!(defaults::validate_domain("a\u{85}b"), Err(DomainError::ControlCharacter));
    assert_eq!(defaults::validate_domain("a\u{a0}b"), Ok(()));
}

#[test]
fn parsed_domains_pass_validation() {
    let config = parse(
        "[defaults.NSGlobalDomain]\nKeyRepeat = 2\n[defaults.\"com.apple.dock\"]\nautohide = true\n",
    )
    .unwrap();
    for setting in &config.defaults {
        assert!(defaults::validate_domain(&setting.domain).is_ok());
    }
}

#[test]
fn written_values_read_back_in_place() {
    let config = parse(
        "[defaults.d]\nb = true\ni = -7\nf = 0.1\ns = \"x y\"\n",
    )
    .unwrap();
    for setting in &config.defaults {
        let stored = match &setting.value {
            Value::Boolean(b) => defaults::PlistValue::Boolean(*b),
            Value::Integer(i) => defaults::PlistValue::Integer(Some(*i)),
            Value::Float(r) => defaults::PlistValue::Real(r.clone()),
            Value::String(s) => defaults::PlistValue::String(s.clone()),
        };
        let change = defaults::Change {
            setting: setting.clone(),
            current: defaults::value_from_plist(&stored),
        };
        assert!(change.is_applied());
    }
}

#[test]
fn parse_refuses_text_that_is_not_toml() {
    match Config::parse("[defaults\nx = 1\n") {
        Err(ConfigError::InvalidToml(reason)) => assert!(!reason.is_empty()),
        other => panic!("expected invalid TOML, got {other:?}"),
    }
    let error = Config::parse("a = ").unwrap_err();
    assert_eq!(error.message(), "invalid TOML");
    assert!(error.cause().is_some());
}

#[test]
fn parse_reads_the_document_text() {
    let config = Config::parse(
        "[defaults.\"com.apple.dock\"]\nautohide-delay = 0.25\norientation = \"left\"\ntilesize = 36\n",
    )
    .expect("a configuration");
    assert_eq!(config.defaults.len(), 3);
    assert_eq!(config.defaults[0].key, "autohide-delay");
    match &config.defaults[0].value {
        Value::Float(r) => {
            assert_eq!(r.bits, 0.25f64.to_bits());
            assert_eq!(r.text, "0.25");
        }
        other => panic!("expected a float, got {other:?}"),
    }
    assert!(matches!(&config.defaults[1].value, Value::String(s) if s == "left"));
    assert!(matches!(config.defaults[2].value, Value::Integer(36)));
}

#[test]
fn parse_document_dispatches_a_parsed_table() {
    let document = TomlTable { entries: vec![("bogus".into(), TomlValue::Integer(1))] };
    assert!(matches!(Config::parse_document(&document), Err(ConfigError::UnsupportedIntegration(k)) if k == "bogus"));
}
