use prefset::args::color_enabled;
use prefset::util::color::colorize;
use prefset::util::home::{ExpandError, expand_home, friendly_path};
use prefset::util::shell::quote;
use prefset::util::text::{decimal_string, decimal_usize, same_text, text_less};

#[test]
fn quote_leaves_safe_words_bare() {
    assert_eq!(quote("Dock"), "Dock");
    assert_eq!(quote("com.apple.dock"), "com.apple.dock");
    assert_eq!(quote("/usr/bin/defaults"), "/usr/bin/defaults");
}

#[test]
fn quote_wraps_other_words_in_single_quotes() {
    assert_eq!(quote("hello world"), "'hello world'");
    assert_eq!(quote(""), "''");
    assert_eq!(quote("$HOME"), "'$HOME'");
}

#[test]
fn quote_escapes_single_quotes() {
    assert_eq!(quote("it's"), "'it'\\''s'");
    assert_eq!(quote("'"), "''\\'''");
}

#[test]
fn colorize_wraps_in_escape_sequences_when_enabled() {
    assert_eq!(colorize("text", "36", true), "\x1b[36mtext\x1b[0m");
    assert_eq!(colorize("text", "1;33", true), "\x1b[1;33mtext\x1b[0m");
}

#[test]
fn colorize_leaves_text_alone_when_disabled() {
    assert_eq!(colorize("text", "36", false), "text");
}

#[test]
fn decimal_matches_to_string() {
    for n in [0i64, 7, 10, 42, -1, -10, 1234567890, i64::MAX, i64::MIN] {
        assert_eq!(decimal_string(n), n.to_string());
    }
    assert_eq!(decimal_usize(0), "0");
    assert_eq!(decimal_usize(305), "305");
}

#[test]
fn text_order_follows_str_order() {
    assert!(text_less("Dock", "Finder"));
    assert!(!text_less("Finder", "Dock"));
    assert!(text_less("Doc", "Dock"));
    assert!(!text_less("Dock", "Dock"));
    assert!(text_less("Z", "a"));
    assert!(same_text("é", "é"));
    assert!(!same_text("e", "é"));
}

#[test]
fn color_is_enabled_only_on_a_capable_terminal() {
    assert!(color_enabled(true, false, None));
    assert!(color_enabled(true, false, Some("xterm-256color")));
    assert!(!color_enabled(false, false, None));
    assert!(!color_enabled(true, true, None));
    assert!(!color_enabled(true, false, Some("dumb")));
}

#[test]
fn expand_home_replaces_a_leading_tilde() {
    assert_eq!(expand_home("~/Pictures/wall.png", Some("/Users/dave")).unwrap(), "/Users/dave/Pictures/wall.png");
    assert_eq!(expand_home("~", Some("/Users/dave")).unwrap(), "/Users/dave");
    assert_eq!(expand_home("~//Library/./x/", Some("/Users/dave")).unwrap(), "/Users/dave/Library/x");
}

#[test]
fn expand_home_keeps_other_paths() {
    assert_eq!(expand_home("/tmp/a", Some("/Users/dave")).unwrap(), "/tmp/a");
    assert_eq!(expand_home("~dave/a", Some("/Users/dave")).unwrap(), "~dave/a");
    assert_eq!(expand_home("./~/a", None).unwrap(), "./~/a");
}

#[test]
fn expand_home_errors() {
    assert_eq!(expand_home("", Some("/Users/dave")), Err(ExpandError::Empty));
    assert_eq!(expand_home("~/a", None), Err(ExpandError::NoHome));
    assert_eq!(ExpandError::Empty.message(), "path may not be empty");
    assert_eq!(ExpandError::NoHome.message(), "could not find home directory");
}

#[test]
fn friendly_path_writes_home_as_tilde() {
    assert_eq!(friendly_path("/Users/dave/.config/prefset/config.toml", Some("/Users/dave")), "~/.config/prefset/config.toml");
    assert_eq!(friendly_path("/Users/davey/x", Some("/Users/dave")), "/Users/davey/x");
    assert_eq!(friendly_path("/tmp/x", Some("/Users/dave")), "/tmp/x");
    assert_eq!(friendly_path("/Users/dave/x", None), "/Users/dave/x");
}

#[test]
fn expand_home_undoes_friendly_path() {
    let home = Some("/Users/dave");
    for path in ["/Users/dave/Pictures/wall.png", "/Users/dave/.config/prefset/config.toml"] {
        let friendly = friendly_path(path, home);
        assert!(friendly.starts_with("~/"), "{friendly}");
        assert_eq!(expand_home(&friendly, home).unwrap(), path);
    }
}

#[test]
fn expand_home_joins_like_path_join() {
    assert_eq!(expand_home("~/a", Some("/")).unwrap(), "/a");
    assert_eq!(expand_home("~/a", Some("/Users/dave/")).unwrap(), "/Users/dave/a");
    assert_eq!(expand_home("~/a/b", Some("")).unwrap(), "a/b");
}
