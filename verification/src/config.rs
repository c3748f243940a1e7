//! The top-level keys of `config.toml`, each handed to its integration.

use vstd::prelude::*;

use crate::document::{parse_toml, toml_document, TomlTable, TomlValue};
use crate::integrations::{appearance, defaults, filesystem, wallpaper};
use vstd::string::*;

use crate::util::text::{debug_quote, debug_str, same_text};

verus! {

/// A parsed configuration.
#[derive(Debug)]
pub struct Config {
    pub defaults: Vec<defaults::Setting>,
    pub appearance: Option<appearance::Setting>,
    pub filesystem: Vec<filesystem::Setting>,
    pub wallpaper: Option<wallpaper::Setting>,
}

/// A configuration as mathematical values.
pub struct ConfigModel {
    pub defaults: Seq<defaults::Setting>,
    pub appearance: Option<appearance::Setting>,
    pub filesystem: Seq<filesystem::Setting>,
    pub wallpaper: Option<wallpaper::Setting>,
}

impl View for Config {
    type V = ConfigModel;

    open spec fn view(&self) -> ConfigModel {
        ConfigModel {
            defaults: self.defaults@,
            appearance: self.appearance,
            filesystem: self.filesystem@,
            wallpaper: self.wallpaper,
        }
    }
}

/// Why a configuration document is refused.
#[derive(Debug)]
pub enum ConfigError {
    /// The text is not a TOML document: the reader's error.
    InvalidToml(String),
    /// A top-level key that names no integration.
    UnsupportedIntegration(String),
    Appearance(appearance::ParseError),
    Defaults(defaults::ParseError),
    Filesystem(filesystem::ParseError),
    Wallpaper(wallpaper::ParseError),
}

/// The configuration with nothing configured.
pub open spec fn empty_model() -> ConfigModel {
    ConfigModel { defaults: seq![], appearance: None, filesystem: seq![], wallpaper: None }
}

/// `config` with the top-level entry `key = value` taken in.
pub open spec fn with_entry(config: ConfigModel, key: String, value: TomlValue) -> Result<
    ConfigModel,
    ConfigError,
> {
    if key@ == "appearance"@ {
        match appearance::setting_of(value) {
            Ok(s) => Ok(ConfigModel { appearance: Some(s), ..config }),
            Err(e) => Err(ConfigError::Appearance(e)),
        }
    } else if key@ == "defaults"@ {
        match defaults::settings_of(value) {
            Ok(s) => Ok(ConfigModel { defaults: s, ..config }),
            Err(e) => Err(ConfigError::Defaults(e)),
        }
    } else if key@ == "filesystem"@ {
        match filesystem::settings_of(value) {
            Ok(s) => Ok(ConfigModel { filesystem: s, ..config }),
            Err(e) => Err(ConfigError::Filesystem(e)),
        }
    } else if key@ == "wallpaper"@ {
        match wallpaper::setting_of(value) {
            Ok(s) => Ok(ConfigModel { wallpaper: Some(s), ..config }),
            Err(e) => Err(ConfigError::Wallpaper(e)),
        }
    } else {
        Err(ConfigError::UnsupportedIntegration(key))
    }
}

/// The configuration that the top-level entries give, taken in order; the
/// first entry that is refused refuses the document.
pub open spec fn config_of_entries(entries: Seq<(String, TomlValue)>) -> Result<
    ConfigModel,
    ConfigError,
>
    decreases entries.len(),
{
    if entries.len() == 0 {
        Ok(empty_model())
    } else {
        match config_of_entries(entries.drop_last()) {
            Err(e) => Err(e),
            Ok(config) => with_entry(config, entries.last().0, entries.last().1),
        }
    }
}

proof fn lemma_error_stays(entries: Seq<(String, TomlValue)>, k: int)
    requires
        0 <= k <= entries.len(),
        config_of_entries(entries.subrange(0, k)) is Err,
    ensures
        config_of_entries(entries) == config_of_entries(entries.subrange(0, k)),
    decreases entries.len() - k,
{
    if k == entries.len() {
        assert(entries.subrange(0, k) =~= entries);
    } else {
        assert(entries.drop_last().subrange(0, k) =~= entries.subrange(0, k));
        lemma_error_stays(entries.drop_last(), k);
    }
}

impl Config {
    /// Parse a configuration file's text: read it as TOML, then dispatch each
    /// supported top-level key.
    pub fn parse(source: &str) -> (r: Result<Config, ConfigError>)
        ensures
            match toml_document(source@) {
                Err(m) => r matches Err(ConfigError::InvalidToml(e)) && e@ == m,
                Ok(t) => match r {
                    Ok(config) => config_of_entries(t.entries@) == Ok::<ConfigModel, ConfigError>(
                        config@,
                    ),
                    Err(e) => config_of_entries(t.entries@) == Err::<ConfigModel, ConfigError>(e),
                },
            },
    {
        match parse_toml(source) {
            Err(e) => Err(ConfigError::InvalidToml(e)),
            Ok(document) => Config::parse_document(&document),
        }
    }

    /// Dispatch each supported top-level key of a parsed configuration
    /// document.
    pub fn parse_document(document: &TomlTable) -> (r: Result<Config, ConfigError>)
        ensures
            match r {
                Ok(config) => config_of_entries(document.entries@) == Ok::<
                    ConfigModel,
                    ConfigError,
                >(config@),
                Err(e) => config_of_entries(document.entries@) == Err::<ConfigModel, ConfigError>(
                    e,
                ),
            },
    {
        let entries = &document.entries;
        let mut defaults_settings: Vec<defaults::Setting> = Vec::new();
        let mut appearance_setting: Option<appearance::Setting> = None;
        let mut filesystem_settings: Vec<filesystem::Setting> = Vec::new();
        let mut wallpaper_setting: Option<wallpaper::Setting> = None;
        let mut i: usize = 0;
        while i < entries.len()
            invariant
                i <= entries.len(),
                entries@ == document.entries@,
                config_of_entries(entries@.subrange(0, i as int)) == Ok::<
                    ConfigModel,
                    ConfigError,
                >(
                    ConfigModel {
                        defaults: defaults_settings@,
                        appearance: appearance_setting,
                        filesystem: filesystem_settings@,
                        wallpaper: wallpaper_setting,
                    },
                ),
            decreases entries.len() - i,
        {
            let ghost prefix = entries@.subrange(0, i as int + 1);
            assert(prefix.drop_last() =~= entries@.subrange(0, i as int));
            assert(prefix.last() == entries@[i as int]);
            let key = &entries[i].0;
            let value = &entries[i].1;
            let failure: Option<ConfigError> = if same_text(key.as_str(), "appearance") {
                match appearance::parse(value) {
                    Ok(s) => {
                        appearance_setting = Some(s);
                        None
                    },
                    Err(e) => Some(ConfigError::Appearance(e)),
                }
            } else if same_text(key.as_str(), "defaults") {
                match defaults::parse(value) {
                    Ok(s) => {
                        defaults_settings = s;
                        None
                    },
                    Err(e) => Some(ConfigError::Defaults(e)),
                }
            } else if same_text(key.as_str(), "filesystem") {
                match filesystem::parse(value) {
                    Ok(s) => {
                        filesystem_settings = s;
                        None
                    },
                    Err(e) => Some(ConfigError::Filesystem(e)),
                }
            } else if same_text(key.as_str(), "wallpaper") {
                match wallpaper::parse(value) {
                    Ok(s) => {
                        wallpaper_setting = Some(s);
                        None
                    },
                    Err(e) => Some(ConfigError::Wallpaper(e)),
                }
            } else {
                Some(ConfigError::UnsupportedIntegration(key.clone()))
            };
            if let Some(e) = failure {
                proof {
                    assert(config_of_entries(prefix) == Err::<ConfigModel, ConfigError>(e));
                    lemma_error_stays(entries@, i as int + 1);
                }
                return Err(e);
            }
            i = i + 1;
        }
        assert(entries@.subrange(0, entries@.len() as int) =~= entries@);
        Ok(
            Config {
                defaults: defaults_settings,
                appearance: appearance_setting,
                filesystem: filesystem_settings,
                wallpaper: wallpaper_setting,
            },
        )
    }
}


/// What a refused configuration document is told.
pub open spec fn config_error_text(error: ConfigError) -> Seq<char> {
    match error {
        ConfigError::InvalidToml(_) => "invalid TOML"@,
        ConfigError::UnsupportedIntegration(key) => "unsupported integration: "@ + debug_str(key@),
        ConfigError::Appearance(e) => appearance::parse_error_text(e),
        ConfigError::Defaults(e) => defaults::parse_error_text(e),
        ConfigError::Filesystem(e) => filesystem::parse_error_text(e),
        ConfigError::Wallpaper(e) => wallpaper::parse_error_text(e),
    }
}

impl ConfigError {
    /// What a refused configuration document is told.
    pub fn message(&self) -> (r: String)
        ensures
            r@ == config_error_text(*self),
    {
        match self {
            ConfigError::InvalidToml(_) => String::from_str("invalid TOML"),
            ConfigError::UnsupportedIntegration(key) => String::from_str(
                "unsupported integration: ",
            ).concat(debug_quote(key.as_str()).as_str()),
            ConfigError::Appearance(e) => e.message(),
            ConfigError::Defaults(e) => e.message(),
            ConfigError::Filesystem(e) => e.message(),
            ConfigError::Wallpaper(e) => e.message(),
        }
    }

    /// Why a value is refused, below the message, where there is more to say.
    pub fn cause(&self) -> (r: Option<String>)
        ensures
            match *self {
                ConfigError::InvalidToml(reason) => r == Some(reason),
                ConfigError::Defaults(defaults::ParseError::UnsupportedType { reason, .. }) => r matches Some(
                    t,
                ) && t@ == defaults::value_error_text(reason),
                _ => r is None,
            },
    {
        match self {
            ConfigError::InvalidToml(reason) => Some(reason.clone()),
            ConfigError::Defaults(e) => e.cause(),
            _ => None,
        }
    }
}

} // verus!
