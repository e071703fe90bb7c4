use vstd::prelude::*;
use crate::text::{
    append_chars, chars_equal, chars_of, decimal, parse_bool, parse_bool_spec, parse_u64,
    parse_u64_spec, push_decimal, string_of, law_bool_parses_back, law_decimal_parses_back,
};

verus! {

/// The refresh interval, in seconds, of settings that name none.
pub const DEFAULT_REFRESH_INTERVAL: u64 = 300;

/// The refresh interval that settings without one take.
pub fn default_refresh_interval() -> (r: u64)
    ensures
        r == DEFAULT_REFRESH_INTERVAL,
{
    DEFAULT_REFRESH_INTERVAL
}

/// A setting that the `config` command can change.
#[derive(Debug, Clone, Copy, PartialEq, Eq, Structural)]
pub enum ConfigKey {
    RefreshIntervalSecs,
    AutoSort,
}

/// The name under which a setting is written and read.
pub open spec fn key_name(key: ConfigKey) -> Seq<char> {
    match key {
        ConfigKey::RefreshIntervalSecs => "refresh_interval_secs"@,
        ConfigKey::AutoSort => "auto_sort"@,
    }
}

/// The setting a name stands for, if any.
pub open spec fn key_of_name(name: Seq<char>) -> Option<ConfigKey> {
    if name == "refresh_interval_secs"@ {
        Some(ConfigKey::RefreshIntervalSecs)
    } else if name == "auto_sort"@ {
        Some(ConfigKey::AutoSort)
    } else {
        None
    }
}

/// Why a setting could not be read or changed.
#[derive(Debug, Clone, PartialEq, Eq)]
pub enum ConfigError {
    /// No setting has this name.
    UnknownSetting(String),
    /// The value does not parse as the setting's type.
    InvalidValue(ConfigKey),
}

impl ConfigKey {
    /// Reads a setting's name.
    pub fn parse_name(s: &str) -> (r: Result<ConfigKey, ConfigError>)
        ensures
            match key_of_name(s@) {
                Some(k) => r == Ok::<ConfigKey, ConfigError>(k),
                None => r matches Err(ConfigError::UnknownSetting(n)) && n@ == s@,
            },
    {
        let chars = chars_of(s);
        let a = chars_of("refresh_interval_secs");
        let b = chars_of("auto_sort");
        if chars_equal(&chars, &a) {
            Ok(ConfigKey::RefreshIntervalSecs)
        } else if chars_equal(&chars, &b) {
            Ok(ConfigKey::AutoSort)
        } else {
            Err(ConfigError::UnknownSetting(string_of(&chars)))
        }
    }

    /// The setting's name.
    pub fn to_string(&self) -> (r: String)
        ensures
            r@ == key_name(*self),
    {
        match self {
            ConfigKey::RefreshIntervalSecs => string_of(&chars_of("refresh_interval_secs")),
            ConfigKey::AutoSort => string_of(&chars_of("auto_sort")),
        }
    }
}

impl std::str::FromStr for ConfigKey {
    type Err = ConfigError;

    fn from_str(s: &str) -> (r: Result<ConfigKey, ConfigError>)
        ensures
            match key_of_name(s@) {
                Some(k) => r == Ok::<ConfigKey, ConfigError>(k),
                None => r matches Err(ConfigError::UnknownSetting(n)) && n@ == s@,
            },
    {
        ConfigKey::parse_name(s)
    }
}

/// The error's message, as the command line shows it.
pub open spec fn config_error_message(e: ConfigError) -> Seq<char> {
    match e {
        ConfigError::UnknownSetting(name) => "Unknown setting: "@ + name@,
        ConfigError::InvalidValue(ConfigKey::RefreshIntervalSecs) => "Invalid value for "@
            + key_name(ConfigKey::RefreshIntervalSecs),
        ConfigError::InvalidValue(ConfigKey::AutoSort) => "Invalid value for "@ + key_name(
            ConfigKey::AutoSort,
        ) + " (use true/false)"@,
    }
}

impl ConfigError {
    /// The message that tells a user what went wrong.
    pub fn message(&self) -> (r: String)
        ensures
            r@ == config_error_message(*self),
    {
        let mut out: Vec<char> = Vec::new();
        match self {
            ConfigError::UnknownSetting(name) => {
                append_chars(&mut out, &chars_of("Unknown setting: "));
                append_chars(&mut out, &chars_of(name.as_str()));
            },
            ConfigError::InvalidValue(key) => {
                append_chars(&mut out, &chars_of("Invalid value for "));
                let k = key.to_string();
                append_chars(&mut out, &chars_of(k.as_str()));
                match key {
                    ConfigKey::AutoSort => append_chars(&mut out, &chars_of(" (use true/false)")),
                    ConfigKey::RefreshIntervalSecs => {},
                }
            },
        }
        string_of(&out)
    }
}

/// The reader's settings.
#[derive(Debug, Clone)]
pub struct Settings {
    pub refresh_interval_secs: u64,
    pub auto_sort: bool,
}

impl Default for Settings {
    fn default() -> (r: Settings)
        ensures
            r.refresh_interval_secs == DEFAULT_REFRESH_INTERVAL,
            !r.auto_sort,
    {
        Settings { refresh_interval_secs: DEFAULT_REFRESH_INTERVAL, auto_sort: false }
    }
}

/// The text of a `bool` as `Display` writes it.
pub open spec fn bool_text(b: bool) -> Seq<char> {
    if b {
        "true"@
    } else {
        "false"@
    }
}

/// How settings are listed: one `name = value` line each.
pub open spec fn settings_text(refresh_interval_secs: u64, auto_sort: bool) -> Seq<char> {
    "refresh_interval_secs = "@ + decimal(refresh_interval_secs as nat) + "\nauto_sort = "@
        + bool_text(auto_sort)
}

impl Settings {
    /// Changes one setting to the value written in `value`; on an error the
    /// settings stay as they were.
    pub fn set(&mut self, key: ConfigKey, value: &str) -> (r: Result<(), ConfigError>)
        ensures
            match key {
                ConfigKey::RefreshIntervalSecs => match parse_u64_spec(value@) {
                    Some(n) => r is Ok && final(self).refresh_interval_secs == n
                        && final(self).auto_sort == old(self).auto_sort,
                    None => r == Err::<(), ConfigError>(ConfigError::InvalidValue(key))
                        && *final(self) == *old(self),
                },
                ConfigKey::AutoSort => match parse_bool_spec(value@) {
                    Some(b) => r is Ok && final(self).auto_sort == b
                        && final(self).refresh_interval_secs == old(self).refresh_interval_secs,
                    None => r == Err::<(), ConfigError>(ConfigError::InvalidValue(key))
                        && *final(self) == *old(self),
                },
            },
    {
        match key {
            ConfigKey::RefreshIntervalSecs => match parse_u64(value) {
                Some(n) => {
                    self.refresh_interval_secs = n;
                    Ok(())
                },
                None => Err(ConfigError::InvalidValue(key)),
            },
            ConfigKey::AutoSort => match parse_bool(value) {
                Some(b) => {
                    self.auto_sort = b;
                    Ok(())
                },
                None => Err(ConfigError::InvalidValue(key)),
            },
        }
    }

    /// The settings as `name = value` lines.
    pub fn display(&self) -> (r: String)
        ensures
            r@ == settings_text(self.refresh_interval_secs, self.auto_sort),
    {
        let mut out: Vec<char> = Vec::new();
        append_chars(&mut out, &chars_of("refresh_interval_secs = "));
        push_decimal(&mut out, self.refresh_interval_secs);
        append_chars(&mut out, &chars_of("\nauto_sort = "));
        if self.auto_sort {
            append_chars(&mut out, &chars_of("true"));
        } else {
            append_chars(&mut out, &chars_of("false"));
        }
        string_of(&out)
    }
}

/// `base` with the relative path `name` appended, as `Path::join` does on
/// Unix: a `/` goes between them unless `base` is empty or already ends in one.
pub open spec fn joined_path(base: Seq<char>, name: Seq<char>) -> Seq<char> {
    if base.len() == 0 || base.last() == '/' {
        base + name
    } else {
        base + seq!['/'] + name
    }
}

/// Appends the relative path `name` to `base`.
pub fn join_path(base: &str, name: &str) -> (r: String)
    ensures
        r@ == joined_path(base@, name@),
{
    let b = chars_of(base);
    let mut out: Vec<char> = Vec::new();
    append_chars(&mut out, &b);
    if b.len() > 0 && b[b.len() - 1] != '/' {
        out.push('/');
    }
    append_chars(&mut out, &chars_of(name));
    string_of(&out)
}

/// The directory that holds the reader's files: `rss` under
/// `$XDG_CONFIG_HOME` when it is set, else under `$HOME/.config`.
pub open spec fn config_dir_spec(xdg_config_home: Option<Seq<char>>, home: Option<Seq<char>>) -> Seq<
    char,
> {
    let base = match xdg_config_home {
        Some(x) => x,
        None => joined_path(home.unwrap(), ".config"@),
    };
    joined_path(base, "rss"@)
}

/// The configuration directory for the given environment values.
pub fn get_config_dir(xdg_config_home: Option<&str>, home: Option<&str>) -> (r: String)
    requires
        xdg_config_home is Some || home is Some,
    ensures
        r@ == config_dir_spec(
            match xdg_config_home {
                Some(x) => Some(x@),
                None => None,
            },
            match home {
                Some(h) => Some(h@),
                None => None,
            },
        ),
{
    let base = match xdg_config_home {
        Some(x) => string_of(&chars_of(x)),
        None => join_path(home.unwrap(), ".config"),
    };
    join_path(base.as_str(), "rss")
}

/// The file that lists the subscriptions, in the configuration directory.
pub fn get_config_path(config_dir: &str) -> (r: String)
    ensures
        r@ == joined_path(config_dir@, "feeds.json"@),
{
    join_path(config_dir, "feeds.json")
}

/// The file that holds the settings, in the configuration directory.
pub fn get_settings_path(config_dir: &str) -> (r: String)
    ensures
        r@ == joined_path(config_dir@, "config.toml"@),
{
    join_path(config_dir, "config.toml")
}

/// The value that the settings list shows for `key`.
pub open spec fn shown_value(s: Settings, key: ConfigKey) -> Seq<char> {
    match key {
        ConfigKey::RefreshIntervalSecs => decimal(s.refresh_interval_secs as nat),
        ConfigKey::AutoSort => bool_text(s.auto_sort),
    }
}

/// Setting a key to the value that the settings list shows for it is
/// accepted and leaves the setting as it was; the list shows each setting
/// under its name.
pub proof fn law_set_shown_value(s: Settings, key: ConfigKey)
    ensures
        match key {
            ConfigKey::RefreshIntervalSecs => parse_u64_spec(shown_value(s, key)) == Some(
                s.refresh_interval_secs,
            ),
            ConfigKey::AutoSort => parse_bool_spec(shown_value(s, key)) == Some(s.auto_sort),
        },
        settings_text(s.refresh_interval_secs, s.auto_sort) == key_name(
            ConfigKey::RefreshIntervalSecs,
        ) + " = "@ + shown_value(s, ConfigKey::RefreshIntervalSecs) + "\n"@ + key_name(
            ConfigKey::AutoSort,
        ) + " = "@ + shown_value(s, ConfigKey::AutoSort),
{
    law_decimal_parses_back(s.refresh_interval_secs);
    law_bool_parses_back(s.auto_sort);
    reveal_strlit("refresh_interval_secs = ");
    reveal_strlit("refresh_interval_secs");
    reveal_strlit(" = ");
    reveal_strlit("\nauto_sort = ");
    reveal_strlit("\n");
    reveal_strlit("auto_sort");
    assert(settings_text(s.refresh_interval_secs, s.auto_sort) =~= key_name(
        ConfigKey::RefreshIntervalSecs,
    ) + " = "@ + shown_value(s, ConfigKey::RefreshIntervalSecs) + "\n"@ + key_name(
        ConfigKey::AutoSort,
    ) + " = "@ + shown_value(s, ConfigKey::AutoSort));
}

} // verus!
