use rss_reader::config::{get_config_dir, get_config_path, get_settings_path, ConfigError, ConfigKey, Settings};

fn home_config_dir() -> String {
    get_config_dir(None, Some("/home/user"))
}

#[test]
fn test_get_config_path_returns_feeds_json() {
    let path = get_config_path(&home_config_dir());

    assert!(path.contains(".config/rss/feeds.json"));
}

#[test]
fn test_get_settings_path_returns_config_toml() {
    let path = get_settings_path(&home_config_dir());

    assert!(path.contains(".config/rss/config.toml"));
}

#[test]
fn test_settings_default() {
    let settings = Settings::default();

    assert_eq!(settings.refresh_interval_secs, 300);
}

#[test]
fn test_settings_auto_sort_default_false() {
    let settings = Settings::default();

    assert!(!settings.auto_sort);
}

#[test]
fn test_settings_set_valid_key() {
    let mut settings = Settings::default();

    let result = settings.set(ConfigKey::AutoSort, "true");

    assert!(result.is_ok());
    assert!(settings.auto_sort);
}

#[test]
fn test_settings_set_invalid_value() {
    let mut settings = Settings::default();

    let result = settings.set(ConfigKey::AutoSort, "invalid");

    assert!(result.is_err());
}

#[test]
fn test_config_key_from_str_refresh_interval() {
    let key: ConfigKey = "refresh_interval_secs".parse().unwrap();

    assert!(matches!(key, ConfigKey::RefreshIntervalSecs));
}

#[test]
fn test_config_key_from_str_auto_sort() {
    let key: ConfigKey = "auto_sort".parse().unwrap();

    assert!(matches!(key, ConfigKey::AutoSort));
}

#[test]
fn test_config_key_from_str_invalid() {
    let result: Result<ConfigKey, _> = "invalid_key".parse();

    assert!(result.is_err());
}

#[test]
fn test_config_key_display_refresh_interval() {
    assert_eq!(ConfigKey::RefreshIntervalSecs.to_string(), "refresh_interval_secs");
}

#[test]
fn test_config_key_display_auto_sort() {
    assert_eq!(ConfigKey::AutoSort.to_string(), "auto_sort");
}

#[test]
fn config_dir_prefers_xdg_config_home() {
    assert_eq!(get_config_dir(Some("/xdg"), Some("/home/user")), "/xdg/rss");
    assert_eq!(get_config_dir(Some("/xdg/"), None), "/xdg/rss");
    assert_eq!(get_config_dir(None, Some("/home/user")), "/home/user/.config/rss");
    assert_eq!(get_config_path("/home/user/.config/rss"), "/home/user/.config/rss/feeds.json");
}

#[test]
fn settings_set_refresh_interval() {
    let mut settings = Settings::default();
    assert!(settings.set(ConfigKey::RefreshIntervalSecs, "60").is_ok());
    assert_eq!(settings.refresh_interval_secs, 60);
    assert!(settings.set(ConfigKey::RefreshIntervalSecs, "+7").is_ok());
    assert_eq!(settings.refresh_interval_secs, 7);
    assert!(settings.set(ConfigKey::RefreshIntervalSecs, "18446744073709551615").is_ok());
    assert_eq!(settings.refresh_interval_secs, u64::MAX);
}

#[test]
fn settings_set_refresh_interval_rejects_bad_numbers() {
    let mut settings = Settings::default();
    for bad in ["", "-1", "1.5", "18446744073709551616", "abc", "+"] {
        let r = settings.set(ConfigKey::RefreshIntervalSecs, bad);
        assert_eq!(r, Err(ConfigError::InvalidValue(ConfigKey::RefreshIntervalSecs)));
        assert_eq!(settings.refresh_interval_secs, 300);
    }
}

#[test]
fn config_error_messages() {
    let e: ConfigError = "nope".parse::<ConfigKey>().unwrap_err();
    assert_eq!(e.message(), "Unknown setting: nope");
    assert_eq!(
        ConfigError::InvalidValue(ConfigKey::RefreshIntervalSecs).message(),
        "Invalid value for refresh_interval_secs"
    );
    assert_eq!(
        ConfigError::InvalidValue(ConfigKey::AutoSort).message(),
        "Invalid value for auto_sort (use true/false)"
    );
}

#[test]
fn settings_display_lists_each_setting() {
    let mut settings = Settings::default();
    assert_eq!(settings.display(), "refresh_interval_secs = 300\nauto_sort = false");
    settings.set(ConfigKey::AutoSort, "true").unwrap();
    assert_eq!(settings.display(), "refresh_interval_secs = 300\nauto_sort = true");
}

#[test]
fn law_set_shown_value_keeps_settings() {
    let mut settings = Settings::default();
    settings.set(ConfigKey::RefreshIntervalSecs, "12345").unwrap();
    let shown = settings.display();
    let value = shown.lines().next().unwrap().split(" = ").nth(1).unwrap().to_string();
    settings.set(ConfigKey::RefreshIntervalSecs, &value).unwrap();
    assert_eq!(settings.refresh_interval_secs, 12345);
    settings.set(ConfigKey::AutoSort, "false").unwrap();
    assert!(!settings.auto_sort);
}
