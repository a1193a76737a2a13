use stream_infra::config::{
    default_api_listen, default_enabled, default_health_listen, default_listen,
    default_live_message, AppConfig, ConfigError, ConfigSource, ConfigStore, TargetConfig,
};

fn target(name: &str, url: &str, enabled: bool) -> TargetConfig {
    TargetConfig {
        name: name.into(),
        url: url.into(),
        stream_key: String::new(),
        public_url: None,
        enabled,
    }
}

#[test]
fn defaults_match_the_documented_values() {
    let config = AppConfig::default();
    assert_eq!(config.server.listen, "0.0.0.0:1935");
    assert_eq!(config.server.health_listen, "127.0.0.1:8080");
    assert_eq!(config.server.api_listen, "0.0.0.0:3000");
    assert_eq!(config.notifications.live_message, "Stream is LIVE");
    assert!(config.notifications.discord_webhook.is_none());
    assert!(config.targets.is_empty());
    assert_eq!(default_listen(), "0.0.0.0:1935");
    assert_eq!(default_health_listen(), "127.0.0.1:8080");
    assert_eq!(default_api_listen(), "0.0.0.0:3000");
    assert_eq!(default_live_message(), "Stream is LIVE");
    assert!(default_enabled());
}

#[test]
fn validation_checks_enabled_targets_only() {
    let mut config = AppConfig::default();
    assert!(config.validate().is_ok());
    config.targets = vec![target("off", "http://x", false), target("ok", " rtmps://x ", true)];
    assert!(config.validate().is_ok());
    config.targets.push(target("blank", "   ", true));
    config.targets.push(target("web", "http://x", true));
    assert_eq!(config.validate(), Err(ConfigError::EmptyUrl("blank".into())));
    config.targets.remove(2);
    assert_eq!(config.validate(), Err(ConfigError::InvalidUrl("web".into())));
    config.targets = vec![target("rtmp", "rtmp://host/app", true)];
    assert!(config.validate().is_ok());
    config.targets = vec![target("short", "rtmp:/", true)];
    assert_eq!(config.validate(), Err(ConfigError::InvalidUrl("short".into())));
}

#[test]
fn store_opening_decisions() {
    let store = ConfigStore::new("/tmp/config.sqlite3".into());
    assert_eq!(store.path(), "/tmp/config.sqlite3");
    assert!(!ConfigStore::open_is_possible(true, false, false));
    assert!(ConfigStore::open_is_possible(true, false, true));
    assert!(ConfigStore::open_is_possible(false, false, false));
    assert_eq!(ConfigStore::config_source(true, true, true), ConfigSource::Stored);
    assert_eq!(ConfigStore::config_source(false, true, true), ConfigSource::LegacyToml);
    assert_eq!(ConfigStore::config_source(false, true, false), ConfigSource::Defaults);
    assert_eq!(ConfigStore::config_source(false, false, true), ConfigSource::Defaults);
}

#[test]
fn configuration_errors_name_the_target() {
    assert_eq!(ConfigError::EmptyUrl("Twitch".into()).message(), "Target 'Twitch' has an empty RTMP URL.");
    assert_eq!(
        ConfigError::InvalidUrl("YouTube".into()).message(),
        "Target 'YouTube' has an invalid URL. It must start with rtmp:// or rtmps://"
    );
}

#[test]
fn a_toml_configuration_is_stored_in_its_sibling_database() {
    let (store, is_toml) = ConfigStore::for_config_path("dir/config.toml");
    assert!(is_toml);
    assert_eq!(store.path(), "dir/config.sqlite3");
    let (store, is_toml) = ConfigStore::for_config_path("/var/lib/proxy/config.sqlite3");
    assert!(!is_toml);
    assert_eq!(store.path(), "/var/lib/proxy/config.sqlite3");
    let (store, is_toml) = ConfigStore::for_config_path("config");
    assert!(!is_toml);
    assert_eq!(store.path(), "config");
}
