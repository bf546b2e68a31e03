use wapm_cli::config::{
    format_graphql, get, wax_default_cooldown, Config, ConfigError, MultiRegistry,
    Registries, Registry, UpdateRegistry,
};

#[test]
fn test_registries_switch_token() {
    let mut registries = Registries::default();

    registries.set_current_registry("https://registry.wapm.dev");
    assert_eq!(registries.get_current_registry(), "https://registry.wapm.dev/graphql".to_string());
    registries.set_login_token_for_registry(
        "https://registry.wapm.io",
        "token1",
        UpdateRegistry::LeaveAsIs,
    );
    assert_eq!(registries.get_current_registry(), "https://registry.wapm.dev/graphql".to_string());
    assert_eq!(registries.get_login_token_for_registry(&registries.get_current_registry()), None);
    registries.set_current_registry("https://registry.wapm.io");
    assert_eq!(
        registries.get_login_token_for_registry(&registries.get_current_registry()),
        Some("token1".to_string())
    );
    registries.clear_current_registry_token();
    assert_eq!(registries.get_login_token_for_registry(&registries.get_current_registry()), None);
}

#[test]
fn graphql_endpoint_is_formatted_once() {
    assert_eq!(format_graphql("https://a.io"), "https://a.io/graphql");
    assert_eq!(format_graphql("https://a.io/"), "https://a.io/graphql");
    assert_eq!(format_graphql("https://a.io/graphql"), "https://a.io/graphql");
    assert_eq!(format_graphql(&format_graphql("x")), format_graphql("x"));
}

#[test]
fn single_registry_token_for_its_own_url() {
    let mut registries = Registries::Single(Registry { url: "https://a.io".to_string(), token: None });
    registries.set_login_token_for_registry("https://a.io", "t", UpdateRegistry::Update);
    assert_eq!(
        registries,
        Registries::Single(Registry {
            url: "https://a.io/graphql".to_string(),
            token: Some("t".to_string())
        })
    );
    assert_eq!(registries.get_login_token_for_registry("https://a.io"), Some("t".to_string()));
}

#[test]
fn multi_registry_update_switches() {
    let mut registries = Registries::Multi(MultiRegistry {
        current: "https://a.io/graphql".to_string(),
        tokens: vec![("https://a.io/graphql".to_string(), "ta".to_string())],
    });
    registries.set_login_token_for_registry("https://b.io", "tb", UpdateRegistry::Update);
    assert_eq!(registries.get_current_registry(), "https://b.io/graphql");
    assert_eq!(registries.get_login_token_for_registry("https://b.io"), Some("tb".to_string()));
    assert_eq!(registries.get_login_token_for_registry("https://a.io"), Some("ta".to_string()));
    registries.clear_current_registry_token();
    assert_eq!(registries.get_login_token_for_registry("https://b.io"), None);
    assert_eq!(registries.get_login_token_for_registry("https://a.io"), Some("ta".to_string()));
    assert_eq!(registries.get_graphql_url(), "https://b.io/graphql");
}

#[test]
fn config_keys_read_back() {
    let mut config = Config::default();
    assert_eq!(config.wax_cooldown, wax_default_cooldown());
    assert_eq!(wax_default_cooldown(), 300);
    assert_eq!(get(&mut config, "wax.cooldown".to_string()).unwrap(), "300");
    assert_eq!(get(&mut config, "registry.url".to_string()).unwrap(), "https://registry.wapm.io/graphql");
    assert_eq!(get(&mut config, "proxy.url".to_string()).unwrap(), "No proxy configured");
    assert_eq!(
        get(&mut config, "registry.token".to_string()),
        Err(ConfigError::NotLoggedIn { registry: "https://registry.wapm.io/graphql".to_string() })
    );

    wapm_cli::config::set(&mut config, "wax.cooldown".to_string(), "-42".to_string()).unwrap();
    assert_eq!(get(&mut config, "wax.cooldown".to_string()).unwrap(), "-42");
    assert_eq!(
        wapm_cli::config::set(&mut config, "wax.cooldown".to_string(), "4x".to_string()),
        Err(ConfigError::CanNotParse { value: "4x".to_string(), key: "wax.cooldown".to_string() })
    );
    assert_eq!(config.wax_cooldown, -42);

    wapm_cli::config::set(&mut config, "registry.token".to_string(), "secret".to_string()).unwrap();
    assert_eq!(get(&mut config, "registry.token".to_string()).unwrap(), "secret");

    wapm_cli::config::set(&mut config, "proxy.url".to_string(), "http://proxy".to_string()).unwrap();
    assert_eq!(get(&mut config, "proxy.url".to_string()).unwrap(), "http://proxy");
    wapm_cli::config::set(&mut config, "proxy.url".to_string(), "".to_string()).unwrap();
    assert_eq!(config.proxy.url, None);

    wapm_cli::config::set(&mut config, "telemetry.enabled".to_string(), "false".to_string()).unwrap();
    assert_eq!(get(&mut config, "telemetry.enabled".to_string()).unwrap(), "false");
    assert!(Config::update_notifications_enabled(Some(&config)));
    wapm_cli::config::set(&mut config, "update-notifications.enabled".to_string(), "no".to_string()).unwrap();
    assert!(!Config::update_notifications_enabled(Some(&config)));
    assert!(Config::update_notifications_enabled(None));

    wapm_cli::config::set(&mut config, "registry.url".to_string(), "https://registry.wapm.dev".to_string()).unwrap();
    assert_eq!(get(&mut config, "registry.url".to_string()).unwrap(), "https://registry.wapm.dev/graphql");

    assert_eq!(
        get(&mut config, "nope".to_string()),
        Err(ConfigError::KeyNotFound { key: "nope".to_string() })
    );
    assert_eq!(
        wapm_cli::config::set(&mut config, "nope".to_string(), "1".to_string()),
        Err(ConfigError::KeyNotFound { key: "nope".to_string() })
    );
}

#[test]
fn config_paths_join_folder() {
    assert_eq!(Config::get_wax_file_path("/home/u/.wasmer"), "/home/u/.wasmer/.wax_index.json");
    assert_eq!(Config::get_database_file_path("/home/u/.wasmer/"), "/home/u/.wasmer/wapm.sqlite");
    assert_eq!(Config::get_globals_directory(""), "globals");
    assert_eq!(Config::get_file_location("/x"), "/x/wapm.toml");
}

#[test]
fn setting_a_token_keeps_the_other_registries_tokens() {
    let mut registries =
        Registries::Single(Registry { url: "https://a.io/graphql".to_string(), token: Some("ta".to_string()) });
    registries.set_login_token_for_registry("https://b.io/", "tb", UpdateRegistry::LeaveAsIs);
    assert_eq!(registries.get_login_token_for_registry("https://b.io/"), Some("tb".to_string()));
    assert_eq!(registries.get_login_token_for_registry("https://b.io/graphql"), Some("tb".to_string()));
    assert_eq!(registries.get_login_token_for_registry("https://a.io"), Some("ta".to_string()));
    assert_eq!(registries.get_login_token_for_registry("https://a.io/graphql"), Some("ta".to_string()));
    assert_eq!(registries.get_current_registry(), "https://a.io/graphql");
}
