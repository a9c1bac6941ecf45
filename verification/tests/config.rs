use flom::config::{
    get_nested_config_value, resolve_default_target, resolve_odesli_key, resolve_simple_output,
    resolve_user_country, split_key_path, FlomConfig,
};
use flom::error::FlomError;

#[test]
fn config_test_resolve_default_target_env() {
    let mut config = FlomConfig::empty();
    config.default.target = Some("itunes".to_string());
    let result = resolve_default_target(Some("spotify".to_string()), &config);
    assert_eq!(result, Some("spotify".to_string()));
}

#[test]
fn config_test_resolve_user_country_env() {
    let mut config = FlomConfig::empty();
    config.default.user_country = Some("DE".to_string());
    let result = resolve_user_country(Some("JP".to_string()), &config);
    assert_eq!(result, "JP");
}

#[test]
fn test_resolve_user_country_default() {
    let config = FlomConfig::empty();
    let result = resolve_user_country(None, &config);
    assert_eq!(result, "US");
}

#[test]
fn lib_test_resolve_default_target_env() {
    let config = FlomConfig::empty();
    let result = resolve_default_target(Some("spotify".to_string()), &config);
    assert_eq!(result, Some("spotify".to_string()));
}

#[test]
fn lib_test_resolve_user_country_env() {
    let config = FlomConfig::empty();
    let result = resolve_user_country(Some("JP".to_string()), &config);
    assert_eq!(result, "JP");
}

#[test]
fn config_test_resolve_user_country_default() {
    let config = FlomConfig::empty();
    let result = resolve_user_country(None, &config);
    assert_eq!(result, "US");
}

#[test]
fn resolve_user_country_trims_env_value() {
    let config = FlomConfig::empty();
    assert_eq!(resolve_user_country(Some("  JP  ".to_string()), &config), "JP");
}

#[test]
fn resolve_user_country_blank_env_falls_back() {
    let mut config = FlomConfig::empty();
    config.default.user_country = Some("DE".to_string());
    assert_eq!(resolve_user_country(Some("   ".to_string()), &config), "DE");
}

#[test]
fn resolve_odesli_key_prefers_non_blank_env() {
    let mut config = FlomConfig::empty();
    config.api.odesli_key = Some("file-key".to_string());
    assert_eq!(
        resolve_odesli_key(Some("env-key".to_string()), &config),
        Some("env-key".to_string())
    );
    assert_eq!(
        resolve_odesli_key(Some("  ".to_string()), &config),
        Some("file-key".to_string())
    );
    assert_eq!(resolve_odesli_key(None, &config), Some("file-key".to_string()));
}

#[test]
fn resolve_simple_output_reads_truth_words() {
    let config = FlomConfig::empty();
    assert_eq!(resolve_simple_output(Some("1".to_string()), &config), Some(true));
    assert_eq!(resolve_simple_output(Some("true".to_string()), &config), Some(true));
    assert_eq!(resolve_simple_output(Some("YES".to_string()), &config), Some(true));
    assert_eq!(resolve_simple_output(Some("off".to_string()), &config), Some(false));
    assert_eq!(resolve_simple_output(None, &config), None);
    let mut with_file = FlomConfig::empty();
    with_file.output.simple = Some(true);
    assert_eq!(resolve_simple_output(None, &with_file), Some(true));
}

#[test]
fn nested_config_value_reads_each_known_path() {
    let mut config = FlomConfig::empty();
    config.api.odesli_key = Some("k".to_string());
    config.default.target = Some("spotify".to_string());
    config.output.simple = Some(false);
    assert_eq!(
        get_nested_config_value(&config, "api.odesli_key"),
        Some("k".to_string())
    );
    assert_eq!(
        get_nested_config_value(&config, "default.target"),
        Some("spotify".to_string())
    );
    assert_eq!(
        get_nested_config_value(&config, "output.simple"),
        Some("false".to_string())
    );
    assert_eq!(get_nested_config_value(&config, "api.unknown"), None);
}

#[test]
fn split_key_path_requires_two_parts() {
    let parts = split_key_path("api.odesli_key").unwrap();
    assert_eq!(parts, vec!["api".to_string(), "odesli_key".to_string()]);

    let result = split_key_path("api");
    match result {
        Err(FlomError::Config(msg)) => assert!(msg.contains("at least 2 parts")),
        _ => panic!("Expected Config error"),
    }
}
