use warpgrid::analytics::{
    AnalyticsClient, AnalyticsService, DEFAULT_POSTHOG_HOST, EVENT_DEPLOYMENT_CREATED, EVENT_DEPLOYMENT_DELETED,
    EVENT_DEPLOYMENT_SCALED, EVENT_DEPLOY_FAILED, EVENT_DEPLOY_SUCCEEDED, EVENT_DOMAIN_ADDED, EVENT_ROLLOUT_STARTED,
    EVENT_TEAM_CREATED, EVENT_USER_LOGIN, EVENT_USER_REGISTERED,
};
use warpgrid::bun::{validate_config, BunPipelineConfig};
use warpgrid::config::{config_candidates, first_loaded, merge_option, merge_with_default, WarpGridConfig};
use warpgrid::registry::{content_hash, WasmRegistry};

#[test]
fn merge_option_prefers_cli() {
    assert_eq!(merge_option(Some(42), Some(10)), Some(42));
    assert_eq!(merge_option(None, Some(10)), Some(10));
    assert_eq!(merge_option::<i32>(None, None), None);
}

#[test]
fn merge_with_default_prefers_non_default_cli() {
    assert_eq!(merge_with_default(9443, Some(3000), 8443), 9443);
    assert_eq!(merge_with_default(8443, Some(3000), 8443), 3000);
    assert_eq!(merge_with_default(8443, None, 8443), 8443);
}

#[test]
fn config_candidates_order() {
    let paths = config_candidates(None, Some("/data"));
    assert_eq!(paths.len(), 3);
    assert_eq!(paths[0], "warpgrid.toml");
    assert_eq!(paths[1], "/data/warpgrid.toml");
    assert_eq!(paths[2], "/etc/warpgrid/warpgrid.toml");
}

#[test]
fn config_candidates_with_explicit() {
    let paths = config_candidates(Some("/custom/config.toml"), None);
    assert_eq!(paths[0], "/custom/config.toml");
}

#[test]
fn config_candidates_without_data_dir() {
    let paths = config_candidates(None, None);
    assert_eq!(paths, vec!["warpgrid.toml".to_string(), "/etc/warpgrid/warpgrid.toml".to_string()]);
}

#[test]
fn default_config_is_valid() {
    let config = BunPipelineConfig::default();
    assert!(validate_config(&config).is_ok());
}

#[test]
fn empty_bun_path_rejected() {
    let config = BunPipelineConfig { bun_path: String::new(), ..BunPipelineConfig::default() };
    let err = validate_config(&config).unwrap_err();
    assert!(err.to_string().contains("bun_path"));
}

#[test]
fn empty_jco_path_rejected() {
    let config = BunPipelineConfig { jco_path: String::new(), ..BunPipelineConfig::default() };
    let err = validate_config(&config).unwrap_err();
    assert!(err.to_string().contains("jco_path"));
}

#[test]
fn event_constants_use_snake_case() {
    let events = [
        EVENT_USER_REGISTERED,
        EVENT_USER_LOGIN,
        EVENT_TEAM_CREATED,
        EVENT_DEPLOYMENT_CREATED,
        EVENT_DEPLOY_SUCCEEDED,
        EVENT_DEPLOY_FAILED,
        EVENT_DEPLOYMENT_SCALED,
        EVENT_DEPLOYMENT_DELETED,
        EVENT_DOMAIN_ADDED,
        EVENT_ROLLOUT_STARTED,
    ];
    for event in events {
        assert!(!event.is_empty(), "event constant must not be empty");
        assert!(event.chars().all(|c| c.is_ascii_lowercase() || c == '_'), "event '{event}' must be snake_case");
    }
}

#[test]
fn from_env_none_yields_noop() {
    assert!(matches!(AnalyticsService::from_env(None), AnalyticsService::Noop));
}

#[test]
fn from_env_empty_yields_noop() {
    assert!(matches!(AnalyticsService::from_env(Some("")), AnalyticsService::Noop));
}

#[test]
fn from_env_with_key_yields_active() {
    assert!(matches!(AnalyticsService::from_env(Some("phc_test123")), AnalyticsService::Active(_)));
}

#[test]
fn analytics_client_default_host() {
    let client = AnalyticsClient::new("phc_key", None);
    assert_eq!(client.host, DEFAULT_POSTHOG_HOST);
}

#[test]
fn analytics_client_custom_host() {
    let client = AnalyticsClient::new("phc_key", Some("https://eu.posthog.com"));
    assert_eq!(client.host, "https://eu.posthog.com");
    assert_eq!(client.capture_url(), "https://eu.posthog.com/capture/");
}

#[test]
fn content_hash_is_deterministic() {
    let h1 = content_hash(b"hello");
    let h2 = content_hash(b"hello");
    let h3 = content_hash(b"world");
    assert_eq!(h1, h2);
    assert_ne!(h1, h3);
}

#[test]
fn content_hash_known_value() {
    assert_eq!(content_hash(b"hello"), "2cf24dba5fb0a30e26e83b2ac5b9e29e1b161e5c1fa7425e73043362938b9824");
    assert_eq!(content_hash(b""), "e3b0c44298fc1c149afbf4c8996fb92427ae41e4649b934ca495991b7852b855");
}

#[test]
fn registry_paths_are_content_addressed() {
    let registry = WasmRegistry::local("/var/lib/wg");
    assert_eq!(registry.deployment_dir("alice", "my-api"), "/var/lib/wg/alice/my-api");
    let stored = registry.locate("alice", "my-api", b"\x00asm\x01\x00\x00\x00");
    assert_eq!(stored.size_bytes, 8);
    assert_eq!(stored.hash.len(), 64);
    assert_eq!(stored.path, format!("/var/lib/wg/alice/my-api/{}.wasm", stored.hash));
}

#[test]
fn first_loaded_defaults_when_no_file() {
    let config = first_loaded(vec![None, None, None]);
    assert!(config.cloud.api_port.is_none());
    assert!(config.cloud.turso.url.is_none());
    let config = first_loaded(Vec::new());
    assert!(config.cloud.stripe.secret_key.is_none());
}

#[test]
fn first_loaded_takes_first_parsed_file() {
    let mut a = WarpGridConfig::default();
    a.cloud.api_port = Some(3000);
    let mut b = WarpGridConfig::default();
    b.cloud.api_port = Some(9443);
    let config = first_loaded(vec![None, Some(a), Some(b)]);
    assert_eq!(config.cloud.api_port, Some(3000));
}
