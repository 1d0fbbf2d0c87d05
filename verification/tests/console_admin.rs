use warpgrid::admin::{
    admin_nav_link, admin_page_shell, check_admin_key, extract_admin_cookie, format_bytes_i64, format_epoch,
    require_admin, validate_admin_key, AdminKeyCheck,
};
use warpgrid::auth::AuthStore;
use warpgrid::console::{extract_session_cookie, format_bytes, nav_link, page_shell, require_user, truncate_source};

#[test]
fn extract_session_cookie_from_headers() {
    assert_eq!(
        extract_session_cookie(Some("wg_session=wg_live_abc123; other=value")),
        Some("wg_live_abc123".to_string())
    );
}

#[test]
fn extract_session_cookie_missing() {
    assert_eq!(extract_session_cookie(None), None);
}

#[test]
fn extract_session_cookie_no_wg_session() {
    assert_eq!(extract_session_cookie(Some("other=value")), None);
}

#[test]
fn extract_session_cookie_second_position() {
    assert_eq!(extract_session_cookie(Some("a=b;  wg_session=k1 ; c=d")), Some("k1".to_string()));
    assert_eq!(extract_session_cookie(Some("wg_sessionx=1")), None);
}

#[test]
fn truncate_source_short() {
    assert_eq!(truncate_source("file://test.wasm"), "file://test.wasm");
}

#[test]
fn truncate_source_long() {
    let long = "https://registry.example.com/very/long/path/to/component.wasm";
    let result = truncate_source(long);
    assert!(result.len() <= 43);
    assert!(result.ends_with("..."));
}

#[test]
fn truncate_source_exact_prefix() {
    let long = "https://registry.example.com/very/long/path/to/component.wasm";
    assert_eq!(truncate_source(long), "https://registry.example.com/very/lon...");
    let forty = "a".repeat(40);
    assert_eq!(truncate_source(&forty), forty);
}

#[test]
fn console_format_bytes_units() {
    assert_eq!(format_bytes(0), "0 B");
    assert_eq!(format_bytes(512), "512 B");
    assert_eq!(format_bytes(10 * 1024 * 1024), "10 MB");
    assert_eq!(format_bytes(256 * 1024 * 1024), "256 MB");
    assert_eq!(format_bytes(2 * 1024 * 1024 * 1024), "2.0 GB");
}

#[test]
fn console_format_bytes_kilobytes_and_fractions() {
    assert_eq!(format_bytes(1024), "1 KB");
    assert_eq!(format_bytes(1536 * 1024 * 1024), "1.5 GB");
    assert_eq!(format_bytes(1023), "1023 B");
}

#[test]
fn require_user_redirects_without_cookie() {
    let auth = AuthStore::new();
    assert!(require_user(None, &auth).is_none());
}

#[test]
fn require_user_redirects_with_invalid_key() {
    let auth = AuthStore::new();
    assert!(require_user(Some("wg_session=wg_live_invalid_key_0000000000"), &auth).is_none());
}

#[test]
fn require_user_succeeds_with_valid_key() {
    let mut auth = AuthStore::new();
    let (api_key, _user) = auth.register("test@example.com");
    let header = format!("wg_session={api_key}");
    let result = require_user(Some(&header), &auth);
    assert!(result.is_some());
    assert_eq!(result.unwrap().email, "test@example.com");
}

#[test]
fn nav_link_marks_active_page() {
    let active = nav_link("/console", "Overview", "overview", "overview");
    assert!(active.contains("class=\"active\""));
    assert!(active.contains("href=\"/console\""));
    assert!(active.contains("Overview"));
    let inactive = nav_link("/console", "Overview", "deployments", "overview");
    assert!(!inactive.contains("active"));
}

#[test]
fn console_page_shell_contains_parts() {
    let html = page_shell("Deployments", "deployments", "me@example.com", "<p>hello</p>");
    assert!(html.contains("Deployments"));
    assert!(html.contains("me@example.com"));
    assert!(html.contains("<p>hello</p>"));
    assert!(html.contains("WarpGrid"));
}

#[test]
fn extract_admin_cookie_from_headers() {
    assert_eq!(
        extract_admin_cookie(Some("wg_admin_session=secret123; other=value")),
        Some("secret123".to_string())
    );
}

#[test]
fn extract_admin_cookie_missing() {
    assert_eq!(extract_admin_cookie(None), None);
}

#[test]
fn require_admin_redirects_without_cookie() {
    let auth = AuthStore::new();
    assert!(!require_admin(None, Some("test-admin-key"), &auth, None));
}

#[test]
fn require_admin_succeeds_with_valid_key() {
    let auth = AuthStore::new();
    assert!(require_admin(Some("wg_admin_session=test-admin-key"), Some("test-admin-key"), &auth, None));
}

#[test]
fn require_admin_rejects_wrong_key() {
    let auth = AuthStore::new();
    assert!(!require_admin(Some("wg_admin_session=wrong-key"), Some("test-admin-key"), &auth, None));
}

#[test]
fn validate_admin_key_with_configured_key() {
    let auth = AuthStore::new();
    assert!(validate_admin_key(Some("my-secret-key"), &auth, "my-secret-key", None));
    assert!(!validate_admin_key(Some("my-secret-key"), &auth, "wrong-key", None));
}

#[test]
fn validate_admin_key_first_user_fallback() {
    let mut auth = AuthStore::new();
    let (first_key, first) = auth.register("first@example.com");
    let (second_key, _second) = auth.register("second@example.com");
    assert!(validate_admin_key(None, &auth, &first_key, Some(&first.id)));
    assert!(!validate_admin_key(None, &auth, &second_key, Some(&first.id)));
    assert!(!validate_admin_key(None, &auth, "wg_live_unknown", Some(&first.id)));
    assert!(!validate_admin_key(None, &auth, &first_key, None));
}

#[test]
fn check_admin_key_outcomes() {
    assert_eq!(check_admin_key(Some("k"), "k"), AdminKeyCheck::Accept);
    assert_eq!(check_admin_key(Some("k"), "x"), AdminKeyCheck::Reject);
    assert_eq!(check_admin_key(None, "x"), AdminKeyCheck::FirstUserOnly);
}

#[test]
fn format_bytes_i64_units() {
    assert_eq!(format_bytes_i64(0), "0 B");
    assert_eq!(format_bytes_i64(512), "512 B");
    assert_eq!(format_bytes_i64(10 * 1024 * 1024), "10 MB");
    assert_eq!(format_bytes_i64(2 * 1024 * 1024 * 1024), "2.0 GB");
}

#[test]
fn format_bytes_i64_negative_and_kilobytes() {
    assert_eq!(format_bytes_i64(-5), "-5 B");
    assert_eq!(format_bytes_i64(2048), "2 KB");
}

#[test]
fn format_epoch_valid() {
    let s = format_epoch(1700000000);
    assert!(s.contains("2023"));
    assert!(s.contains("UTC"));
}

#[test]
fn format_epoch_zero() {
    let s = format_epoch(0);
    assert!(s.contains("1970"));
}

#[test]
fn format_epoch_exact_and_out_of_range() {
    assert_eq!(format_epoch(1700000000), "2023-11-14 22:13:20 UTC");
    assert_eq!(format_epoch(i64::MAX), "--");
}

#[test]
fn admin_shell_and_nav() {
    let html = admin_page_shell("Users", "users", "<table></table>");
    assert!(html.contains("Users"));
    assert!(html.contains("<table></table>"));
    let link = admin_nav_link("/admin/users", "Users", "users", "users");
    assert!(link.contains("class=\"active\""));
}
