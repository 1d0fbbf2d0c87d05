use warpgrid::auth::AuthStore;
use warpgrid::console::{extract_session_cookie, mask_api_key};
use warpgrid::session::{admin_login, admin_logout, console_login, console_logout, LoginOutcome};

#[test]
fn console_login_with_registered_key() {
    let mut auth = AuthStore::new();
    let (key, _user) = auth.register("dev@example.com");
    let padded = format!("  {key}\n");
    match console_login(&auth, &padded) {
        LoginOutcome::Accepted { set_cookie, location } => {
            assert_eq!(set_cookie, format!("wg_session={key}; Path=/; HttpOnly; SameSite=Strict; Max-Age=604800"));
            assert_eq!(location, "/console/");
            // The browser sends the cookie back; it authenticates the user.
            let sent = format!("wg_session={key}");
            assert_eq!(extract_session_cookie(Some(&sent)), Some(key.clone()));
        }
        LoginOutcome::Rejected => panic!("registered key must sign in"),
    }
    assert!(matches!(console_login(&auth, "wg_live_nope"), LoginOutcome::Rejected));
}

#[test]
fn admin_login_with_configured_key() {
    let auth = AuthStore::new();
    match admin_login(Some("root-key"), &auth, " root-key ", None) {
        LoginOutcome::Accepted { set_cookie, location } => {
            assert_eq!(set_cookie, "wg_admin_session=root-key; Path=/; HttpOnly; SameSite=Strict; Max-Age=604800");
            assert_eq!(location, "/admin/");
        }
        LoginOutcome::Rejected => panic!("configured key must sign in"),
    }
    assert!(matches!(admin_login(Some("root-key"), &auth, "other", None), LoginOutcome::Rejected));
}

#[test]
fn logouts_clear_cookies() {
    let (cookie, location) = console_logout();
    assert_eq!(cookie, "wg_session=; Path=/; HttpOnly; SameSite=Strict; Max-Age=0");
    assert_eq!(location, "/console/login");
    let (cookie, location) = admin_logout();
    assert_eq!(cookie, "wg_admin_session=; Path=/; HttpOnly; SameSite=Strict; Max-Age=0");
    assert_eq!(location, "/admin/login");
}

#[test]
fn settings_key_mask() {
    assert_eq!(mask_api_key(None), "\u{2014}");
    assert_eq!(mask_api_key(Some("short-key")), "short-key");
    assert_eq!(mask_api_key(Some("wg_live_0123456789abcdef")), "wg_live_0123...cdef");
}
