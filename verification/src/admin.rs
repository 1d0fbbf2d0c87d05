//! The platform admin dashboard's helpers: byte sizes, the page layout,
//! the admin session cookie and the admin key check.

use vstd::prelude::*;
use crate::auth::AuthStore;
use crate::console::{cookie_value, cookie_value_spec};
use crate::format::{f64_of, f64_value, one_decimal, push_one_decimal};
use crate::sys::{utc_datetime_text, utc_text};
use crate::text::{dec, dec_int, push_dec, push_dec_i64, push_str, str_eq, to_owned_str};

verus! {

/// A signed byte count as the admin dashboard shows it: `{x.y} GB` from a
/// gigabyte on, else whole `MB`, else whole `KB`, else the count in `B`
/// (negative counts included).
pub open spec fn admin_bytes_text(bytes: int) -> Seq<char> {
    if bytes >= 1073741824 {
        one_decimal(f64_value(bytes as nat), 30) + " GB"@
    } else if bytes >= 1048576 {
        dec((bytes / 1048576) as nat) + " MB"@
    } else if bytes >= 1024 {
        dec((bytes / 1024) as nat) + " KB"@
    } else {
        dec_int(bytes) + " B"@
    }
}

/// Formats a signed byte count for the admin dashboard.
pub fn format_bytes_i64(bytes: i64) -> (res: String)
    ensures
        res@ == admin_bytes_text(bytes as int),
{
    let mut s = String::new();
    if bytes >= 1024 * 1024 * 1024 {
        let f = f64_of(bytes as u64);
        push_one_decimal(&mut s, f, 30);
        push_str(&mut s, " GB");
    } else if bytes >= 1024 * 1024 {
        push_dec(&mut s, (bytes / (1024 * 1024)) as u64);
        push_str(&mut s, " MB");
    } else if bytes >= 1024 {
        push_dec(&mut s, (bytes / 1024) as u64);
        push_str(&mut s, " KB");
    } else {
        push_dec_i64(&mut s, bytes);
        push_str(&mut s, " B");
    }
    proof {
        assert(s@ =~= admin_bytes_text(bytes as int));
    }
    s
}

/// A navigation link, marked `active` when it is the current page.
pub open spec fn admin_nav_link_text(href: Seq<char>, label: Seq<char>, active_page: Seq<char>, page_id: Seq<char>) -> Seq<char> {
    crate::console::nav_link_text(href, label, active_page, page_id)
}

/// Renders a navigation link of the admin dashboard.
pub fn admin_nav_link(href: &str, label: &str, active_page: &str, page_id: &str) -> (res: String)
    ensures
        res@ == admin_nav_link_text(href@, label@, active_page@, page_id@),
{
    crate::console::nav_link(href, label, active_page, page_id)
}

/// The admin key in the `wg_admin_session` cookie, given the `Cookie`
/// header if the request has one.
pub fn extract_admin_cookie(cookie_header: Option<&str>) -> (res: Option<String>)
    ensures
        match cookie_header {
            None => res is None,
            Some(h) => match res {
                Some(v) => cookie_value_spec(h@, "wg_admin_session="@) == Some(v@),
                None => cookie_value_spec(h@, "wg_admin_session="@) is None,
            },
        },
{
    match cookie_header {
        None => None,
        Some(h) => cookie_value(h, "wg_admin_session="),
    }
}

/// An instant as the admin pages show it: its UTC date and time, or `--`
/// where it is out of range.
pub fn format_epoch(epoch: i64) -> (res: String)
    ensures
        res@ == match utc_text(epoch as int) {
            Some(t) => t,
            None => "--"@,
        },
{
    match utc_datetime_text(epoch) {
        Some(t) => t,
        None => to_owned_str("--"),
    }
}

/// How a submitted admin key is judged.
#[derive(Clone, Copy, Debug, PartialEq, Eq, Structural)]
pub enum AdminKeyCheck {
    /// The key is accepted.
    Accept,
    /// The key is refused.
    Reject,
    /// No admin key is configured: the key is accepted if it is an API key
    /// of the first registered user.
    FirstUserOnly,
}

/// Judges a submitted admin key: with a configured admin key only that
/// exact key is accepted; without one, the decision is left to the
/// first-user check.
pub fn check_admin_key(configured: Option<&str>, key: &str) -> (res: AdminKeyCheck)
    ensures
        match configured {
            Some(c) => res == (if key@ == c@ {
                AdminKeyCheck::Accept
            } else {
                AdminKeyCheck::Reject
            }),
            None => res == AdminKeyCheck::FirstUserOnly,
        },
{
    match configured {
        Some(c) => if str_eq(key, c) {
            AdminKeyCheck::Accept
        } else {
            AdminKeyCheck::Reject
        },
        None => AdminKeyCheck::FirstUserOnly,
    }
}

/// Whether a submitted admin key is accepted. With a configured admin key
/// only that exact key is; without one, any API key of the first registered
/// user, whose id `first_user_id` gives (`None` when no user is registered).
pub fn validate_admin_key(
    configured: Option<&str>,
    auth: &AuthStore,
    key: &str,
    first_user_id: Option<&str>,
) -> (res: bool)
    ensures
        res == match configured {
            Some(c) => key@ == c@,
            None => match auth.user_for_key(key@) {
                Some(u) => first_user_id matches Some(f) && f@ == u.id,
                None => false,
            },
        },
{
    match check_admin_key(configured, key) {
        AdminKeyCheck::Accept => true,
        AdminKeyCheck::Reject => false,
        AdminKeyCheck::FirstUserOnly => match auth.validate_sync(key) {
            Some(u) => match first_user_id {
                Some(f) => str_eq(u.id.as_str(), f),
                None => false,
            },
            None => false,
        },
    }
}

/// Whether an admin request may proceed: the `wg_admin_session` cookie must
/// hold a key that `validate_admin_key` accepts; otherwise the request is
/// sent to the admin login page.
pub fn require_admin(
    cookie_header: Option<&str>,
    configured: Option<&str>,
    auth: &AuthStore,
    first_user_id: Option<&str>,
) -> (res: bool)
    ensures
        res == match cookie_header {
            None => false,
            Some(h) => match cookie_value_spec(h@, "wg_admin_session="@) {
                None => false,
                Some(k) => match configured {
                    Some(c) => k == c@,
                    None => match auth.user_for_key(k) {
                        Some(u) => first_user_id matches Some(f) && f@ == u.id,
                        None => false,
                    },
                },
            },
        },
{
    match extract_admin_cookie(cookie_header) {
        None => false,
        Some(k) => validate_admin_key(configured, auth, k.as_str(), first_user_id),
    }
}

/// The style sheet of the admin pages.
pub const ADMIN_CSS: &'static str = r#"
    * { margin: 0; padding: 0; box-sizing: border-box; }
    body { background: #0a0a0a; color: #e0e0e0; font-family: -apple-system, BlinkMacSystemFont, 'Segoe UI', Roboto, monospace; }
    .layout { display: flex; min-height: 100vh; }
    .sidebar { width: 220px; background: #111111; border-right: 1px solid #222; padding: 24px 0; flex-shrink: 0; }
    .sidebar .brand { padding: 0 20px 24px; border-bottom: 1px solid #222; margin-bottom: 16px; }
    .sidebar .brand h1 { font-size: 18px; color: #00ff88; font-weight: 700; letter-spacing: -0.5px; }
    .sidebar .brand span { font-size: 11px; color: #666; }
    .sidebar nav a { display: block; padding: 10px 20px; color: #888; text-decoration: none; font-size: 14px; transition: all 0.15s; }
    .sidebar nav a:hover { color: #e0e0e0; background: #1a1a1a; }
    .sidebar nav a.active { color: #00ff88; background: #1a1a1a; border-right: 2px solid #00ff88; }
    .main { flex: 1; padding: 32px 40px; overflow-y: auto; }
    .main h2 { font-size: 22px; font-weight: 600; margin-bottom: 24px; }
    .card { background: #111111; border: 1px solid #222; border-radius: 8px; padding: 20px; margin-bottom: 16px; }
    .card h3 { font-size: 14px; color: #666; text-transform: uppercase; letter-spacing: 0.5px; margin-bottom: 12px; }
    .stat { font-size: 32px; font-weight: 700; color: #00ff88; }
    .stat-label { font-size: 12px; color: #666; margin-top: 4px; }
    .grid-2 { display: grid; grid-template-columns: 1fr 1fr; gap: 16px; }
    .grid-3 { display: grid; grid-template-columns: 1fr 1fr 1fr; gap: 16px; }
    .grid-4 { display: grid; grid-template-columns: 1fr 1fr 1fr 1fr; gap: 16px; }
    table { width: 100%; border-collapse: collapse; }
    th { text-align: left; padding: 10px 12px; color: #666; font-size: 12px; text-transform: uppercase; letter-spacing: 0.5px; border-bottom: 1px solid #222; }
    td { padding: 12px; border-bottom: 1px solid #1a1a1a; font-size: 14px; }
    .badge { display: inline-block; padding: 2px 8px; border-radius: 4px; font-size: 11px; font-weight: 600; }
    .badge-green { background: #00ff8815; color: #00ff88; }
    .badge-yellow { background: #ffaa0015; color: #ffaa00; }
    .badge-red { background: #ff444415; color: #ff4444; }
    .badge-gray { background: #44444430; color: #888; }
    .btn { display: inline-block; padding: 8px 16px; border-radius: 6px; font-size: 13px; font-weight: 600; cursor: pointer; border: none; text-decoration: none; transition: all 0.15s; }
    .btn-primary { background: #00ff88; color: #0a0a0a; }
    .btn-primary:hover { background: #00cc6e; }
    .btn-danger { background: #ff444420; color: #ff4444; border: 1px solid #ff444440; }
    .btn-danger:hover { background: #ff444440; }
    input { background: #1a1a1a; border: 1px solid #222; border-radius: 6px; padding: 10px 14px; color: #e0e0e0; font-size: 14px; width: 100%; font-family: inherit; }
    input:focus { outline: none; border-color: #00ff88; }
    label { display: block; font-size: 13px; color: #888; margin-bottom: 6px; }
    .form-group { margin-bottom: 16px; }
    .footer { padding: 16px 20px; color: #444; font-size: 11px; border-top: 1px solid #222; margin-top: auto; }
    .mono { font-family: 'SF Mono', 'Fira Code', monospace; font-size: 13px; }
    .text-muted { color: #666; }
    .text-green { color: #00ff88; }
    .text-red { color: #ff4444; }
    .text-yellow { color: #ffaa00; }
    .mb-4 { margin-bottom: 16px; }
"#;

/// The HTML of an admin page: the layout with the style sheet, the
/// navigation (the active page marked), and `content` in the main area.
pub open spec fn admin_page_shell_text(title: Seq<char>, active_page: Seq<char>, content: Seq<char>) -> Seq<char> {
    r#"<!DOCTYPE html>
<html lang="en">
<head>
  <meta charset="utf-8">
  <meta name="viewport" content="width=device-width, initial-scale=1">
  <title>"#@
        + title
        + r#" — WarpGrid Admin</title>
  <style>"#@
        + ADMIN_CSS@
        + r#"</style>
</head>
<body>
  <div class="layout">
    <aside class="sidebar">
      <div class="brand">
        <h1>WarpGrid Admin</h1>
        <span>Platform Dashboard</span>
      </div>
      <nav>
        "#@
        + admin_nav_link_text("/admin/"@, "Overview"@, active_page, "overview"@)
        + r#"
        "#@
        + admin_nav_link_text("/admin/nodes"@, "Nodes"@, active_page, "nodes"@)
        + r#"
        "#@
        + admin_nav_link_text("/admin/users"@, "Users"@, active_page, "users"@)
        + r#"
        "#@
        + admin_nav_link_text("/admin/deployments"@, "Deployments"@, active_page, "deployments"@)
        + r#"
        "#@
        + admin_nav_link_text("/admin/metrics"@, "Metrics"@, active_page, "metrics"@)
        + r#"
      </nav>
      <div class="footer">
        <form method="POST" action="/admin/logout" style="display:inline">
          <button type="submit" class="btn btn-danger" style="padding:4px 10px;font-size:11px">Logout</button>
        </form>
        <div style="margin-top:12px">Served by WarpGrid</div>
      </div>
    </aside>
    <main class="main">
      "#@
        + content
        + r#"
    </main>
  </div>
</body>
</html>"#@
}

/// Renders an admin page.
pub fn admin_page_shell(title: &str, active_page: &str, content: &str) -> (res: String)
    ensures
        res@ == admin_page_shell_text(title@, active_page@, content@),
{
    let mut s = String::new();
    push_str(&mut s, r#"<!DOCTYPE html>
<html lang="en">
<head>
  <meta charset="utf-8">
  <meta name="viewport" content="width=device-width, initial-scale=1">
  <title>"#);
    push_str(&mut s, title);
    push_str(&mut s, r#" — WarpGrid Admin</title>
  <style>"#);
    push_str(&mut s, ADMIN_CSS);
    push_str(&mut s, r#"</style>
</head>
<body>
  <div class="layout">
    <aside class="sidebar">
      <div class="brand">
        <h1>WarpGrid Admin</h1>
        <span>Platform Dashboard</span>
      </div>
      <nav>
        "#);
    let l = admin_nav_link("/admin/", "Overview", active_page, "overview");
    push_str(&mut s, l.as_str());
    push_str(&mut s, r#"
        "#);
    let l = admin_nav_link("/admin/nodes", "Nodes", active_page, "nodes");
    push_str(&mut s, l.as_str());
    push_str(&mut s, r#"
        "#);
    let l = admin_nav_link("/admin/users", "Users", active_page, "users");
    push_str(&mut s, l.as_str());
    push_str(&mut s, r#"
        "#);
    let l = admin_nav_link("/admin/deployments", "Deployments", active_page, "deployments");
    push_str(&mut s, l.as_str());
    push_str(&mut s, r#"
        "#);
    let l = admin_nav_link("/admin/metrics", "Metrics", active_page, "metrics");
    push_str(&mut s, l.as_str());
    push_str(&mut s, r#"
      </nav>
      <div class="footer">
        <form method="POST" action="/admin/logout" style="display:inline">
          <button type="submit" class="btn btn-danger" style="padding:4px 10px;font-size:11px">Logout</button>
        </form>
        <div style="margin-top:12px">Served by WarpGrid</div>
      </div>
    </aside>
    <main class="main">
      "#);
    push_str(&mut s, content);
    push_str(&mut s, r#"
    </main>
  </div>
</body>
</html>"#);
    proof {
        assert(s@ =~= admin_page_shell_text(title@, active_page@, content@));
    }
    s
}

} // verus!
