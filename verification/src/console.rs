//! The customer console's helpers: byte sizes, shortened sources, the page
//! layout and the session cookie.

use vstd::prelude::*;
use vstd::string::StringSliceAdditionalSpecFns;
use vstd::utf8::{decode_utf8, encode_utf8, encode_utf8_decode_utf8, is_char_boundary};
use crate::auth::{AuthStore, User};
use crate::format::{f64_of, f64_value, one_decimal, push_one_decimal};
use crate::text::{
    chars_of, dec, matches_at, push_dec, push_str, starts_with, str_eq,
    cuttable, shorten, shortened, string_of, to_owned_str, trim, trim_str,
};

verus! {

/// A byte count as the console shows it: `{x.y} GB` from a gigabyte on,
/// else whole `MB`, else whole `KB`, else `B`.
pub open spec fn console_bytes_text(bytes: nat) -> Seq<char> {
    if bytes >= 1073741824 {
        one_decimal(f64_value(bytes), 30) + " GB"@
    } else if bytes >= 1048576 {
        dec(bytes / 1048576) + " MB"@
    } else if bytes >= 1024 {
        dec(bytes / 1024) + " KB"@
    } else {
        dec(bytes) + " B"@
    }
}

/// Formats a byte count for the console.
pub fn format_bytes(bytes: u64) -> (res: String)
    ensures
        res@ == console_bytes_text(bytes as nat),
{
    let mut s = String::new();
    if bytes >= 1024 * 1024 * 1024 {
        let f = f64_of(bytes);
        push_one_decimal(&mut s, f, 30);
        push_str(&mut s, " GB");
    } else if bytes >= 1024 * 1024 {
        push_dec(&mut s, bytes / (1024 * 1024));
        push_str(&mut s, " MB");
    } else if bytes >= 1024 {
        push_dec(&mut s, bytes / 1024);
        push_str(&mut s, " KB");
    } else {
        push_dec(&mut s, bytes);
        push_str(&mut s, " B");
    }
    proof {
        assert(s@ =~= console_bytes_text(bytes as nat));
    }
    s
}


/// A source shown in a table: sources longer than 40 bytes are cut to
/// their first 37 bytes followed by `...`.
pub fn truncate_source(source: &str) -> (res: String)
    requires
        cuttable(source@, 40, 37),
    ensures
        res@ == shortened(source@, 40, 37),
{
    shorten(source, 40, 37)
}

/// A navigation link, marked `active` when it is the current page.
pub open spec fn nav_link_text(href: Seq<char>, label: Seq<char>, active_page: Seq<char>, page_id: Seq<char>) -> Seq<char> {
    "<a href=\""@ + href + "\" class=\""@ + (if active_page == page_id {
        "active"@
    } else {
        ""@
    }) + "\">"@ + label + "</a>"@
}

/// Renders a navigation link.
pub fn nav_link(href: &str, label: &str, active_page: &str, page_id: &str) -> (res: String)
    ensures
        res@ == nav_link_text(href@, label@, active_page@, page_id@),
{
    let class = if str_eq(active_page, page_id) {
        "active"
    } else {
        ""
    };
    let mut s = String::new();
    push_str(&mut s, "<a href=\"");
    push_str(&mut s, href);
    push_str(&mut s, "\" class=\"");
    push_str(&mut s, class);
    push_str(&mut s, "\">");
    push_str(&mut s, label);
    push_str(&mut s, "</a>");
    proof {
        assert(s@ =~= nav_link_text(href@, label@, active_page@, page_id@));
    }
    s
}

/// Whether a key can be masked: when longer than 16 bytes, its 12th byte
/// and its 4th byte from the end must end characters, as slicing a `str`
/// demands.
pub open spec fn maskable(k: Seq<char>) -> bool {
    &&& encode_utf8(k).len() <= usize::MAX
    &&& encode_utf8(k).len() > 16 ==> is_char_boundary(encode_utf8(k), 12) && is_char_boundary(
        encode_utf8(k),
        encode_utf8(k).len() - 4,
    )
}

/// How the settings page shows the session's API key: a key longer than
/// 16 bytes as its first 12 bytes, `...` and its last 4 bytes; a shorter
/// key whole; `\u{2014}` without a key.
pub open spec fn masked_key_text(key: Option<Seq<char>>) -> Seq<char> {
    match key {
        None => "\u{2014}"@,
        Some(k) => if encode_utf8(k).len() > 16 {
            decode_utf8(encode_utf8(k).take(12)) + "..."@ + decode_utf8(
                encode_utf8(k).skip(encode_utf8(k).len() - 4),
            )
        } else {
            k
        },
    }
}

/// Masks the session's API key for the settings page.
pub fn mask_api_key(key: Option<&str>) -> (res: String)
    requires
        key matches Some(k) ==> maskable(k@),
    ensures
        res@ == masked_key_text(
            match key {
                Some(k) => Some(k@),
                None => None,
            },
        ),
{
    match key {
        None => to_owned_str("\u{2014}"),
        Some(k) => {
            proof {
                assert(encode_utf8(k@) == k.spec_bytes());
            }
            if k.len() > 16 {
                let (a, _) = k.split_at(12);
                let (_, b) = k.split_at(k.len() - 4);
                let mut s = String::new();
                push_str(&mut s, a);
                push_str(&mut s, "...");
                push_str(&mut s, b);
                proof {
                    assert(encode_utf8(a@) == a.spec_bytes());
                    assert(encode_utf8(b@) == b.spec_bytes());
                    assert(a.spec_bytes() =~= k.spec_bytes().take(12));
                    assert(b.spec_bytes() =~= k.spec_bytes().skip(k.spec_bytes().len() - 4));
                    encode_utf8_decode_utf8(a@);
                    encode_utf8_decode_utf8(b@);
                    assert(s@ =~= a@ + "..."@ + b@);
                }
                s
            } else {
                to_owned_str(k)
            }
        },
    }
}

/// The value of the first cookie of a `Cookie` header whose trimmed
/// `name=value` entry starts with `prefix`: what follows the prefix.
pub open spec fn cookie_value_spec(s: Seq<char>, prefix: Seq<char>) -> Option<Seq<char>>
    decreases s.len(),
{
    if s.contains(';') {
        proof {
            s.index_of_first_ensures(';');
        }
        let i = s.index_of_first(';').unwrap();
        let t = trim(s.take(i));
        if starts_with(t, prefix) {
            Some(t.skip(prefix.len() as int))
        } else {
            cookie_value_spec(s.skip(i + 1), prefix)
        }
    } else {
        let t = trim(s);
        if starts_with(t, prefix) {
            Some(t.skip(prefix.len() as int))
        } else {
            None
        }
    }
}

/// Looks up a cookie in a `Cookie` header by its `name=` prefix.
pub fn cookie_value(header: &str, prefix: &str) -> (res: Option<String>)
    ensures
        match res {
            Some(v) => cookie_value_spec(header@, prefix@) == Some(v@),
            None => cookie_value_spec(header@, prefix@) is None,
        },
{
    let cs = chars_of(header);
    let pcs = chars_of(prefix);
    let n = cs.len();
    let mut pos: usize = 0;
    proof {
        assert(cs@.subrange(0, n as int) =~= cs@);
    }
    loop
        invariant
            n == cs@.len(),
            cs@ == header@,
            pcs@ == prefix@,
            pos <= n,
            cookie_value_spec(header@, prefix@) == cookie_value_spec(cs@.subrange(pos as int, n as int), prefix@),
        decreases n - pos,
    {
        let ghost rest = cs@.subrange(pos as int, n as int);
        let mut j = pos;
        while j < n && cs[j] != ';'
            invariant
                n == cs@.len(),
                pos <= j <= n,
                forall|k: int| pos <= k < j ==> cs@[k] != ';',
            decreases n - j,
        {
            j = j + 1;
        }
        proof {
            rest.index_of_first_ensures(';');
            if j < n {
                assert(rest[j - pos] == ';');
                assert(rest.contains(';'));
                assert(rest.index_of_first(';').unwrap() == j - pos);
                assert(rest.take(j - pos) =~= cs@.subrange(pos as int, j as int));
                assert(rest.skip(j - pos + 1) =~= cs@.subrange(j + 1, n as int));
            } else {
                assert(!rest.contains(';'));
                assert(rest =~= cs@.subrange(pos as int, j as int));
            }
        }
        let piece = string_of(&cs, pos, j);
        let t = trim_str(piece.as_str());
        let tc = chars_of(t.as_str());
        if matches_at(&tc, &pcs, 0) {
            proof {
                assert(starts_with(tc@, pcs@));
                assert(tc@.subrange(pcs@.len() as int, tc@.len() as int) =~= tc@.skip(pcs@.len() as int));
            }
            return Some(string_of(&tc, pcs.len(), tc.len()));
        }
        proof {
            assert(!starts_with(tc@, pcs@));
        }
        if j == n {
            return None;
        }
        pos = j + 1;
    }
}

/// The API key in the `wg_session` cookie, given the `Cookie` header if the
/// request has one.
pub fn extract_session_cookie(cookie_header: Option<&str>) -> (res: Option<String>)
    ensures
        match cookie_header {
            None => res is None,
            Some(h) => match res {
                Some(v) => cookie_value_spec(h@, "wg_session="@) == Some(v@),
                None => cookie_value_spec(h@, "wg_session="@) is None,
            },
        },
{
    match cookie_header {
        None => None,
        Some(h) => cookie_value(h, "wg_session="),
    }
}

/// The signed-in user of a console request: the user whose API key the
/// `wg_session` cookie holds; `None` (the request is sent to the login page)
/// when the cookie is missing or its key is unknown.
pub fn require_user(cookie_header: Option<&str>, auth: &AuthStore) -> (res: Option<User>)
    ensures
        match cookie_header {
            None => res is None,
            Some(h) => match cookie_value_spec(h@, "wg_session="@) {
                None => res is None,
                Some(k) => match auth.user_for_key(k) {
                    None => res is None,
                    Some(u) => res matches Some(r) && r@ == u,
                },
            },
        },
{
    let key = match extract_session_cookie(cookie_header) {
        Some(k) => k,
        None => return None,
    };
    auth.validate(key.as_str())
}

/// The style sheet of the console pages.
pub const CONSOLE_CSS: &'static str = r#"
    * { margin: 0; padding: 0; box-sizing: border-box; }
    body { background: #0f1117; color: #e2e8f0; font-family: -apple-system, BlinkMacSystemFont, 'Segoe UI', Roboto, monospace; }
    .layout { display: flex; min-height: 100vh; }
    .sidebar { width: 220px; background: #161822; border-right: 1px solid #2a2d3a; padding: 24px 0; flex-shrink: 0; }
    .sidebar .brand { padding: 0 20px 24px; border-bottom: 1px solid #2a2d3a; margin-bottom: 16px; }
    .sidebar .brand h1 { font-size: 18px; color: #818cf8; font-weight: 700; letter-spacing: -0.5px; }
    .sidebar .brand span { font-size: 11px; color: #64748b; }
    .sidebar nav a { display: block; padding: 10px 20px; color: #94a3b8; text-decoration: none; font-size: 14px; transition: all 0.15s; }
    .sidebar nav a:hover { color: #e2e8f0; background: #1e2030; }
    .sidebar nav a.active { color: #818cf8; background: #1e2030; border-right: 2px solid #818cf8; }
    .main { flex: 1; padding: 32px 40px; overflow-y: auto; }
    .main h2 { font-size: 22px; font-weight: 600; margin-bottom: 24px; }
    .card { background: #161822; border: 1px solid #2a2d3a; border-radius: 8px; padding: 20px; margin-bottom: 16px; }
    .card h3 { font-size: 14px; color: #64748b; text-transform: uppercase; letter-spacing: 0.5px; margin-bottom: 12px; }
    .stat { font-size: 32px; font-weight: 700; color: #818cf8; }
    .stat-label { font-size: 12px; color: #64748b; margin-top: 4px; }
    .grid-2 { display: grid; grid-template-columns: 1fr 1fr; gap: 16px; }
    .grid-3 { display: grid; grid-template-columns: 1fr 1fr 1fr; gap: 16px; }
    table { width: 100%; border-collapse: collapse; }
    th { text-align: left; padding: 10px 12px; color: #64748b; font-size: 12px; text-transform: uppercase; letter-spacing: 0.5px; border-bottom: 1px solid #2a2d3a; }
    td { padding: 12px; border-bottom: 1px solid #1e2030; font-size: 14px; }
    .badge { display: inline-block; padding: 2px 8px; border-radius: 4px; font-size: 11px; font-weight: 600; }
    .badge-green { background: #065f4620; color: #34d399; }
    .badge-yellow { background: #854d0e20; color: #fbbf24; }
    .badge-red { background: #7f1d1d20; color: #f87171; }
    .btn { display: inline-block; padding: 8px 16px; border-radius: 6px; font-size: 13px; font-weight: 600; cursor: pointer; border: none; text-decoration: none; transition: all 0.15s; }
    .btn-primary { background: #818cf8; color: #0f1117; }
    .btn-primary:hover { background: #6366f1; }
    .btn-danger { background: #f8717120; color: #f87171; border: 1px solid #f8717140; }
    .btn-danger:hover { background: #f8717140; }
    input, textarea { background: #1e2030; border: 1px solid #2a2d3a; border-radius: 6px; padding: 10px 14px; color: #e2e8f0; font-size: 14px; width: 100%; font-family: inherit; }
    input:focus, textarea:focus { outline: none; border-color: #818cf8; }
    label { display: block; font-size: 13px; color: #94a3b8; margin-bottom: 6px; }
    .form-group { margin-bottom: 16px; }
    .footer { padding: 16px 20px; color: #475569; font-size: 11px; border-top: 1px solid #2a2d3a; margin-top: auto; }
    .mono { font-family: 'SF Mono', 'Fira Code', monospace; font-size: 13px; }
    .text-muted { color: #64748b; }
    .text-green { color: #34d399; }
    .text-red { color: #f87171; }
    .mb-4 { margin-bottom: 16px; }
    .mt-2 { margin-top: 8px; }
    .flex { display: flex; }
    .items-center { align-items: center; }
    .justify-between { justify-content: space-between; }
    .gap-2 { gap: 8px; }
    .gap-4 { gap: 16px; }
"#;

/// The HTML of a console page: the layout with the style sheet, the
/// navigation (the active page marked), and `content` in the main area.
pub open spec fn page_shell_text(title: Seq<char>, active_page: Seq<char>, user_email: Seq<char>, content: Seq<char>) -> Seq<char> {
    r#"<!DOCTYPE html>
<html lang="en">
<head>
  <meta charset="utf-8">
  <meta name="viewport" content="width=device-width, initial-scale=1">
  <title>"#@
        + title
        + r#" — WarpGrid Console</title>
  <style>"#@
        + CONSOLE_CSS@
        + r#"</style>
</head>
<body>
  <div class="layout">
    <aside class="sidebar">
      <div class="brand">
        <h1>WarpGrid</h1>
        <span>Cloud Console</span>
      </div>
      <nav>
        "#@
        + nav_link_text("/console/"@, "Overview"@, active_page, "overview"@)
        + r#"
        "#@
        + nav_link_text("/console/deployments"@, "Deployments"@, active_page, "deployments"@)
        + r#"
        "#@
        + nav_link_text("/console/deploy"@, "Deploy"@, active_page, "deploy"@)
        + r#"
        "#@
        + nav_link_text("/console/teams"@, "Teams"@, active_page, "teams"@)
        + r#"
        "#@
        + nav_link_text("/console/settings"@, "Settings"@, active_page, "settings"@)
        + r#"
      </nav>
      <div class="footer">
        <div style="margin-bottom:8px;font-size:12px;color:#94a3b8">"#@
        + user_email
        + r#"</div>
        <form method="POST" action="/console/logout" style="display:inline">
          <button type="submit" class="btn btn-danger" style="padding:4px 10px;font-size:11px">Logout</button>
        </form>
        <div style="margin-top:12px">Served by WarpGrid</div>
      </div>
    </aside>
    <main class="main">
      "#@
        + content
        + r#"
    </main>
  </div>
</body>
</html>"#@
}

/// Renders a console page.
pub fn page_shell(title: &str, active_page: &str, user_email: &str, content: &str) -> (res: String)
    ensures
        res@ == page_shell_text(title@, active_page@, user_email@, content@),
{
    let mut s = String::new();
    push_str(&mut s, r#"<!DOCTYPE html>
<html lang="en">
<head>
  <meta charset="utf-8">
  <meta name="viewport" content="width=device-width, initial-scale=1">
  <title>"#);
    push_str(&mut s, title);
    push_str(&mut s, r#" — WarpGrid Console</title>
  <style>"#);
    push_str(&mut s, CONSOLE_CSS);
    push_str(&mut s, r#"</style>
</head>
<body>
  <div class="layout">
    <aside class="sidebar">
      <div class="brand">
        <h1>WarpGrid</h1>
        <span>Cloud Console</span>
      </div>
      <nav>
        "#);
    let l = nav_link("/console/", "Overview", active_page, "overview");
    push_str(&mut s, l.as_str());
    push_str(&mut s, r#"
        "#);
    let l = nav_link("/console/deployments", "Deployments", active_page, "deployments");
    push_str(&mut s, l.as_str());
    push_str(&mut s, r#"
        "#);
    let l = nav_link("/console/deploy", "Deploy", active_page, "deploy");
    push_str(&mut s, l.as_str());
    push_str(&mut s, r#"
        "#);
    let l = nav_link("/console/teams", "Teams", active_page, "teams");
    push_str(&mut s, l.as_str());
    push_str(&mut s, r#"
        "#);
    let l = nav_link("/console/settings", "Settings", active_page, "settings");
    push_str(&mut s, l.as_str());
    push_str(&mut s, r#"
      </nav>
      <div class="footer">
        <div style="margin-bottom:8px;font-size:12px;color:#94a3b8">"#);
    push_str(&mut s, user_email);
    push_str(&mut s, r#"</div>
        <form method="POST" action="/console/logout" style="display:inline">
          <button type="submit" class="btn btn-danger" style="padding:4px 10px;font-size:11px">Logout</button>
        </form>
        <div style="margin-top:12px">Served by WarpGrid</div>
      </div>
    </aside>
    <main class="main">
      "#);
    push_str(&mut s, content);
    push_str(&mut s, r#"
    </main>
  </div>
</body>
</html>"#);
    proof {
        assert(s@ =~= page_shell_text(title@, active_page@, user_email@, content@));
    }
    s
}

} // verus!
