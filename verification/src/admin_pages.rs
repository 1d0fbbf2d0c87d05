//! The pages of the admin dashboard, from the figures and rows that the
//! database gives: the overview, the node, user, deployment and metrics
//! tables, and the sign-in page.

use vstd::prelude::*;
use crate::admin::{admin_bytes_text, admin_page_shell, admin_page_shell_text, format_bytes_i64, format_epoch, ADMIN_CSS};
use crate::sys::utc_text;
use crate::text::{cuttable, dec_int, push_dec_i64, push_str, shorten, shortened, str_eq, to_owned_str};

verus! {

/// An instant as the admin tables show it: its UTC date and time, or `--`.
pub open spec fn epoch_text(epoch: int) -> Seq<char> {
    match utc_text(epoch) {
        Some(t) => t,
        None => "--"@,
    }
}

/// The overview page's content: the counts of users, teams, deployments and instances, and the nodes by region.
pub open spec fn overview_content_text(user_count: int, team_count: int, deployment_count: int, instance_count: int, nodes_by_region: Seq<char>) -> Seq<char> {
    r#"<h2>Overview</h2>
<div class="grid-4">
  <div class="card">
    <h3>Users</h3>
    <div class="stat">"#@
        + dec_int(user_count)
        + r#"</div>
    <div class="stat-label">registered</div>
  </div>
  <div class="card">
    <h3>Teams</h3>
    <div class="stat">"#@
        + dec_int(team_count)
        + r#"</div>
    <div class="stat-label">created</div>
  </div>
  <div class="card">
    <h3>Deployments</h3>
    <div class="stat">"#@
        + dec_int(deployment_count)
        + r#"</div>
    <div class="stat-label">total</div>
  </div>
  <div class="card">
    <h3>Instances</h3>
    <div class="stat">"#@
        + dec_int(instance_count)
        + r#"</div>
    <div class="stat-label">running</div>
  </div>
</div>

<div class="card" style="margin-top:8px">
  <h3>Nodes by Region</h3>
  "#@
        + nodes_by_region
        + r#"
</div>"#@
}

/// Renders the overview page's content.
pub fn overview_content(user_count: i64, team_count: i64, deployment_count: i64, instance_count: i64, nodes_by_region: &str) -> (res: String)
    ensures
        res@ == overview_content_text(user_count as int, team_count as int, deployment_count as int, instance_count as int, nodes_by_region@),
{
    let mut s = String::new();
    push_str(&mut s, r#"<h2>Overview</h2>
<div class="grid-4">
  <div class="card">
    <h3>Users</h3>
    <div class="stat">"#);
    push_dec_i64(&mut s, user_count);
    push_str(&mut s, r#"</div>
    <div class="stat-label">registered</div>
  </div>
  <div class="card">
    <h3>Teams</h3>
    <div class="stat">"#);
    push_dec_i64(&mut s, team_count);
    push_str(&mut s, r#"</div>
    <div class="stat-label">created</div>
  </div>
  <div class="card">
    <h3>Deployments</h3>
    <div class="stat">"#);
    push_dec_i64(&mut s, deployment_count);
    push_str(&mut s, r#"</div>
    <div class="stat-label">total</div>
  </div>
  <div class="card">
    <h3>Instances</h3>
    <div class="stat">"#);
    push_dec_i64(&mut s, instance_count);
    push_str(&mut s, r#"</div>
    <div class="stat-label">running</div>
  </div>
</div>

<div class="card" style="margin-top:8px">
  <h3>Nodes by Region</h3>
  "#);
    push_str(&mut s, nodes_by_region);
    push_str(&mut s, r#"
</div>"#);
    proof {
        assert(s@ =~= overview_content_text(user_count as int, team_count as int, deployment_count as int, instance_count as int, nodes_by_region@));
    }
    s
}

/// A row of the nodes-by-region table.
pub open spec fn region_row_text(region: Seq<char>, count: int) -> Seq<char> {
    r#"<tr><td class="mono">"#@
        + region
        + r#"</td><td>"#@
        + dec_int(count)
        + r#"</td><td><span class="badge badge-green">online</span></td></tr>"#@
}

/// Renders a row of the nodes-by-region table.
pub fn region_row(region: &str, count: i64) -> (res: String)
    ensures
        res@ == region_row_text(region@, count as int),
{
    let mut s = String::new();
    push_str(&mut s, r#"<tr><td class="mono">"#);
    push_str(&mut s, region);
    push_str(&mut s, r#"</td><td>"#);
    push_dec_i64(&mut s, count);
    push_str(&mut s, r#"</td><td><span class="badge badge-green">online</span></td></tr>"#);
    proof {
        assert(s@ =~= region_row_text(region@, count as int));
    }
    s
}

/// The nodes-by-region table around its rows.
pub open spec fn region_table_text(table_rows: Seq<char>) -> Seq<char> {
    r#"<table>
  <thead><tr><th>Region</th><th>Nodes</th><th>Status</th></tr></thead>
  <tbody>"#@
        + table_rows
        + r#"</tbody>
</table>"#@
}

/// Renders the nodes-by-region table around its rows.
pub fn region_table(table_rows: &str) -> (res: String)
    ensures
        res@ == region_table_text(table_rows@),
{
    let mut s = String::new();
    push_str(&mut s, r#"<table>
  <thead><tr><th>Region</th><th>Nodes</th><th>Status</th></tr></thead>
  <tbody>"#);
    push_str(&mut s, table_rows);
    push_str(&mut s, r#"</tbody>
</table>"#);
    proof {
        assert(s@ =~= region_table_text(table_rows@));
    }
    s
}

/// A row of the nodes table: sizes as the admin pages show them, the heartbeat as a UTC time.
pub open spec fn node_row_text(id: Seq<char>, region: Seq<char>, address: Seq<char>, used_mem: int, cap_mem: int, used_cpu: int, cap_cpu: int, heartbeat: int) -> Seq<char> {
    r#"<tr>
  <td class="mono">"#@
        + id
        + r#"</td>
  <td><span class="badge badge-green">"#@
        + region
        + r#"</span></td>
  <td class="mono">"#@
        + address
        + r#"</td>
  <td>"#@
        + admin_bytes_text(used_mem)
        + r#" / "#@
        + admin_bytes_text(cap_mem)
        + r#"</td>
  <td>"#@
        + dec_int(used_cpu)
        + r#" / "#@
        + dec_int(cap_cpu)
        + r#"</td>
  <td class="text-muted">"#@
        + epoch_text(heartbeat)
        + r#"</td>
</tr>"#@
}

/// Renders a row of the nodes table.
pub fn node_row(id: &str, region: &str, address: &str, used_mem: i64, cap_mem: i64, used_cpu: i64, cap_cpu: i64, heartbeat: i64) -> (res: String)
    ensures
        res@ == node_row_text(id@, region@, address@, used_mem as int, cap_mem as int, used_cpu as int, cap_cpu as int, heartbeat as int),
{
    let mut s = String::new();
    push_str(&mut s, r#"<tr>
  <td class="mono">"#);
    push_str(&mut s, id);
    push_str(&mut s, r#"</td>
  <td><span class="badge badge-green">"#);
    push_str(&mut s, region);
    push_str(&mut s, r#"</span></td>
  <td class="mono">"#);
    push_str(&mut s, address);
    push_str(&mut s, r#"</td>
  <td>"#);
    let t = format_bytes_i64(used_mem);
    push_str(&mut s, t.as_str());
    push_str(&mut s, r#" / "#);
    let t = format_bytes_i64(cap_mem);
    push_str(&mut s, t.as_str());
    push_str(&mut s, r#"</td>
  <td>"#);
    push_dec_i64(&mut s, used_cpu);
    push_str(&mut s, r#" / "#);
    push_dec_i64(&mut s, cap_cpu);
    push_str(&mut s, r#"</td>
  <td class="text-muted">"#);
    let t = format_epoch(heartbeat);
    push_str(&mut s, t.as_str());
    push_str(&mut s, r#"</td>
</tr>"#);
    proof {
        assert(s@ =~= node_row_text(id@, region@, address@, used_mem as int, cap_mem as int, used_cpu as int, cap_cpu as int, heartbeat as int));
    }
    s
}

/// A row of the users table.
pub open spec fn user_row_text(id: Seq<char>, email: Seq<char>, namespace: Seq<char>, created_at: int) -> Seq<char> {
    r#"<tr>
  <td class="mono">"#@
        + id
        + r#"</td>
  <td>"#@
        + email
        + r#"</td>
  <td class="mono" style="color:#00ff88">"#@
        + namespace
        + r#"</td>
  <td class="text-muted">"#@
        + epoch_text(created_at)
        + r#"</td>
</tr>"#@
}

/// Renders a row of the users table.
pub fn user_row(id: &str, email: &str, namespace: &str, created_at: i64) -> (res: String)
    ensures
        res@ == user_row_text(id@, email@, namespace@, created_at as int),
{
    let mut s = String::new();
    push_str(&mut s, r#"<tr>
  <td class="mono">"#);
    push_str(&mut s, id);
    push_str(&mut s, r#"</td>
  <td>"#);
    push_str(&mut s, email);
    push_str(&mut s, r#"</td>
  <td class="mono" style="color:#00ff88">"#);
    push_str(&mut s, namespace);
    push_str(&mut s, r#"</td>
  <td class="text-muted">"#);
    let t = format_epoch(created_at);
    push_str(&mut s, t.as_str());
    push_str(&mut s, r#"</td>
</tr>"#);
    proof {
        assert(s@ =~= user_row_text(id@, email@, namespace@, created_at as int));
    }
    s
}

/// The nodes page's content around the table rows.
pub open spec fn nodes_content_text(rows_html: Seq<char>) -> Seq<char> {
    r#"<h2>Nodes</h2>
<div class="card">
  <table>
    <thead>
      <tr>
        <th>ID</th>
        <th>Region</th>
        <th>Address</th>
        <th>Memory (Used / Cap)</th>
        <th>CPU (Used / Cap)</th>
        <th>Last Heartbeat</th>
      </tr>
    </thead>
    <tbody>"#@
        + rows_html
        + r#"</tbody>
  </table>
</div>"#@
}

/// Renders the nodes page's content.
pub fn nodes_content(rows_html: &str) -> (res: String)
    ensures
        res@ == nodes_content_text(rows_html@),
{
    let mut s = String::new();
    push_str(&mut s, r#"<h2>Nodes</h2>
<div class="card">
  <table>
    <thead>
      <tr>
        <th>ID</th>
        <th>Region</th>
        <th>Address</th>
        <th>Memory (Used / Cap)</th>
        <th>CPU (Used / Cap)</th>
        <th>Last Heartbeat</th>
      </tr>
    </thead>
    <tbody>"#);
    push_str(&mut s, rows_html);
    push_str(&mut s, r#"</tbody>
  </table>
</div>"#);
    proof {
        assert(s@ =~= nodes_content_text(rows_html@));
    }
    s
}

/// The users page's content around the table rows.
pub open spec fn users_content_text(rows_html: Seq<char>) -> Seq<char> {
    r#"<h2>Users</h2>
<div class="card">
  <table>
    <thead>
      <tr>
        <th>ID</th>
        <th>Email</th>
        <th>Namespace</th>
        <th>Created At</th>
      </tr>
    </thead>
    <tbody>"#@
        + rows_html
        + r#"</tbody>
  </table>
</div>"#@
}

/// Renders the users page's content.
pub fn users_content(rows_html: &str) -> (res: String)
    ensures
        res@ == users_content_text(rows_html@),
{
    let mut s = String::new();
    push_str(&mut s, r#"<h2>Users</h2>
<div class="card">
  <table>
    <thead>
      <tr>
        <th>ID</th>
        <th>Email</th>
        <th>Namespace</th>
        <th>Created At</th>
      </tr>
    </thead>
    <tbody>"#);
    push_str(&mut s, rows_html);
    push_str(&mut s, r#"</tbody>
  </table>
</div>"#);
    proof {
        assert(s@ =~= users_content_text(rows_html@));
    }
    s
}

/// The deployments page's content around the table rows.
pub open spec fn deployments_content_text(rows_html: Seq<char>) -> Seq<char> {
    r#"<h2>Deployments</h2>
<div class="card">
  <table>
    <thead>
      <tr>
        <th>ID</th>
        <th>Namespace</th>
        <th>Name</th>
        <th>Region</th>
        <th>Status</th>
        <th>Wasm Hash</th>
      </tr>
    </thead>
    <tbody>"#@
        + rows_html
        + r#"</tbody>
  </table>
</div>"#@
}

/// Renders the deployments page's content.
pub fn deployments_content(rows_html: &str) -> (res: String)
    ensures
        res@ == deployments_content_text(rows_html@),
{
    let mut s = String::new();
    push_str(&mut s, r#"<h2>Deployments</h2>
<div class="card">
  <table>
    <thead>
      <tr>
        <th>ID</th>
        <th>Namespace</th>
        <th>Name</th>
        <th>Region</th>
        <th>Status</th>
        <th>Wasm Hash</th>
      </tr>
    </thead>
    <tbody>"#);
    push_str(&mut s, rows_html);
    push_str(&mut s, r#"</tbody>
  </table>
</div>"#);
    proof {
        assert(s@ =~= deployments_content_text(rows_html@));
    }
    s
}

/// The metrics page's content around the table rows.
pub open spec fn metrics_content_text(rows_html: Seq<char>) -> Seq<char> {
    r#"<h2>Metrics</h2>
<p class="text-muted mb-4" style="font-size:13px">Latest metrics snapshot per deployment per region.</p>
<div class="card">
  <table>
    <thead>
      <tr>
        <th>Deployment</th>
        <th>Region</th>
        <th>RPS</th>
        <th>P50 (ms)</th>
        <th>P99 (ms)</th>
        <th>Error Rate</th>
      </tr>
    </thead>
    <tbody>"#@
        + rows_html
        + r#"</tbody>
  </table>
</div>"#@
}

/// Renders the metrics page's content.
pub fn metrics_content(rows_html: &str) -> (res: String)
    ensures
        res@ == metrics_content_text(rows_html@),
{
    let mut s = String::new();
    push_str(&mut s, r#"<h2>Metrics</h2>
<p class="text-muted mb-4" style="font-size:13px">Latest metrics snapshot per deployment per region.</p>
<div class="card">
  <table>
    <thead>
      <tr>
        <th>Deployment</th>
        <th>Region</th>
        <th>RPS</th>
        <th>P50 (ms)</th>
        <th>P99 (ms)</th>
        <th>Error Rate</th>
      </tr>
    </thead>
    <tbody>"#);
    push_str(&mut s, rows_html);
    push_str(&mut s, r#"</tbody>
  </table>
</div>"#);
    proof {
        assert(s@ =~= metrics_content_text(rows_html@));
    }
    s
}

/// The sign-in page.
pub open spec fn login_page_text() -> Seq<char> {
    r#"<!DOCTYPE html>
<html lang="en">
<head>
  <meta charset="utf-8">
  <meta name="viewport" content="width=device-width, initial-scale=1">
  <title>Login — WarpGrid Admin</title>
  <style>"#@
        + ADMIN_CSS@
        + r#"
    .login-container { display: flex; align-items: center; justify-content: center; min-height: 100vh; }
    .login-box { width: 400px; }
  </style>
</head>
<body>
  <div class="login-container">
    <div class="login-box">
      <div style="text-align:center;margin-bottom:32px">
        <h1 style="color:#00ff88;font-size:28px;margin-bottom:4px">WarpGrid Admin</h1>
        <span style="color:#666;font-size:14px">Platform Dashboard</span>
      </div>
      <div class="card">
        <h3>Admin Sign In</h3>
        <form method="POST" action="/admin/login">
          <div class="form-group">
            <label>Admin Key</label>
            <input type="password" name="api_key" placeholder="admin key or bootstrap API key" required autofocus>
          </div>
          <button type="submit" class="btn btn-primary" style="width:100%">Sign In</button>
        </form>
      </div>
      <div style="text-align:center;margin-top:16px;color:#444;font-size:11px">
        Served by WarpGrid
      </div>
    </div>
  </div>
</body>
</html>"#@
}

/// Renders the sign-in page.
pub fn login_page() -> (res: String)
    ensures
        res@ == login_page_text(),
{
    let mut s = String::new();
    push_str(&mut s, r#"<!DOCTYPE html>
<html lang="en">
<head>
  <meta charset="utf-8">
  <meta name="viewport" content="width=device-width, initial-scale=1">
  <title>Login — WarpGrid Admin</title>
  <style>"#);
    push_str(&mut s, ADMIN_CSS);
    push_str(&mut s, r#"
    .login-container { display: flex; align-items: center; justify-content: center; min-height: 100vh; }
    .login-box { width: 400px; }
  </style>
</head>
<body>
  <div class="login-container">
    <div class="login-box">
      <div style="text-align:center;margin-bottom:32px">
        <h1 style="color:#00ff88;font-size:28px;margin-bottom:4px">WarpGrid Admin</h1>
        <span style="color:#666;font-size:14px">Platform Dashboard</span>
      </div>
      <div class="card">
        <h3>Admin Sign In</h3>
        <form method="POST" action="/admin/login">
          <div class="form-group">
            <label>Admin Key</label>
            <input type="password" name="api_key" placeholder="admin key or bootstrap API key" required autofocus>
          </div>
          <button type="submit" class="btn btn-primary" style="width:100%">Sign In</button>
        </form>
      </div>
      <div style="text-align:center;margin-top:16px;color:#444;font-size:11px">
        Served by WarpGrid
      </div>
    </div>
  </div>
</body>
</html>"#);
    proof {
        assert(s@ =~= login_page_text());
    }
    s
}

/// The sign-in page after a refused key.
pub open spec fn login_failed_page_text() -> Seq<char> {
    r#"<!DOCTYPE html>
<html lang="en">
<head>
  <meta charset="utf-8">
  <meta name="viewport" content="width=device-width, initial-scale=1">
  <title>Login — WarpGrid Admin</title>
  <style>"#@
        + ADMIN_CSS@
        + r#"
    .login-container { display: flex; align-items: center; justify-content: center; min-height: 100vh; }
    .login-box { width: 400px; }
  </style>
</head>
<body>
  <div class="login-container">
    <div class="login-box">
      <div style="text-align:center;margin-bottom:32px">
        <h1 style="color:#00ff88;font-size:28px;margin-bottom:4px">WarpGrid Admin</h1>
        <span style="color:#666;font-size:14px">Platform Dashboard</span>
      </div>
      <div class="card">
        <div style="background:#ff444415;border:1px solid #ff444440;border-radius:6px;padding:10px 14px;margin-bottom:16px;color:#ff4444;font-size:13px">
          Invalid admin key. Please try again.
        </div>
        <h3>Admin Sign In</h3>
        <form method="POST" action="/admin/login">
          <div class="form-group">
            <label>Admin Key</label>
            <input type="password" name="api_key" placeholder="admin key or bootstrap API key" required autofocus>
          </div>
          <button type="submit" class="btn btn-primary" style="width:100%">Sign In</button>
        </form>
      </div>
      <div style="text-align:center;margin-top:16px;color:#444;font-size:11px">
        Served by WarpGrid
      </div>
    </div>
  </div>
</body>
</html>"#@
}

/// Renders the sign-in page after a refused key.
pub fn login_failed_page() -> (res: String)
    ensures
        res@ == login_failed_page_text(),
{
    let mut s = String::new();
    push_str(&mut s, r#"<!DOCTYPE html>
<html lang="en">
<head>
  <meta charset="utf-8">
  <meta name="viewport" content="width=device-width, initial-scale=1">
  <title>Login — WarpGrid Admin</title>
  <style>"#);
    push_str(&mut s, ADMIN_CSS);
    push_str(&mut s, r#"
    .login-container { display: flex; align-items: center; justify-content: center; min-height: 100vh; }
    .login-box { width: 400px; }
  </style>
</head>
<body>
  <div class="login-container">
    <div class="login-box">
      <div style="text-align:center;margin-bottom:32px">
        <h1 style="color:#00ff88;font-size:28px;margin-bottom:4px">WarpGrid Admin</h1>
        <span style="color:#666;font-size:14px">Platform Dashboard</span>
      </div>
      <div class="card">
        <div style="background:#ff444415;border:1px solid #ff444440;border-radius:6px;padding:10px 14px;margin-bottom:16px;color:#ff4444;font-size:13px">
          Invalid admin key. Please try again.
        </div>
        <h3>Admin Sign In</h3>
        <form method="POST" action="/admin/login">
          <div class="form-group">
            <label>Admin Key</label>
            <input type="password" name="api_key" placeholder="admin key or bootstrap API key" required autofocus>
          </div>
          <button type="submit" class="btn btn-primary" style="width:100%">Sign In</button>
        </form>
      </div>
      <div style="text-align:center;margin-top:16px;color:#444;font-size:11px">
        Served by WarpGrid
      </div>
    </div>
  </div>
</body>
</html>"#);
    proof {
        assert(s@ =~= login_failed_page_text());
    }
    s
}

/// A row of the deployments table: the status as a badge, the hash cut to 12 bytes.
pub open spec fn deployment_row_text(id: Seq<char>, namespace: Seq<char>, name: Seq<char>, region: Seq<char>, status: Seq<char>, wasm_hash: Seq<char>) -> Seq<char> {
    r#"<tr>
  <td class="mono">"#@
        + id
        + r#"</td>
  <td class="mono" style="color:#00ff88">"#@
        + namespace
        + r#"</td>
  <td>"#@
        + name
        + r#"</td>
  <td><span class="badge badge-green">"#@
        + region
        + r#"</span></td>
  <td>"#@
        + status_badge_text(status)
        + r#"</td>
  <td class="mono text-muted">"#@
        + shortened(wasm_hash, 12, 12)
        + r#"</td>
</tr>"#@
}

/// Renders a row of the deployments table.
pub fn deployment_row(id: &str, namespace: &str, name: &str, region: &str, status: &str, wasm_hash: &str) -> (res: String)
    requires
        cuttable(wasm_hash@, 12, 12),
    ensures
        res@ == deployment_row_text(id@, namespace@, name@, region@, status@, wasm_hash@),
{
    let mut s = String::new();
    push_str(&mut s, r#"<tr>
  <td class="mono">"#);
    push_str(&mut s, id);
    push_str(&mut s, r#"</td>
  <td class="mono" style="color:#00ff88">"#);
    push_str(&mut s, namespace);
    push_str(&mut s, r#"</td>
  <td>"#);
    push_str(&mut s, name);
    push_str(&mut s, r#"</td>
  <td><span class="badge badge-green">"#);
    push_str(&mut s, region);
    push_str(&mut s, r#"</span></td>
  <td>"#);
    push_str(&mut s, status_badge(status));
    push_str(&mut s, r#"</td>
  <td class="mono text-muted">"#);
    let h = shorten(wasm_hash, 12, 12);
    push_str(&mut s, h.as_str());
    push_str(&mut s, r#"</td>
</tr>"#);
    proof {
        assert(s@ =~= deployment_row_text(id@, namespace@, name@, region@, status@, wasm_hash@));
    }
    s
}

/// How a deployment's status is shown: as a colored badge, `unknown` for
/// a status other than `active`, `stopped` and `error`.
pub open spec fn status_badge_text(status: Seq<char>) -> Seq<char> {
    if status == "active"@ {
        r#"<span class="badge badge-green">active</span>"#@
    } else if status == "stopped"@ {
        r#"<span class="badge badge-gray">stopped</span>"#@
    } else if status == "error"@ {
        r#"<span class="badge badge-red">error</span>"#@
    } else {
        r#"<span class="badge badge-yellow">unknown</span>"#@
    }
}

/// The badge of a deployment's status.
pub fn status_badge(status: &str) -> (res: &'static str)
    ensures
        res@ == status_badge_text(status@),
{
    if str_eq(status, "active") {
        r#"<span class="badge badge-green">active</span>"#
    } else if str_eq(status, "stopped") {
        r#"<span class="badge badge-gray">stopped</span>"#
    } else if str_eq(status, "error") {
        r#"<span class="badge badge-red">error</span>"#
    } else {
        r#"<span class="badge badge-yellow">unknown</span>"#
    }
}

/// The number of nodes in a region.
pub struct RegionCount {
    pub region: String,
    pub count: i64,
}

/// A node as the nodes table lists it.
pub struct NodeListing {
    pub id: String,
    pub region: String,
    pub address: String,
    pub capacity_memory_bytes: i64,
    pub capacity_cpu_weight: i64,
    pub used_memory_bytes: i64,
    pub used_cpu_weight: i64,
    pub last_heartbeat: i64,
}

/// A user as the users table lists it.
pub struct UserListing {
    pub id: String,
    pub email: String,
    pub namespace: String,
    pub created_at: i64,
}

/// A deployment as the deployments table lists it.
pub struct DeploymentListing {
    pub id: String,
    pub namespace: String,
    pub name: String,
    pub region: String,
    pub status: String,
    pub wasm_hash: String,
}

/// The rows of the nodes-by-region table.
pub open spec fn region_rows_text(rows: Seq<RegionCount>) -> Seq<char>
    decreases rows.len(),
{
    if rows.len() == 0 {
        Seq::empty()
    } else {
        region_rows_text(rows.drop_last()) + region_row_text(rows.last().region@, rows.last().count as int)
    }
}

/// The nodes-by-region summary: a table of the regions, or a note that no
/// node is registered.
pub open spec fn nodes_by_region_text(rows: Seq<RegionCount>) -> Seq<char> {
    if rows.len() == 0 {
        r#"<div style="color:#666;padding:16px">No nodes registered yet.</div>"#@
    } else {
        region_table_text(region_rows_text(rows))
    }
}

/// Renders the nodes-by-region summary.
pub fn nodes_by_region_html(rows: &Vec<RegionCount>) -> (res: String)
    ensures
        res@ == nodes_by_region_text(rows@),
{
    if rows.len() == 0 {
        return to_owned_str(r#"<div style="color:#666;padding:16px">No nodes registered yet.</div>"#);
    }
    let mut acc = String::new();
    let mut i: usize = 0;
    while i < rows.len()
        invariant
            i <= rows@.len(),
            acc@ == region_rows_text(rows@.take(i as int)),
        decreases rows@.len() - i,
    {
        proof {
            assert(rows@.take(i + 1).drop_last() =~= rows@.take(i as int));
        }
        let r = region_row(rows[i].region.as_str(), rows[i].count);
        push_str(&mut acc, r.as_str());
        i = i + 1;
    }
    proof {
        assert(rows@.take(i as int) =~= rows@);
    }
    region_table(acc.as_str())
}

/// The rows of the nodes table.
pub open spec fn node_rows_text(rows: Seq<NodeListing>) -> Seq<char>
    decreases rows.len(),
{
    if rows.len() == 0 {
        Seq::empty()
    } else {
        let n = rows.last();
        node_rows_text(rows.drop_last()) + node_row_text(
            n.id@,
            n.region@,
            n.address@,
            n.used_memory_bytes as int,
            n.capacity_memory_bytes as int,
            n.used_cpu_weight as int,
            n.capacity_cpu_weight as int,
            n.last_heartbeat as int,
        )
    }
}

/// The body of the nodes table: a row per node, or a note that none is
/// registered.
pub open spec fn nodes_table_text(rows: Seq<NodeListing>) -> Seq<char> {
    if rows.len() == 0 {
        r#"<tr><td colspan="6" style="color:#666;text-align:center;padding:24px">No nodes registered.</td></tr>"#@
    } else {
        node_rows_text(rows)
    }
}

/// Renders the body of the nodes table.
pub fn nodes_table_html(rows: &Vec<NodeListing>) -> (res: String)
    ensures
        res@ == nodes_table_text(rows@),
{
    if rows.len() == 0 {
        return to_owned_str(
            r#"<tr><td colspan="6" style="color:#666;text-align:center;padding:24px">No nodes registered.</td></tr>"#,
        );
    }
    let mut acc = String::new();
    let mut i: usize = 0;
    while i < rows.len()
        invariant
            i <= rows@.len(),
            acc@ == node_rows_text(rows@.take(i as int)),
        decreases rows@.len() - i,
    {
        proof {
            assert(rows@.take(i + 1).drop_last() =~= rows@.take(i as int));
        }
        let n = &rows[i];
        let r = node_row(
            n.id.as_str(),
            n.region.as_str(),
            n.address.as_str(),
            n.used_memory_bytes,
            n.capacity_memory_bytes,
            n.used_cpu_weight,
            n.capacity_cpu_weight,
            n.last_heartbeat,
        );
        push_str(&mut acc, r.as_str());
        i = i + 1;
    }
    proof {
        assert(rows@.take(i as int) =~= rows@);
    }
    acc
}

/// The rows of the users table.
pub open spec fn user_rows_text(rows: Seq<UserListing>) -> Seq<char>
    decreases rows.len(),
{
    if rows.len() == 0 {
        Seq::empty()
    } else {
        let u = rows.last();
        user_rows_text(rows.drop_last()) + user_row_text(u.id@, u.email@, u.namespace@, u.created_at as int)
    }
}

/// The body of the users table: a row per user, or a note that none is
/// registered.
pub open spec fn users_table_text(rows: Seq<UserListing>) -> Seq<char> {
    if rows.len() == 0 {
        r#"<tr><td colspan="4" style="color:#666;text-align:center;padding:24px">No users registered.</td></tr>"#@
    } else {
        user_rows_text(rows)
    }
}

/// Renders the body of the users table.
pub fn users_table_html(rows: &Vec<UserListing>) -> (res: String)
    ensures
        res@ == users_table_text(rows@),
{
    if rows.len() == 0 {
        return to_owned_str(
            r#"<tr><td colspan="4" style="color:#666;text-align:center;padding:24px">No users registered.</td></tr>"#,
        );
    }
    let mut acc = String::new();
    let mut i: usize = 0;
    while i < rows.len()
        invariant
            i <= rows@.len(),
            acc@ == user_rows_text(rows@.take(i as int)),
        decreases rows@.len() - i,
    {
        proof {
            assert(rows@.take(i + 1).drop_last() =~= rows@.take(i as int));
        }
        let u = &rows[i];
        let r = user_row(u.id.as_str(), u.email.as_str(), u.namespace.as_str(), u.created_at);
        push_str(&mut acc, r.as_str());
        i = i + 1;
    }
    proof {
        assert(rows@.take(i as int) =~= rows@);
    }
    acc
}

/// The rows of the deployments table.
pub open spec fn deployment_rows_text(rows: Seq<DeploymentListing>) -> Seq<char>
    decreases rows.len(),
{
    if rows.len() == 0 {
        Seq::empty()
    } else {
        let d = rows.last();
        deployment_rows_text(rows.drop_last()) + deployment_row_text(
            d.id@,
            d.namespace@,
            d.name@,
            d.region@,
            d.status@,
            d.wasm_hash@,
        )
    }
}

/// The body of the deployments table: a row per deployment, or a note that
/// none was found.
pub open spec fn deployments_table_text(rows: Seq<DeploymentListing>) -> Seq<char> {
    if rows.len() == 0 {
        r#"<tr><td colspan="6" style="color:#666;text-align:center;padding:24px">No deployments found.</td></tr>"#@
    } else {
        deployment_rows_text(rows)
    }
}

/// Every listed hash can be cut to 12 bytes (a hex digest always can).
pub open spec fn hashes_cuttable(rows: Seq<DeploymentListing>) -> bool {
    forall|i: int| 0 <= i < rows.len() ==> cuttable((#[trigger] rows[i]).wasm_hash@, 12, 12)
}

/// Renders the body of the deployments table.
pub fn deployments_table_html(rows: &Vec<DeploymentListing>) -> (res: String)
    requires
        hashes_cuttable(rows@),
    ensures
        res@ == deployments_table_text(rows@),
{
    if rows.len() == 0 {
        return to_owned_str(
            r#"<tr><td colspan="6" style="color:#666;text-align:center;padding:24px">No deployments found.</td></tr>"#,
        );
    }
    let mut acc = String::new();
    let mut i: usize = 0;
    while i < rows.len()
        invariant
            i <= rows@.len(),
            hashes_cuttable(rows@),
            acc@ == deployment_rows_text(rows@.take(i as int)),
        decreases rows@.len() - i,
    {
        proof {
            assert(rows@.take(i + 1).drop_last() =~= rows@.take(i as int));
        }
        let d = &rows[i];
        proof {
            assert(cuttable(rows@[i as int].wasm_hash@, 12, 12));
        }
        let r = deployment_row(
            d.id.as_str(),
            d.namespace.as_str(),
            d.name.as_str(),
            d.region.as_str(),
            d.status.as_str(),
            d.wasm_hash.as_str(),
        );
        push_str(&mut acc, r.as_str());
        i = i + 1;
    }
    proof {
        assert(rows@.take(i as int) =~= rows@);
    }
    acc
}

/// The overview page: the counts and the nodes by region.
pub fn overview_page(
    user_count: i64,
    team_count: i64,
    deployment_count: i64,
    instance_count: i64,
    regions: &Vec<RegionCount>,
) -> (res: String)
    ensures
        res@ == admin_page_shell_text(
            "Overview"@,
            "overview"@,
            overview_content_text(
                user_count as int,
                team_count as int,
                deployment_count as int,
                instance_count as int,
                nodes_by_region_text(regions@),
            ),
        ),
{
    let by_region = nodes_by_region_html(regions);
    let c = overview_content(user_count, team_count, deployment_count, instance_count, by_region.as_str());
    admin_page_shell("Overview", "overview", c.as_str())
}

/// The nodes page.
pub fn nodes_page(rows: &Vec<NodeListing>) -> (res: String)
    ensures
        res@ == admin_page_shell_text("Nodes"@, "nodes"@, nodes_content_text(nodes_table_text(rows@))),
{
    let t = nodes_table_html(rows);
    let c = nodes_content(t.as_str());
    admin_page_shell("Nodes", "nodes", c.as_str())
}

/// The users page.
pub fn users_page(rows: &Vec<UserListing>) -> (res: String)
    ensures
        res@ == admin_page_shell_text("Users"@, "users"@, users_content_text(users_table_text(rows@))),
{
    let t = users_table_html(rows);
    let c = users_content(t.as_str());
    admin_page_shell("Users", "users", c.as_str())
}

/// The deployments page.
pub fn deployments_page(rows: &Vec<DeploymentListing>) -> (res: String)
    requires
        hashes_cuttable(rows@),
    ensures
        res@ == admin_page_shell_text(
            "Deployments"@,
            "deployments"@,
            deployments_content_text(deployments_table_text(rows@)),
        ),
{
    let t = deployments_table_html(rows);
    let c = deployments_content(t.as_str());
    admin_page_shell("Deployments", "deployments", c.as_str())
}

/// The metrics page around the rows of its table, which show
/// floating-point figures and are rendered where they are read.
pub fn metrics_page(rows_html: &str) -> (res: String)
    ensures
        res@ == admin_page_shell_text("Metrics"@, "metrics"@, metrics_content_text(rows_html@)),
{
    let c = metrics_content(rows_html);
    admin_page_shell("Metrics", "metrics", c.as_str())
}

} // verus!
