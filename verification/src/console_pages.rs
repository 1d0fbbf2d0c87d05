//! The pages of the customer console, from the signed-in user, the
//! deployments with their instances, and the session cookie: overview,
//! deployments, deploy form, teams, settings and sign-in.
//!
//! A user sees the deployments of their own namespace only.

use vstd::prelude::*;
use crate::auth::User;
use crate::console::{
    console_bytes_text, cookie_value_spec, extract_session_cookie, format_bytes, mask_api_key,
    maskable, masked_key_text, page_shell, page_shell_text, truncate_source, CONSOLE_CSS,
};
use crate::dashboard::InstanceState;
use crate::text::{cuttable, dec, push_dec, push_str, shortened, str_eq, to_owned_str};
use crate::views::{count_running, running_count, DeploymentSpec};

verus! {

/// The overview page's content: the deployment and instance counts and the recent deployments.
pub open spec fn overview_content_text(deployment_count: nat, namespace: Seq<char>, running_instances: nat, total_instances: nat, deployments_table: Seq<char>) -> Seq<char> {
    r#"<h2>Overview</h2>
<div class="grid-3">
  <div class="card">
    <h3>Deployments</h3>
    <div class="stat">"#@
        + dec(deployment_count)
        + r#"</div>
    <div class="stat-label">in namespace <span class="mono">"#@
        + namespace
        + r#"</span></div>
  </div>
  <div class="card">
    <h3>Instances</h3>
    <div class="stat">"#@
        + dec(running_instances)
        + r#"<span style="font-size:16px;color:#64748b"> / "#@
        + dec(total_instances)
        + r#"</span></div>
    <div class="stat-label">running / total</div>
  </div>
  <div class="card">
    <h3>Region Status</h3>
    <div class="stat text-green" style="font-size:18px">Operational</div>
    <div class="stat-label">iad (primary)</div>
  </div>
</div>

<div class="card" style="margin-top:8px">
  <h3>Recent Deployments</h3>
  "#@
        + deployments_table
        + r#"
</div>"#@
}

/// Renders the overview page's content.
pub fn overview_content(deployment_count: usize, namespace: &str, running_instances: usize, total_instances: usize, deployments_table: &str) -> (res: String)
    ensures
        res@ == overview_content_text(deployment_count as nat, namespace@, running_instances as nat, total_instances as nat, deployments_table@),
{
    let mut s = String::new();
    push_str(&mut s, r#"<h2>Overview</h2>
<div class="grid-3">
  <div class="card">
    <h3>Deployments</h3>
    <div class="stat">"#);
    push_dec(&mut s, deployment_count as u64);
    push_str(&mut s, r#"</div>
    <div class="stat-label">in namespace <span class="mono">"#);
    push_str(&mut s, namespace);
    push_str(&mut s, r#"</span></div>
  </div>
  <div class="card">
    <h3>Instances</h3>
    <div class="stat">"#);
    push_dec(&mut s, running_instances as u64);
    push_str(&mut s, r#"<span style="font-size:16px;color:#64748b"> / "#);
    push_dec(&mut s, total_instances as u64);
    push_str(&mut s, r#"</span></div>
    <div class="stat-label">running / total</div>
  </div>
  <div class="card">
    <h3>Region Status</h3>
    <div class="stat text-green" style="font-size:18px">Operational</div>
    <div class="stat-label">iad (primary)</div>
  </div>
</div>

<div class="card" style="margin-top:8px">
  <h3>Recent Deployments</h3>
  "#);
    push_str(&mut s, deployments_table);
    push_str(&mut s, r#"
</div>"#);
    proof {
        assert(s@ =~= overview_content_text(deployment_count as nat, namespace@, running_instances as nat, total_instances as nat, deployments_table@));
    }
    s
}

/// A row of the deployments page: name, running and allowed instances, shortened source, and the redeploy and delete actions.
pub open spec fn deployment_row_text(name: Seq<char>, running: nat, max: nat, source: Seq<char>, id: Seq<char>) -> Seq<char> {
    r#"<tr>
  <td class="mono">"#@
        + name
        + r#"</td>
  <td><span class="badge badge-green">running</span></td>
  <td>"#@
        + dec(running)
        + r#" / "#@
        + dec(max)
        + r#"</td>
  <td class="mono text-muted">"#@
        + shortened(source, 40, 37)
        + r#"</td>
  <td>
    <a href="/console/deploy" class="btn btn-primary" style="padding:4px 10px;font-size:11px;margin-right:4px">Redeploy</a>
    <form method="POST" action="/api/v1/cloud/deploy/"#@
        + id
        + r#"" style="display:inline">
      <button type="submit" class="btn btn-danger" style="padding:4px 10px;font-size:11px">Delete</button>
    </form>
  </td>
</tr>"#@
}

/// Renders a row of the deployments page.
pub fn deployment_row(name: &str, running: usize, max: u32, source: &str, id: &str) -> (res: String)
    requires
        cuttable(source@, 40, 37),
    ensures
        res@ == deployment_row_text(name@, running as nat, max as nat, source@, id@),
{
    let mut s = String::new();
    push_str(&mut s, r#"<tr>
  <td class="mono">"#);
    push_str(&mut s, name);
    push_str(&mut s, r#"</td>
  <td><span class="badge badge-green">running</span></td>
  <td>"#);
    push_dec(&mut s, running as u64);
    push_str(&mut s, r#" / "#);
    push_dec(&mut s, max as u64);
    push_str(&mut s, r#"</td>
  <td class="mono text-muted">"#);
    let src = truncate_source(source);
    push_str(&mut s, src.as_str());
    push_str(&mut s, r#"</td>
  <td>
    <a href="/console/deploy" class="btn btn-primary" style="padding:4px 10px;font-size:11px;margin-right:4px">Redeploy</a>
    <form method="POST" action="/api/v1/cloud/deploy/"#);
    push_str(&mut s, id);
    push_str(&mut s, r#"" style="display:inline">
      <button type="submit" class="btn btn-danger" style="padding:4px 10px;font-size:11px">Delete</button>
    </form>
  </td>
</tr>"#);
    proof {
        assert(s@ =~= deployment_row_text(name@, running as nat, max as nat, source@, id@));
    }
    s
}

/// The deployments page's content around its rows and empty-state note.
pub open spec fn deployments_content_text(rows: Seq<char>, empty_state: Seq<char>) -> Seq<char> {
    r#"<div class="flex justify-between items-center mb-4">
  <h2>Deployments</h2>
  <a href="/console/deploy" class="btn btn-primary">New Deployment</a>
</div>
<div class="card">
  <table>
    <thead>
      <tr>
        <th>Name</th>
        <th>Status</th>
        <th>Instances</th>
        <th>Source</th>
        <th>Actions</th>
      </tr>
    </thead>
    <tbody>"#@
        + rows
        + r#"</tbody>
  </table>
  "#@
        + empty_state
        + r#"
</div>"#@
}

/// Renders the deployments page's content.
pub fn deployments_content(rows: &str, empty_state: &str) -> (res: String)
    ensures
        res@ == deployments_content_text(rows@, empty_state@),
{
    let mut s = String::new();
    push_str(&mut s, r#"<div class="flex justify-between items-center mb-4">
  <h2>Deployments</h2>
  <a href="/console/deploy" class="btn btn-primary">New Deployment</a>
</div>
<div class="card">
  <table>
    <thead>
      <tr>
        <th>Name</th>
        <th>Status</th>
        <th>Instances</th>
        <th>Source</th>
        <th>Actions</th>
      </tr>
    </thead>
    <tbody>"#);
    push_str(&mut s, rows);
    push_str(&mut s, r#"</tbody>
  </table>
  "#);
    push_str(&mut s, empty_state);
    push_str(&mut s, r#"
</div>"#);
    proof {
        assert(s@ =~= deployments_content_text(rows@, empty_state@));
    }
    s
}

/// The deploy page's content: the upload form, with the namespace and the instance limit.
pub open spec fn deploy_content_text(namespace: Seq<char>, max_per_deployment: nat) -> Seq<char> {
    r#"<h2>Deploy</h2>
<div class="card">
  <h3>Deploy a Wasm Component</h3>
  <p class="text-muted" style="margin-bottom:20px;font-size:14px">
    Upload a compiled <code>.wasm</code> component or provide a URL to deploy.
    Deployments run in namespace <span class="mono" style="color:#818cf8">"#@
        + namespace
        + r#"</span>.
  </p>
  <form method="POST" action="/api/v1/cloud/deploy" enctype="multipart/form-data">
    <div class="grid-2">
      <div>
        <div class="form-group">
          <label>Deployment Name</label>
          <input type="text" name="name" placeholder="my-app" required>
        </div>
        <div class="form-group">
          <label>Wasm Source URL</label>
          <input type="url" name="source_url" placeholder="https://example.com/app.wasm">
        </div>
        <div class="form-group">
          <label>Or Upload .wasm File</label>
          <input type="file" name="wasm_file" accept=".wasm" style="padding:8px">
        </div>
      </div>
      <div>
        <div class="form-group">
          <label>Min Instances</label>
          <input type="number" name="min_instances" value="1" min="0" max="10">
        </div>
        <div class="form-group">
          <label>Max Instances</label>
          <input type="number" name="max_instances" value="3" min="1" max=""#@
        + dec(max_per_deployment)
        + r#"">
        </div>
        <div class="form-group">
          <label>Memory Limit</label>
          <input type="text" name="memory" value="64MB" placeholder="64MB">
        </div>
      </div>
    </div>
    <div class="form-group">
      <label>Environment Variables (KEY=VALUE, one per line)</label>
      <textarea name="env_vars" rows="3" placeholder="DATABASE_URL=postgres://..."></textarea>
    </div>
    <button type="submit" class="btn btn-primary">Deploy</button>
  </form>
</div>"#@
}

/// Renders the deploy page's content.
pub fn deploy_content(namespace: &str, max_per_deployment: u32) -> (res: String)
    ensures
        res@ == deploy_content_text(namespace@, max_per_deployment as nat),
{
    let mut s = String::new();
    push_str(&mut s, r#"<h2>Deploy</h2>
<div class="card">
  <h3>Deploy a Wasm Component</h3>
  <p class="text-muted" style="margin-bottom:20px;font-size:14px">
    Upload a compiled <code>.wasm</code> component or provide a URL to deploy.
    Deployments run in namespace <span class="mono" style="color:#818cf8">"#);
    push_str(&mut s, namespace);
    push_str(&mut s, r#"</span>.
  </p>
  <form method="POST" action="/api/v1/cloud/deploy" enctype="multipart/form-data">
    <div class="grid-2">
      <div>
        <div class="form-group">
          <label>Deployment Name</label>
          <input type="text" name="name" placeholder="my-app" required>
        </div>
        <div class="form-group">
          <label>Wasm Source URL</label>
          <input type="url" name="source_url" placeholder="https://example.com/app.wasm">
        </div>
        <div class="form-group">
          <label>Or Upload .wasm File</label>
          <input type="file" name="wasm_file" accept=".wasm" style="padding:8px">
        </div>
      </div>
      <div>
        <div class="form-group">
          <label>Min Instances</label>
          <input type="number" name="min_instances" value="1" min="0" max="10">
        </div>
        <div class="form-group">
          <label>Max Instances</label>
          <input type="number" name="max_instances" value="3" min="1" max=""#);
    push_dec(&mut s, max_per_deployment as u64);
    push_str(&mut s, r#"">
        </div>
        <div class="form-group">
          <label>Memory Limit</label>
          <input type="text" name="memory" value="64MB" placeholder="64MB">
        </div>
      </div>
    </div>
    <div class="form-group">
      <label>Environment Variables (KEY=VALUE, one per line)</label>
      <textarea name="env_vars" rows="3" placeholder="DATABASE_URL=postgres://..."></textarea>
    </div>
    <button type="submit" class="btn btn-primary">Deploy</button>
  </form>
</div>"#);
    proof {
        assert(s@ =~= deploy_content_text(namespace@, max_per_deployment as nat));
    }
    s
}

/// The teams page's content: the signed-in user as owner, and the invite form.
pub open spec fn teams_content_text(email: Seq<char>, namespace: Seq<char>) -> Seq<char> {
    r#"<h2>Teams</h2>
<div class="card">
  <h3>Team Members</h3>
  <table>
    <thead>
      <tr>
        <th>Email</th>
        <th>Role</th>
        <th>Joined</th>
      </tr>
    </thead>
    <tbody>
      <tr>
        <td>"#@
        + email
        + r#"</td>
        <td><span class="badge badge-green">Owner</span></td>
        <td class="text-muted">—</td>
      </tr>
    </tbody>
  </table>
</div>
<div class="card">
  <h3>Invite Member</h3>
  <p class="text-muted" style="margin-bottom:16px;font-size:14px">
    Team management is coming soon. Members will share the
    <span class="mono" style="color:#818cf8">"#@
        + namespace
        + r#"</span> namespace.
  </p>
  <div class="flex gap-2">
    <input type="email" placeholder="teammate@company.com" disabled style="opacity:0.5">
    <button class="btn btn-primary" disabled style="opacity:0.5;white-space:nowrap">Invite</button>
  </div>
</div>"#@
}

/// Renders the teams page's content.
pub fn teams_content(email: &str, namespace: &str) -> (res: String)
    ensures
        res@ == teams_content_text(email@, namespace@),
{
    let mut s = String::new();
    push_str(&mut s, r#"<h2>Teams</h2>
<div class="card">
  <h3>Team Members</h3>
  <table>
    <thead>
      <tr>
        <th>Email</th>
        <th>Role</th>
        <th>Joined</th>
      </tr>
    </thead>
    <tbody>
      <tr>
        <td>"#);
    push_str(&mut s, email);
    push_str(&mut s, r#"</td>
        <td><span class="badge badge-green">Owner</span></td>
        <td class="text-muted">—</td>
      </tr>
    </tbody>
  </table>
</div>
<div class="card">
  <h3>Invite Member</h3>
  <p class="text-muted" style="margin-bottom:16px;font-size:14px">
    Team management is coming soon. Members will share the
    <span class="mono" style="color:#818cf8">"#);
    push_str(&mut s, namespace);
    push_str(&mut s, r#"</span> namespace.
  </p>
  <div class="flex gap-2">
    <input type="email" placeholder="teammate@company.com" disabled style="opacity:0.5">
    <button class="btn btn-primary" disabled style="opacity:0.5;white-space:nowrap">Invite</button>
  </div>
</div>"#);
    proof {
        assert(s@ =~= teams_content_text(email@, namespace@));
    }
    s
}

/// The settings page's content: the masked API key, the namespace and the quotas.
pub open spec fn settings_content_text(api_key_display: Seq<char>, namespace: Seq<char>, max_deployments: nat, max_instances: nat, max_wasm_size: nat, max_memory: nat, max_rps: nat) -> Seq<char> {
    r#"<h2>Settings</h2>
<div class="grid-2">
  <div class="card">
    <h3>API Key</h3>
    <div class="mono" style="background:#1e2030;padding:12px;border-radius:6px;margin-bottom:8px;word-break:break-all">"#@
        + api_key_display
        + r#"</div>
    <p class="text-muted" style="font-size:12px">Use this key in the <code>Authorization: Bearer</code> header for API calls.</p>
  </div>
  <div class="card">
    <h3>Namespace</h3>
    <div class="stat" style="font-size:24px">"#@
        + namespace
        + r#"</div>
    <div class="stat-label">All deployments are scoped to this namespace</div>
  </div>
</div>
<div class="card">
  <h3>Quotas</h3>
  <table>
    <thead>
      <tr>
        <th>Resource</th>
        <th>Limit</th>
      </tr>
    </thead>
    <tbody>
      <tr>
        <td>Max deployments</td>
        <td class="mono">"#@
        + dec(max_deployments)
        + r#"</td>
      </tr>
      <tr>
        <td>Max instances per deployment</td>
        <td class="mono">"#@
        + dec(max_instances)
        + r#"</td>
      </tr>
      <tr>
        <td>Max Wasm binary size</td>
        <td class="mono">"#@
        + console_bytes_text(max_wasm_size)
        + r#"</td>
      </tr>
      <tr>
        <td>Max memory per instance</td>
        <td class="mono">"#@
        + console_bytes_text(max_memory)
        + r#"</td>
      </tr>
      <tr>
        <td>Max request rate</td>
        <td class="mono">"#@
        + dec(max_rps)
        + r#" req/s</td>
      </tr>
    </tbody>
  </table>
</div>"#@
}

/// Renders the settings page's content.
pub fn settings_content(api_key_display: &str, namespace: &str, max_deployments: u32, max_instances: u32, max_wasm_size: u64, max_memory: u64, max_rps: u32) -> (res: String)
    ensures
        res@ == settings_content_text(api_key_display@, namespace@, max_deployments as nat, max_instances as nat, max_wasm_size as nat, max_memory as nat, max_rps as nat),
{
    let mut s = String::new();
    push_str(&mut s, r#"<h2>Settings</h2>
<div class="grid-2">
  <div class="card">
    <h3>API Key</h3>
    <div class="mono" style="background:#1e2030;padding:12px;border-radius:6px;margin-bottom:8px;word-break:break-all">"#);
    push_str(&mut s, api_key_display);
    push_str(&mut s, r#"</div>
    <p class="text-muted" style="font-size:12px">Use this key in the <code>Authorization: Bearer</code> header for API calls.</p>
  </div>
  <div class="card">
    <h3>Namespace</h3>
    <div class="stat" style="font-size:24px">"#);
    push_str(&mut s, namespace);
    push_str(&mut s, r#"</div>
    <div class="stat-label">All deployments are scoped to this namespace</div>
  </div>
</div>
<div class="card">
  <h3>Quotas</h3>
  <table>
    <thead>
      <tr>
        <th>Resource</th>
        <th>Limit</th>
      </tr>
    </thead>
    <tbody>
      <tr>
        <td>Max deployments</td>
        <td class="mono">"#);
    push_dec(&mut s, max_deployments as u64);
    push_str(&mut s, r#"</td>
      </tr>
      <tr>
        <td>Max instances per deployment</td>
        <td class="mono">"#);
    push_dec(&mut s, max_instances as u64);
    push_str(&mut s, r#"</td>
      </tr>
      <tr>
        <td>Max Wasm binary size</td>
        <td class="mono">"#);
    let t = format_bytes(max_wasm_size);
    push_str(&mut s, t.as_str());
    push_str(&mut s, r#"</td>
      </tr>
      <tr>
        <td>Max memory per instance</td>
        <td class="mono">"#);
    let t = format_bytes(max_memory);
    push_str(&mut s, t.as_str());
    push_str(&mut s, r#"</td>
      </tr>
      <tr>
        <td>Max request rate</td>
        <td class="mono">"#);
    push_dec(&mut s, max_rps as u64);
    push_str(&mut s, r#" req/s</td>
      </tr>
    </tbody>
  </table>
</div>"#);
    proof {
        assert(s@ =~= settings_content_text(api_key_display@, namespace@, max_deployments as nat, max_instances as nat, max_wasm_size as nat, max_memory as nat, max_rps as nat));
    }
    s
}

/// A row of the recent-deployments table.
pub open spec fn mini_row_text(name: Seq<char>, source: Seq<char>) -> Seq<char> {
    r#"<tr>
  <td class="mono">"#@
        + name
        + r#"</td>
  <td><span class="badge badge-green">running</span></td>
  <td class="mono text-muted">"#@
        + shortened(source, 40, 37)
        + r#"</td>
</tr>"#@
}

/// Renders a row of the recent-deployments table.
pub fn mini_row(name: &str, source: &str) -> (res: String)
    requires
        cuttable(source@, 40, 37),
    ensures
        res@ == mini_row_text(name@, source@),
{
    let mut s = String::new();
    push_str(&mut s, r#"<tr>
  <td class="mono">"#);
    push_str(&mut s, name);
    push_str(&mut s, r#"</td>
  <td><span class="badge badge-green">running</span></td>
  <td class="mono text-muted">"#);
    let src = truncate_source(source);
    push_str(&mut s, src.as_str());
    push_str(&mut s, r#"</td>
</tr>"#);
    proof {
        assert(s@ =~= mini_row_text(name@, source@));
    }
    s
}

/// The recent-deployments table around its rows.
pub open spec fn mini_table_text(rows: Seq<char>) -> Seq<char> {
    r#"<table>
  <thead><tr><th>Name</th><th>Status</th><th>Source</th></tr></thead>
  <tbody>"#@
        + rows
        + r#"</tbody>
</table>"#@
}

/// Renders the recent-deployments table around its rows.
pub fn mini_table(rows: &str) -> (res: String)
    ensures
        res@ == mini_table_text(rows@),
{
    let mut s = String::new();
    push_str(&mut s, r#"<table>
  <thead><tr><th>Name</th><th>Status</th><th>Source</th></tr></thead>
  <tbody>"#);
    push_str(&mut s, rows);
    push_str(&mut s, r#"</tbody>
</table>"#);
    proof {
        assert(s@ =~= mini_table_text(rows@));
    }
    s
}

/// The sign-in page.
pub open spec fn login_page_text() -> Seq<char> {
    r#"<!DOCTYPE html>
<html lang="en">
<head>
  <meta charset="utf-8">
  <meta name="viewport" content="width=device-width, initial-scale=1">
  <title>Login — WarpGrid Console</title>
  <style>"#@
        + CONSOLE_CSS@
        + r#"
    .login-container { display: flex; align-items: center; justify-content: center; min-height: 100vh; }
    .login-box { width: 400px; }
  </style>
</head>
<body>
  <div class="login-container">
    <div class="login-box">
      <div style="text-align:center;margin-bottom:32px">
        <h1 style="color:#818cf8;font-size:28px;margin-bottom:4px">WarpGrid</h1>
        <span style="color:#64748b;font-size:14px">Cloud Console</span>
      </div>
      <div class="card">
        <h3>Sign In</h3>
        <form method="POST" action="/console/login">
          <div class="form-group">
            <label>API Key</label>
            <input type="password" name="api_key" placeholder="wg_live_..." required autofocus>
          </div>
          <button type="submit" class="btn btn-primary" style="width:100%">Sign In</button>
        </form>
        <p class="text-muted" style="margin-top:16px;font-size:12px;text-align:center">
          Use the API key from <code>warp register</code>
        </p>
      </div>
      <div style="text-align:center;margin-top:16px;color:#475569;font-size:11px">
        Served by WarpGrid
      </div>
    </div>
  </div>
</body>
</html>"#@
}

/// Renders the sign-in page.
pub fn login_page() -> (res: String)
    ensures
        res@ == login_page_text(),
{
    let mut s = String::new();
    push_str(&mut s, r#"<!DOCTYPE html>
<html lang="en">
<head>
  <meta charset="utf-8">
  <meta name="viewport" content="width=device-width, initial-scale=1">
  <title>Login — WarpGrid Console</title>
  <style>"#);
    push_str(&mut s, CONSOLE_CSS);
    push_str(&mut s, r#"
    .login-container { display: flex; align-items: center; justify-content: center; min-height: 100vh; }
    .login-box { width: 400px; }
  </style>
</head>
<body>
  <div class="login-container">
    <div class="login-box">
      <div style="text-align:center;margin-bottom:32px">
        <h1 style="color:#818cf8;font-size:28px;margin-bottom:4px">WarpGrid</h1>
        <span style="color:#64748b;font-size:14px">Cloud Console</span>
      </div>
      <div class="card">
        <h3>Sign In</h3>
        <form method="POST" action="/console/login">
          <div class="form-group">
            <label>API Key</label>
            <input type="password" name="api_key" placeholder="wg_live_..." required autofocus>
          </div>
          <button type="submit" class="btn btn-primary" style="width:100%">Sign In</button>
        </form>
        <p class="text-muted" style="margin-top:16px;font-size:12px;text-align:center">
          Use the API key from <code>warp register</code>
        </p>
      </div>
      <div style="text-align:center;margin-top:16px;color:#475569;font-size:11px">
        Served by WarpGrid
      </div>
    </div>
  </div>
</body>
</html>"#);
    proof {
        assert(s@ =~= login_page_text());
    }
    s
}

/// The sign-in page after a refused key.
pub open spec fn login_failed_page_text() -> Seq<char> {
    r#"<!DOCTYPE html>
<html lang="en">
<head>
  <meta charset="utf-8">
  <meta name="viewport" content="width=device-width, initial-scale=1">
  <title>Login — WarpGrid Console</title>
  <style>"#@
        + CONSOLE_CSS@
        + r#"
    .login-container { display: flex; align-items: center; justify-content: center; min-height: 100vh; }
    .login-box { width: 400px; }
  </style>
</head>
<body>
  <div class="login-container">
    <div class="login-box">
      <div style="text-align:center;margin-bottom:32px">
        <h1 style="color:#818cf8;font-size:28px;margin-bottom:4px">WarpGrid</h1>
        <span style="color:#64748b;font-size:14px">Cloud Console</span>
      </div>
      <div class="card">
        <div style="background:#7f1d1d20;border:1px solid #f8717140;border-radius:6px;padding:10px 14px;margin-bottom:16px;color:#f87171;font-size:13px">
          Invalid API key. Please try again.
        </div>
        <h3>Sign In</h3>
        <form method="POST" action="/console/login">
          <div class="form-group">
            <label>API Key</label>
            <input type="password" name="api_key" placeholder="wg_live_..." required autofocus>
          </div>
          <button type="submit" class="btn btn-primary" style="width:100%">Sign In</button>
        </form>
        <p class="text-muted" style="margin-top:16px;font-size:12px;text-align:center">
          Use the API key from <code>warp register</code>
        </p>
      </div>
      <div style="text-align:center;margin-top:16px;color:#475569;font-size:11px">
        Served by WarpGrid
      </div>
    </div>
  </div>
</body>
</html>"#@
}

/// Renders the sign-in page after a refused key.
pub fn login_failed_page() -> (res: String)
    ensures
        res@ == login_failed_page_text(),
{
    let mut s = String::new();
    push_str(&mut s, r#"<!DOCTYPE html>
<html lang="en">
<head>
  <meta charset="utf-8">
  <meta name="viewport" content="width=device-width, initial-scale=1">
  <title>Login — WarpGrid Console</title>
  <style>"#);
    push_str(&mut s, CONSOLE_CSS);
    push_str(&mut s, r#"
    .login-container { display: flex; align-items: center; justify-content: center; min-height: 100vh; }
    .login-box { width: 400px; }
  </style>
</head>
<body>
  <div class="login-container">
    <div class="login-box">
      <div style="text-align:center;margin-bottom:32px">
        <h1 style="color:#818cf8;font-size:28px;margin-bottom:4px">WarpGrid</h1>
        <span style="color:#64748b;font-size:14px">Cloud Console</span>
      </div>
      <div class="card">
        <div style="background:#7f1d1d20;border:1px solid #f8717140;border-radius:6px;padding:10px 14px;margin-bottom:16px;color:#f87171;font-size:13px">
          Invalid API key. Please try again.
        </div>
        <h3>Sign In</h3>
        <form method="POST" action="/console/login">
          <div class="form-group">
            <label>API Key</label>
            <input type="password" name="api_key" placeholder="wg_live_..." required autofocus>
          </div>
          <button type="submit" class="btn btn-primary" style="width:100%">Sign In</button>
        </form>
        <p class="text-muted" style="margin-top:16px;font-size:12px;text-align:center">
          Use the API key from <code>warp register</code>
        </p>
      </div>
      <div style="text-align:center;margin-top:16px;color:#475569;font-size:11px">
        Served by WarpGrid
      </div>
    </div>
  </div>
</body>
</html>"#);
    proof {
        assert(s@ =~= login_failed_page_text());
    }
    s
}

/// The note of the recent-deployments card when the namespace has none.
pub open spec fn no_recent_text() -> Seq<char> {
    r#"<div style="text-align:center;padding:24px;color:#64748b">
  No deployments yet. <a href="/console/deploy" style="color:#818cf8">Deploy your first app</a>
</div>"#@
}

/// The note of the deployments page when the namespace has none.
pub open spec fn no_deployments_text() -> Seq<char> {
    r#"<div style="text-align:center;padding:40px;color:#64748b">
  <div style="font-size:24px;margin-bottom:8px">No deployments yet</div>
  <a href="/console/deploy" class="btn btn-primary">Deploy your first app</a>
</div>"#@
}

/// The names and sources of the deployments of namespace `ns`, in order.
pub open spec fn owned_listing(ds: Seq<DeploymentSpec>, ns: Seq<char>) -> Seq<(Seq<char>, Seq<char>)>
    decreases ds.len(),
{
    if ds.len() == 0 {
        Seq::empty()
    } else if ds.last().namespace@ == ns {
        owned_listing(ds.drop_last(), ns).push((ds.last().name@, ds.last().source@))
    } else {
        owned_listing(ds.drop_last(), ns)
    }
}

/// The rows of the recent-deployments table.
pub open spec fn mini_rows_text(rs: Seq<(Seq<char>, Seq<char>)>) -> Seq<char>
    decreases rs.len(),
{
    if rs.len() == 0 {
        Seq::empty()
    } else {
        mini_rows_text(rs.drop_last()) + mini_row_text(rs.last().0, rs.last().1)
    }
}

/// The recent-deployments card: the first five deployments of the
/// namespace, or a note that there are none.
pub open spec fn recent_text(ds: Seq<DeploymentSpec>, ns: Seq<char>) -> Seq<char> {
    if owned_listing(ds, ns).len() == 0 {
        no_recent_text()
    } else {
        mini_table_text(mini_rows_text(first_five(owned_listing(ds, ns))))
    }
}

/// The first five entries of a listing (all of a shorter one).
pub open spec fn first_five(s: Seq<(Seq<char>, Seq<char>)>) -> Seq<(Seq<char>, Seq<char>)> {
    if s.len() <= 5 {
        s
    } else {
        s.take(5)
    }
}

/// The sources of the listed deployments can be shortened for a table.
pub open spec fn sources_cuttable(rs: Seq<(Seq<char>, Seq<char>)>) -> bool {
    forall|i: int| 0 <= i < rs.len() ==> cuttable((#[trigger] rs[i]).1, 40, 37)
}

proof fn lemma_first_five_push(s: Seq<(Seq<char>, Seq<char>)>, x: (Seq<char>, Seq<char>))
    ensures
        s.len() < 5 ==> first_five(s.push(x)) == first_five(s).push(x),
        s.len() >= 5 ==> first_five(s.push(x)) == first_five(s),
{
    if s.len() >= 5 {
        assert(s.push(x).take(5) =~= s.take(5));
    }
}

/// Renders the recent-deployments card of namespace `ns`.
pub fn recent_deployments(deployments: &Vec<DeploymentSpec>, ns: &str) -> (res: String)
    requires
        sources_cuttable(first_five(owned_listing(deployments@, ns@))),
    ensures
        res@ == recent_text(deployments@, ns@),
{
    let ghost all = owned_listing(deployments@, ns@);
    let mut acc = String::new();
    let mut shown: usize = 0;
    let mut i: usize = 0;
    while i < deployments.len()
        invariant
            i <= deployments@.len(),
            all == owned_listing(deployments@, ns@),
            sources_cuttable(first_five(all)),
            shown as int == if owned_listing(deployments@.take(i as int), ns@).len() < 5 {
                owned_listing(deployments@.take(i as int), ns@).len() as int
            } else {
                5
            },
            acc@ == mini_rows_text(first_five(owned_listing(deployments@.take(i as int), ns@))),
        decreases deployments@.len() - i,
    {
        let d = &deployments[i];
        let ghost before = owned_listing(deployments@.take(i as int), ns@);
        proof {
            assert(deployments@.take(i + 1).drop_last() =~= deployments@.take(i as int));
            lemma_owned_listing_prefix(deployments@, ns@, i + 1);
        }
        if str_eq(d.namespace.as_str(), ns) {
            proof {
                lemma_first_five_push(before, (d.name@, d.source@));
            }
            if shown < 5 {
                proof {
                    let after = owned_listing(deployments@.take(i + 1), ns@);
                    assert(after == before.push((d.name@, d.source@)));
                    assert(after[shown as int] == (d.name@, d.source@));
                    assert(all[shown as int] == (d.name@, d.source@));
                    assert(first_five(all)[shown as int] == all[shown as int]);
                    assert(cuttable(d.source@, 40, 37));
                    assert(first_five(after).drop_last() =~= first_five(before));
                }
                let r = mini_row(d.name.as_str(), d.source.as_str());
                push_str(&mut acc, r.as_str());
                shown = shown + 1;
            }
        }
        i = i + 1;
    }
    proof {
        assert(deployments@.take(i as int) =~= deployments@);
    }
    if shown == 0 {
        return to_owned_str(
            r#"<div style="text-align:center;padding:24px;color:#64748b">
  No deployments yet. <a href="/console/deploy" style="color:#818cf8">Deploy your first app</a>
</div>"#,
        );
    }
    mini_table(acc.as_str())
}

/// The listing of a prefix of the deployments is a prefix of the listing.
proof fn lemma_owned_listing_prefix(ds: Seq<DeploymentSpec>, ns: Seq<char>, i: int)
    requires
        0 <= i <= ds.len(),
    ensures
        owned_listing(ds.take(i), ns).len() <= owned_listing(ds, ns).len(),
        forall|k: int|
            0 <= k < owned_listing(ds.take(i), ns).len() ==> #[trigger] owned_listing(ds.take(i), ns)[k]
                == owned_listing(ds, ns)[k],
    decreases ds.len(),
{
    if i == ds.len() {
        assert(ds.take(i) =~= ds);
    } else {
        assert(ds.drop_last().take(i) =~= ds.take(i));
        lemma_owned_listing_prefix(ds.drop_last(), ns, i);
    }
}

/// How many deployments the namespace `ns` has, how many instances they
/// have in all, and how many of those run.
pub open spec fn owned_totals(ds: Seq<DeploymentSpec>, insts: Seq<Vec<InstanceState>>, ns: Seq<char>) -> (nat, nat, nat)
    decreases ds.len(),
{
    if ds.len() == 0 || insts.len() != ds.len() {
        (0, 0, 0)
    } else {
        let (c, t, r) = owned_totals(ds.drop_last(), insts.drop_last(), ns);
        if ds.last().namespace@ == ns {
            (c + 1, t + insts.last()@.len(), r + running_count(insts.last()@))
        } else {
            (c, t, r)
        }
    }
}

proof fn lemma_running_at_most(s: Seq<InstanceState>)
    ensures
        running_count(s) <= s.len(),
    decreases s.len(),
{
    if s.len() > 0 {
        lemma_running_at_most(s.drop_last());
    }
}

proof fn lemma_owned_totals_prefix(ds: Seq<DeploymentSpec>, insts: Seq<Vec<InstanceState>>, ns: Seq<char>, i: int)
    requires
        0 <= i <= ds.len(),
        insts.len() == ds.len(),
    ensures
        owned_totals(ds.take(i), insts.take(i), ns).1 <= owned_totals(ds, insts, ns).1,
        owned_totals(ds, insts, ns).2 <= owned_totals(ds, insts, ns).1,
        owned_totals(ds, insts, ns).0 <= ds.len(),
    decreases ds.len(),
{
    if ds.len() > 0 {
        lemma_running_at_most(insts.last()@);
        if i == ds.len() {
            assert(ds.take(i) =~= ds);
            assert(insts.take(i) =~= insts);
            lemma_owned_totals_prefix(ds.drop_last(), insts.drop_last(), ns, i - 1);
        } else {
            assert(ds.drop_last().take(i) =~= ds.take(i));
            assert(insts.drop_last().take(i) =~= insts.take(i));
            lemma_owned_totals_prefix(ds.drop_last(), insts.drop_last(), ns, i);
        }
    }
}

/// The overview page of `user`.
pub fn overview_page(user: &User, deployments: &Vec<DeploymentSpec>, instances: &Vec<Vec<InstanceState>>) -> (res: String)
    requires
        instances@.len() == deployments@.len(),
        owned_totals(deployments@, instances@, user.namespace@).1 <= usize::MAX,
        sources_cuttable(first_five(owned_listing(deployments@, user.namespace@))),
    ensures
        res@ == page_shell_text(
            "Overview"@,
            "overview"@,
            user.email@,
            overview_content_text(
                owned_totals(deployments@, instances@, user.namespace@).0,
                user.namespace@,
                owned_totals(deployments@, instances@, user.namespace@).2,
                owned_totals(deployments@, instances@, user.namespace@).1,
                recent_text(deployments@, user.namespace@),
            ),
        ),
{
    let ghost ns = user.namespace@;
    let mut count: usize = 0;
    let mut total: usize = 0;
    let mut running: usize = 0;
    let mut i: usize = 0;
    proof {
        lemma_owned_totals_prefix(deployments@, instances@, ns, 0);
    }
    while i < deployments.len()
        invariant
            i <= deployments@.len(),
            instances@.len() == deployments@.len(),
            ns == user.namespace@,
            owned_totals(deployments@, instances@, ns).1 <= usize::MAX,
            (count as nat, total as nat, running as nat) == owned_totals(
                deployments@.take(i as int),
                instances@.take(i as int),
                ns,
            ),
            count <= i,
            running <= total,
        decreases deployments@.len() - i,
    {
        proof {
            assert(deployments@.take(i + 1).drop_last() =~= deployments@.take(i as int));
            assert(instances@.take(i + 1).drop_last() =~= instances@.take(i as int));
            lemma_owned_totals_prefix(deployments@, instances@, ns, i + 1);
            lemma_owned_totals_prefix(deployments@.take(i + 1), instances@.take(i + 1), ns, i + 1);
        }
        if str_eq(deployments[i].namespace.as_str(), user.namespace.as_str()) {
            let r = count_running(&instances[i]);
            proof {
                lemma_running_at_most(instances@[i as int]@);
            }
            count = count + 1;
            total = total + instances[i].len();
            running = running + r;
        }
        i = i + 1;
    }
    proof {
        assert(deployments@.take(i as int) =~= deployments@);
        assert(instances@.take(i as int) =~= instances@);
    }
    let table = recent_deployments(deployments, user.namespace.as_str());
    let c = overview_content(count, user.namespace.as_str(), running, total, table.as_str());
    page_shell("Overview", "overview", user.email.as_str(), c.as_str())
}

/// The rows of the deployments page: one per deployment of namespace `ns`.
pub open spec fn owned_rows_text(ds: Seq<DeploymentSpec>, insts: Seq<Vec<InstanceState>>, ns: Seq<char>) -> Seq<char>
    decreases ds.len(),
{
    if ds.len() == 0 || insts.len() != ds.len() {
        Seq::empty()
    } else {
        let d = ds.last();
        let earlier = owned_rows_text(ds.drop_last(), insts.drop_last(), ns);
        if d.namespace@ == ns {
            earlier + deployment_row_text(
                d.name@,
                running_count(insts.last()@),
                d.instances.max as nat,
                d.source@,
                d.id@,
            )
        } else {
            earlier
        }
    }
}

/// The deployments page of `user`.
pub fn deployments_page(user: &User, deployments: &Vec<DeploymentSpec>, instances: &Vec<Vec<InstanceState>>) -> (res: String)
    requires
        instances@.len() == deployments@.len(),
        sources_cuttable(owned_listing(deployments@, user.namespace@)),
    ensures
        res@ == page_shell_text(
            "Deployments"@,
            "deployments"@,
            user.email@,
            deployments_content_text(
                owned_rows_text(deployments@, instances@, user.namespace@),
                if owned_listing(deployments@, user.namespace@).len() == 0 {
                    no_deployments_text()
                } else {
                    ""@
                },
            ),
        ),
{
    let ghost ns = user.namespace@;
    let ghost all = owned_listing(deployments@, ns);
    let mut rows = String::new();
    let mut owned: usize = 0;
    let mut i: usize = 0;
    while i < deployments.len()
        invariant
            i <= deployments@.len(),
            instances@.len() == deployments@.len(),
            ns == user.namespace@,
            all == owned_listing(deployments@, ns),
            sources_cuttable(all),
            rows@ == owned_rows_text(deployments@.take(i as int), instances@.take(i as int), ns),
            owned as nat == owned_listing(deployments@.take(i as int), ns).len(),
            owned <= i,
        decreases deployments@.len() - i,
    {
        let d = &deployments[i];
        proof {
            assert(deployments@.take(i + 1).drop_last() =~= deployments@.take(i as int));
            assert(instances@.take(i + 1).drop_last() =~= instances@.take(i as int));
            lemma_owned_listing_prefix(deployments@, ns, i + 1);
        }
        if str_eq(d.namespace.as_str(), user.namespace.as_str()) {
            proof {
                let after = owned_listing(deployments@.take(i + 1), ns);
                assert(after[owned as int] == (d.name@, d.source@));
                assert(all[owned as int] == after[owned as int]);
                assert(cuttable(d.source@, 40, 37));
            }
            let r = count_running(&instances[i]);
            let row = deployment_row(d.name.as_str(), r, d.instances.max, d.source.as_str(), d.id.as_str());
            push_str(&mut rows, row.as_str());
            owned = owned + 1;
        }
        i = i + 1;
    }
    proof {
        assert(deployments@.take(i as int) =~= deployments@);
        assert(instances@.take(i as int) =~= instances@);
    }
    let empty_state: &str = if owned == 0 {
        r#"<div style="text-align:center;padding:40px;color:#64748b">
  <div style="font-size:24px;margin-bottom:8px">No deployments yet</div>
  <a href="/console/deploy" class="btn btn-primary">Deploy your first app</a>
</div>"#
    } else {
        ""
    };
    let c = deployments_content(rows.as_str(), empty_state);
    page_shell("Deployments", "deployments", user.email.as_str(), c.as_str())
}

/// The deploy page of `user`.
pub fn deploy_page(user: &User) -> (res: String)
    ensures
        res@ == page_shell_text(
            "Deploy"@,
            "deploy"@,
            user.email@,
            deploy_content_text(user.namespace@, user.quota.max_instances_per_deployment as nat),
        ),
{
    let c = deploy_content(user.namespace.as_str(), user.quota.max_instances_per_deployment);
    page_shell("Deploy", "deploy", user.email.as_str(), c.as_str())
}

/// The teams page of `user`.
pub fn teams_page(user: &User) -> (res: String)
    ensures
        res@ == page_shell_text("Teams"@, "teams"@, user.email@, teams_content_text(user.email@, user.namespace@)),
{
    let c = teams_content(user.email.as_str(), user.namespace.as_str());
    page_shell("Teams", "teams", user.email.as_str(), c.as_str())
}

/// The API key of the session, given the `Cookie` header if there is one.
pub open spec fn session_key(cookie_header: Option<&str>) -> Option<Seq<char>> {
    match cookie_header {
        Some(h) => cookie_value_spec(h@, "wg_session="@),
        None => None,
    }
}

/// The settings page of `user`, showing the session's API key masked.
pub fn settings_page(user: &User, cookie_header: Option<&str>) -> (res: String)
    requires
        session_key(cookie_header) matches Some(k) ==> maskable(k),
    ensures
        res@ == page_shell_text(
            "Settings"@,
            "settings"@,
            user.email@,
            settings_content_text(
                masked_key_text(session_key(cookie_header)),
                user.namespace@,
                user.quota.max_deployments as nat,
                user.quota.max_instances_per_deployment as nat,
                user.quota.max_wasm_size_bytes as nat,
                user.quota.max_memory_per_instance_bytes as nat,
                user.quota.max_request_rate as nat,
            ),
        ),
{
    let key = extract_session_cookie(cookie_header);
    let shown = match &key {
        Some(k) => mask_api_key(Some(k.as_str())),
        None => mask_api_key(None),
    };
    let q = &user.quota;
    let c = settings_content(
        shown.as_str(),
        user.namespace.as_str(),
        q.max_deployments,
        q.max_instances_per_deployment,
        q.max_wasm_size_bytes,
        q.max_memory_per_instance_bytes,
        q.max_request_rate,
    );
    page_shell("Settings", "settings", user.email.as_str(), c.as_str())
}

} // verus!
