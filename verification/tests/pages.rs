use warpgrid::admin_pages::{
    deployment_row, deployments_page, deployments_table_html, login_failed_page, login_page, metrics_page,
    node_row, nodes_by_region_html, nodes_page, nodes_table_html, overview_page, region_row, status_badge,
    user_row, users_page, users_table_html, DeploymentListing, NodeListing, RegionCount, UserListing,
};
use warpgrid::auth::{User, UserQuota};
use warpgrid::console_pages;
use warpgrid::dashboard::{HealthStatus, InstanceState, InstanceStatus, TriggerConfig};
use warpgrid::strmap::StrMap;
use warpgrid::views::{DeploymentSpec, InstanceConstraints, ResourceLimits, ShimsEnabled};

#[test]
fn region_rows_and_empty_summary() {
    assert_eq!(
        region_row("iad", 3),
        r#"<tr><td class="mono">iad</td><td>3</td><td><span class="badge badge-green">online</span></td></tr>"#
    );
    assert_eq!(
        nodes_by_region_html(&Vec::new()),
        r#"<div style="color:#666;padding:16px">No nodes registered yet.</div>"#
    );
    let html = nodes_by_region_html(&vec![
        RegionCount { region: "fra".to_string(), count: 1 },
        RegionCount { region: "iad".to_string(), count: 2 },
    ]);
    assert!(html.starts_with("<table>\n  <thead><tr><th>Region</th><th>Nodes</th><th>Status</th></tr></thead>\n  <tbody><tr>"));
    assert!(html.contains(r#"<td class="mono">fra</td><td>1</td>"#));
    assert!(html.ends_with("</tbody>\n</table>"));
    assert!(html.find("fra").unwrap() < html.find("iad").unwrap());
}

#[test]
fn node_and_user_rows() {
    let row = node_row("node-1", "iad", "10.0.0.1", 512 * 1024 * 1024, 2 * 1024 * 1024 * 1024, 200, 1000, 0);
    assert_eq!(
        row,
        "<tr>\n  <td class=\"mono\">node-1</td>\n  <td><span class=\"badge badge-green\">iad</span></td>\n  <td class=\"mono\">10.0.0.1</td>\n  <td>512 MB / 2.0 GB</td>\n  <td>200 / 1000</td>\n  <td class=\"text-muted\">1970-01-01 00:00:00 UTC</td>\n</tr>"
    );
    let row = user_row("u1", "a@b.c", "ns-1", 86400);
    assert!(row.contains("<td>a@b.c</td>"));
    assert!(row.contains(r#"<td class="mono" style="color:#00ff88">ns-1</td>"#));
    assert!(row.contains("1970-01-02 00:00:00 UTC"));
    assert_eq!(
        nodes_table_html(&Vec::new()),
        r#"<tr><td colspan="6" style="color:#666;text-align:center;padding:24px">No nodes registered.</td></tr>"#
    );
    assert_eq!(
        users_table_html(&Vec::new()),
        r#"<tr><td colspan="4" style="color:#666;text-align:center;padding:24px">No users registered.</td></tr>"#
    );
}

#[test]
fn deployment_rows_badge_and_hash() {
    assert_eq!(status_badge("active"), r#"<span class="badge badge-green">active</span>"#);
    assert_eq!(status_badge("stopped"), r#"<span class="badge badge-gray">stopped</span>"#);
    assert_eq!(status_badge("error"), r#"<span class="badge badge-red">error</span>"#);
    assert_eq!(status_badge("weird"), r#"<span class="badge badge-yellow">unknown</span>"#);
    let row = deployment_row("ns/app", "ns", "app", "iad", "active", "0123456789abcdef");
    assert!(row.contains(r#"<td class="mono text-muted">0123456789ab...</td>"#));
    let row = deployment_row("ns/app", "ns", "app", "iad", "stopped", "short");
    assert!(row.contains(r#"<td class="mono text-muted">short</td>"#));
    assert_eq!(
        deployments_table_html(&Vec::new()),
        r#"<tr><td colspan="6" style="color:#666;text-align:center;padding:24px">No deployments found.</td></tr>"#
    );
    let rows = vec![DeploymentListing {
        id: "a/b".to_string(),
        namespace: "a".to_string(),
        name: "b".to_string(),
        region: "iad".to_string(),
        status: "error".to_string(),
        wasm_hash: "abc".to_string(),
    }];
    let page = deployments_page(&rows);
    assert!(page.contains("<title>Deployments — WarpGrid Admin</title>"));
    assert!(page.contains(r#"<span class="badge badge-red">error</span>"#));
}

#[test]
fn admin_pages_wrap_content() {
    let page = overview_page(4, 2, 7, 11, &Vec::new());
    assert!(page.contains("<title>Overview — WarpGrid Admin</title>"));
    assert!(page.contains("<div class=\"stat\">4</div>\n    <div class=\"stat-label\">registered</div>"));
    assert!(page.contains("<div class=\"stat\">11</div>\n    <div class=\"stat-label\">running</div>"));
    assert!(page.contains("No nodes registered yet."));
    let page = nodes_page(&vec![NodeListing {
        id: "n1".to_string(),
        region: "iad".to_string(),
        address: "1.2.3.4".to_string(),
        capacity_memory_bytes: 1024,
        capacity_cpu_weight: 10,
        used_memory_bytes: 0,
        used_cpu_weight: 0,
        last_heartbeat: 0,
    }]);
    assert!(page.contains("<td>0 B / 1 KB</td>"));
    let page = users_page(&vec![UserListing {
        id: "u".to_string(),
        email: "e@x".to_string(),
        namespace: "n".to_string(),
        created_at: 0,
    }]);
    assert!(page.contains("<h2>Users</h2>"));
    let page = metrics_page("<tr><td>x</td></tr>");
    assert!(page.contains("Latest metrics snapshot per deployment per region."));
    assert!(page.contains("<tbody><tr><td>x</td></tr></tbody>"));
    assert!(login_page().contains("<title>Login — WarpGrid Admin</title>"));
    assert!(login_page().contains(".login-box { width: 400px; }"));
    assert!(!login_page().contains("Invalid admin key"));
    assert!(login_failed_page().contains("Invalid admin key. Please try again."));
}

fn user() -> User {
    User {
        id: "u1".to_string(),
        email: "alice@example.com".to_string(),
        namespace: "ns-alice".to_string(),
        created_at: 0,
        quota: UserQuota::default(),
    }
}

fn dep(ns: &str, name: &str, source: &str) -> DeploymentSpec {
    DeploymentSpec {
        id: format!("{ns}/{name}"),
        namespace: ns.to_string(),
        name: name.to_string(),
        source: source.to_string(),
        trigger: TriggerConfig::Http { port: None },
        instances: InstanceConstraints { min: 1, max: 3 },
        resources: ResourceLimits { memory_bytes: 0, cpu_weight: 0 },
        health: None,
        shims: ShimsEnabled::default(),
        env: StrMap::new(),
        created_at: 0,
        updated_at: 0,
    }
}

fn inst(status: InstanceStatus) -> InstanceState {
    InstanceState {
        id: "i".to_string(),
        deployment_id: "d".to_string(),
        node_id: "n".to_string(),
        status,
        health: HealthStatus::Healthy,
        restart_count: 0,
        memory_bytes: 0,
        started_at: 0,
        updated_at: 0,
    }
}

#[test]
fn console_overview_counts_own_namespace() {
    let ds = vec![
        dep("ns-alice", "api", "file://api.wasm"),
        dep("ns-bob", "other", "file://other.wasm"),
        dep("ns-alice", "web", "https://example.com/a/very/long/path/to/some/component.wasm"),
    ];
    let insts = vec![
        vec![inst(InstanceStatus::Running), inst(InstanceStatus::Stopped)],
        vec![inst(InstanceStatus::Running)],
        vec![inst(InstanceStatus::Running)],
    ];
    let page = console_pages::overview_page(&user(), &ds, &insts);
    assert!(page.contains("<title>Overview — WarpGrid Console</title>"));
    assert!(page.contains("<div class=\"stat\">2</div>"));
    assert!(page.contains("in namespace <span class=\"mono\">ns-alice</span>"));
    assert!(page.contains("<div class=\"stat\">2<span style=\"font-size:16px;color:#64748b\"> / 3</span></div>"));
    assert!(page.contains("<td class=\"mono\">api</td>"));
    assert!(!page.contains("other"));
    assert!(page.contains("https://example.com/a/very/long/path/...</td>"));
    let empty = console_pages::overview_page(&user(), &Vec::new(), &Vec::new());
    assert!(empty.contains("No deployments yet. <a href=\"/console/deploy\""));
}

#[test]
fn console_recent_shows_five() {
    let ds: Vec<DeploymentSpec> = (0..7).map(|i| dep("ns-alice", &format!("app{i}"), "s")).collect();
    let html = console_pages::recent_deployments(&ds, "ns-alice");
    assert_eq!(html.matches("<tr>\n  <td class=\"mono\">").count(), 5);
    assert!(html.contains("app4"));
    assert!(!html.contains("app5"));
}

#[test]
fn console_deployments_page_rows() {
    let ds = vec![dep("ns-alice", "api", "file://api.wasm"), dep("ns-bob", "x", "y")];
    let insts = vec![vec![inst(InstanceStatus::Running), inst(InstanceStatus::Starting)], vec![]];
    let page = console_pages::deployments_page(&user(), &ds, &insts);
    assert!(page.contains("<td>1 / 3</td>"));
    assert!(page.contains("action=\"/api/v1/cloud/deploy/ns-alice/api\""));
    assert!(!page.contains("No deployments yet"));
    let page = console_pages::deployments_page(&user(), &vec![dep("ns-bob", "x", "y")], &vec![vec![]]);
    assert!(page.contains("<div style=\"font-size:24px;margin-bottom:8px\">No deployments yet</div>"));
}

#[test]
fn console_other_pages() {
    let u = user();
    let page = console_pages::deploy_page(&u);
    assert!(page.contains("Deployments run in namespace <span class=\"mono\" style=\"color:#818cf8\">ns-alice</span>."));
    assert!(page.contains("name=\"max_instances\" value=\"3\" min=\"1\" max=\"5\""));
    let page = console_pages::teams_page(&u);
    assert!(page.contains("<td>alice@example.com</td>"));
    let page = console_pages::settings_page(&u, Some("wg_session=wg_live_0123456789abcdef"));
    assert!(page.contains(">wg_live_0123...cdef</div>"));
    assert!(page.contains("<td class=\"mono\">10 MB</td>"));
    assert!(page.contains("<td class=\"mono\">256 MB</td>"));
    assert!(page.contains("<td class=\"mono\">100 req/s</td>"));
    let page = console_pages::settings_page(&u, None);
    assert!(page.contains(">\u{2014}</div>"));
    assert!(console_pages::login_page().contains("<title>Login — WarpGrid Console</title>"));
    assert!(console_pages::login_failed_page().contains("Invalid API key. Please try again."));
}

#[test]
fn admin_login_page_renders() {
    let body = login_page();
    assert!(body.contains("WarpGrid Admin"));
    assert!(body.contains("Admin Sign In"));
    assert!(body.contains("Served by WarpGrid"));
}

#[test]
fn console_login_page_renders() {
    let body = console_pages::login_page();
    assert!(body.contains("WarpGrid"));
    assert!(body.contains("Sign In"));
    assert!(body.contains("wg_live_"));
    assert!(body.contains("Served by WarpGrid"));
}
