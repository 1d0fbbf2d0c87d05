use warpgrid::auth::AuthStore;
use warpgrid::cloud_api::{
    add_domain_request, add_team_member_request, bearer_token, check_delete, check_registration_email,
    check_upload, conflict_error, count_in_namespace, create_deployment_request, create_team_request,
    deployment_url, extract_user, list_user_deployments, DeploymentRecord,
    registry_source, remove_domain_request, remove_team_member_request,
};
use warpgrid::domains::DomainStore;
use warpgrid::provisioner::{fly_error_detail, regions_to_provision, EdgeMachineConfig, FlyProvisioner, FLY_API_BASE};
use warpgrid::teams::{TeamRole, TeamStore};

#[test]
fn bearer_token_outcomes() {
    let e = bearer_token(None).unwrap_err();
    assert_eq!(e.status, 401);
    assert_eq!(e.message, "Missing Authorization header");
    let e = bearer_token(Some("Basic abc")).unwrap_err();
    assert_eq!(e.status, 401);
    assert_eq!(e.message, "Invalid Authorization format (expected: Bearer wg_live_...)");
    assert_eq!(bearer_token(Some("Bearer wg_live_x")).unwrap(), "wg_live_x");
}

#[test]
fn extract_user_by_bearer_key() {
    let mut auth = AuthStore::new();
    let (key, user) = auth.register("dev@example.com");
    let header = format!("Bearer {key}");
    assert_eq!(extract_user(Some(&header), &auth).unwrap().id, user.id);
    let e = extract_user(Some("Bearer wg_live_nope"), &auth).unwrap_err();
    assert_eq!(e.status, 401);
}

#[test]
fn registration_email_checks() {
    assert!(check_registration_email("a@b.com").is_ok());
    assert_eq!(check_registration_email("").unwrap_err().status, 400);
    assert_eq!(check_registration_email("nobody").unwrap_err().message, "Invalid email address");
}

#[test]
fn counts_deployments_in_namespace() {
    let ns = vec!["alice".to_string(), "bob".to_string(), "alice".to_string()];
    assert_eq!(count_in_namespace(&ns, "alice"), 2);
    assert_eq!(count_in_namespace(&ns, "carol"), 0);
}

#[test]
fn upload_checks_in_order() {
    let mut auth = AuthStore::new();
    let (_key, user) = auth.register("alice@example.com");
    let e = check_upload(&user, None, None, 10, 0).unwrap_err();
    assert_eq!((e.status, e.message.as_str()), (400, "X-WarpGrid-Name header required"));
    let e = check_upload(&user, Some(""), None, 10, 0).unwrap_err();
    assert_eq!(e.status, 400);
    let e = check_upload(&user, Some("api"), None, 0, 0).unwrap_err();
    assert_eq!((e.status, e.message.as_str()), (400, "Empty Wasm binary"));
    let e = check_upload(&user, Some("api"), None, 20 * 1024 * 1024, 0).unwrap_err();
    assert_eq!((e.status, e.message.as_str()), (403, "Wasm too large (20480 KB, max 10240 KB)"));
    let e = check_upload(&user, Some("api"), None, 100, 3).unwrap_err();
    assert_eq!((e.status, e.message.as_str()), (403, "Deployment limit reached (3/3)"));
    let plan = check_upload(&user, Some("api"), None, 100, 2).unwrap();
    assert_eq!(plan.name, "api");
    assert_eq!(plan.region, "iad");
    assert_eq!(plan.deployment_id, "alice/api");
    let plan = check_upload(&user, Some("api"), Some("ams"), 100, 0).unwrap();
    assert_eq!(plan.region, "ams");
}

#[test]
fn conflict_and_urls() {
    let e = conflict_error("api");
    assert_eq!(e.status, 409);
    assert_eq!(e.message, "Deployment 'api' already exists");
    assert_eq!(registry_source("alice", "api", "abc"), "registry://alice/api/abc");
    assert_eq!(deployment_url("api", "alice"), "https://api.alice.edge.warpgrid.dev");
}

#[test]
fn delete_ownership() {
    assert_eq!(check_delete("alice/api", "alice").unwrap(), Some(("alice", "api")));
    let e = check_delete("bob/api", "alice").unwrap_err();
    assert_eq!((e.status, e.message.as_str()), (403, "Not your deployment"));
    assert_eq!(check_delete("legacy", "alice").unwrap(), None);
}

#[test]
fn team_requests() {
    let mut teams = TeamStore::new();
    assert_eq!(create_team_request(&mut teams, "", "u1").unwrap_err().status, 400);
    let team = create_team_request(&mut teams, "Core", "owner").unwrap();
    let e = add_team_member_request(&mut teams, &team.id, "stranger", "u2", TeamRole::Member).unwrap_err();
    assert_eq!(e.status, 403);
    let t = add_team_member_request(&mut teams, &team.id, "owner", "u2", TeamRole::Member).unwrap();
    assert_eq!(t.members.len(), 2);
    let e = add_team_member_request(&mut teams, &team.id, "owner", "u2", TeamRole::Member).unwrap_err();
    assert_eq!((e.status, e.message.as_str()), (400, "user is already a member: u2"));
    let e = remove_team_member_request(&mut teams, &team.id, "owner", "owner").unwrap_err();
    assert_eq!((e.status, e.message.as_str()), (403, "cannot remove the team owner"));
    let e = remove_team_member_request(&mut teams, &team.id, "owner", "u9").unwrap_err();
    assert_eq!(e.status, 404);
    let t = remove_team_member_request(&mut teams, &team.id, "owner", "u2").unwrap();
    assert_eq!(t.members.len(), 1);
    let e = remove_team_member_request(&mut teams, &team.id, "u2", "owner").unwrap_err();
    assert_eq!(e.status, 403);
}

#[test]
fn domain_requests() {
    let mut domains = DomainStore::new();
    let e = add_domain_request(&mut domains, "not a domain", "alice/api", "alice").unwrap_err();
    assert_eq!(e.status, 400);
    let r = add_domain_request(&mut domains, "api.example.com", "alice/api", "alice").unwrap();
    assert_eq!(r.mapping.namespace, "alice");
    let e = add_domain_request(&mut domains, "api.example.com", "alice/api", "alice").unwrap_err();
    assert_eq!(e.status, 409);
    let e = remove_domain_request(&mut domains, "api.example.com", "bob").unwrap_err();
    assert_eq!(e.status, 403);
    assert!(remove_domain_request(&mut domains, "api.example.com", "alice").is_ok());
    assert_eq!(remove_domain_request(&mut domains, "api.example.com", "alice").unwrap_err().status, 404);
}

#[test]
fn fly_urls_and_requests() {
    let fly = FlyProvisioner::new("tok", "wg-edge", "registry.fly.io/warpd:latest");
    assert_eq!(fly.auth_header(), "Bearer tok");
    assert_eq!(fly.machines_url(), format!("{FLY_API_BASE}/apps/wg-edge/machines"));
    assert_eq!(fly.machine_url("m1"), format!("{FLY_API_BASE}/apps/wg-edge/machines/m1"));
    assert_eq!(fly.machine_action_url("m1", "stop"), format!("{FLY_API_BASE}/apps/wg-edge/machines/m1/stop"));
    assert_eq!(fly.delete_url("m1", true), format!("{FLY_API_BASE}/apps/wg-edge/machines/m1?force=true"));
    assert_eq!(fly.delete_url("m1", false), format!("{FLY_API_BASE}/apps/wg-edge/machines/m1"));

    let mut config = EdgeMachineConfig::default();
    config.region = "ams".to_string();
    config.control_plane_url = "https://cp.example.com".to_string();
    let req = fly.create_machine_request(&config);
    assert_eq!(req.name, "warpgrid-edge-ams");
    assert_eq!(req.region, "ams");
    assert_eq!(req.config.image, "registry.fly.io/warpd:latest");
    assert_eq!(req.config.guest.memory_mb, 256);
    assert_eq!(req.config.env.get("WARPGRID_REGION").map(|s| s.as_str()), Some("ams"));
    assert_eq!(req.config.env.get("WARPGRID_CONTROL_PLANE").map(|s| s.as_str()), Some("https://cp.example.com"));
    assert_eq!(req.config.services[0].internal_port, 8443);
    assert_eq!(req.config.services[0].ports[0].port, 443);
}

#[test]
fn regions_and_errors() {
    let regions = vec!["iad".to_string(), "ams".to_string(), "sin".to_string()];
    let existing = vec!["ams".to_string()];
    assert_eq!(regions_to_provision(&regions, &existing), vec!["iad".to_string(), "sin".to_string()]);
    assert_eq!(fly_error_detail(Some("bad".to_string()), Some("msg".to_string())), "bad");
    assert_eq!(fly_error_detail(None, Some("msg".to_string())), "msg");
    assert_eq!(fly_error_detail(None, None), "");
}

#[test]
fn lists_only_own_deployments() {
    let rec = |ns: &str, name: &str, min: u32| DeploymentRecord {
        id: format!("{ns}/{name}"),
        namespace: ns.to_string(),
        name: name.to_string(),
        min_instances: min,
    };
    let records = vec![rec("alice", "api", 1), rec("bob", "web", 2), rec("alice", "worker", 3)];
    let listed = list_user_deployments(&records, "alice");
    assert_eq!(listed.len(), 2);
    assert_eq!(listed[0].id, "alice/api");
    assert_eq!(listed[1].name, "worker");
    assert_eq!(listed[1].instances, 3);
    assert_eq!(listed[0].status, "running");
    assert_eq!(listed[0].region, "iad");
    assert!(list_user_deployments(&records, "carol").is_empty());
}

#[test]
fn json_deploy_request_answers() {
    let mut auth = AuthStore::new();
    let (_key, user) = auth.register("alice@example.com");
    let e = create_deployment_request(&user, 3);
    assert_eq!((e.status, e.message.as_str()), (403, "Deployment limit reached (3/3)"));
    let e = create_deployment_request(&user, 1);
    assert_eq!(e.status, 501);
    assert!(e.message.starts_with("JSON deploy not yet implemented"));
}

#[test]
fn uploaded_deployment_defaults() {
    let plan = warpgrid::cloud_api::UploadPlan {
        name: "hello".to_string(),
        region: "iad".to_string(),
        deployment_id: "ns-1/hello".to_string(),
    };
    let d = warpgrid::cloud_api::uploaded_deployment("ns-1", &plan, "abc123", 77);
    assert_eq!(d.id, "ns-1/hello");
    assert_eq!(d.namespace, "ns-1");
    assert_eq!(d.name, "hello");
    assert_eq!(d.source, "registry://ns-1/hello/abc123");
    assert!(matches!(d.trigger, warpgrid::dashboard::TriggerConfig::Http { port: Some(8080) }));
    assert_eq!((d.instances.min, d.instances.max), (1, 5));
    assert_eq!(d.resources.memory_bytes, 64 * 1024 * 1024);
    assert_eq!(d.resources.cpu_weight, 100);
    assert!(d.health.is_none());
    assert_eq!(d.created_at, 77);
    assert_eq!(d.updated_at, 77);
}
