use warpgrid::tenants::{
    check_deployment_quota, extract_namespace, scoped_deployment_id, QuotaError, TenantLimits,
    TenantUsage,
};

#[test]
fn scoped_id_roundtrip() {
    let id = scoped_deployment_id("alice", "my-api");
    assert_eq!(id, "alice/my-api");

    let (ns, name) = extract_namespace(&id).unwrap();
    assert_eq!(ns, "alice");
    assert_eq!(name, "my-api");
}

#[test]
fn quota_check_allows_within_limits() {
    let limits = TenantLimits::default();
    let usage = TenantUsage { deployment_count: 1, ..Default::default() };
    assert!(check_deployment_quota(&limits, &usage, 1024).is_ok());
}

#[test]
fn quota_check_rejects_at_max_deployments() {
    let limits = TenantLimits::default();
    let usage = TenantUsage { deployment_count: 3, ..Default::default() };
    let err = check_deployment_quota(&limits, &usage, 1024).unwrap_err();
    assert!(matches!(err, QuotaError::MaxDeployments { .. }));
}

#[test]
fn quota_check_rejects_oversized_wasm() {
    let limits = TenantLimits::default();
    let usage = TenantUsage::default();
    let err = check_deployment_quota(&limits, &usage, 20 * 1024 * 1024).unwrap_err();
    assert!(matches!(err, QuotaError::WasmTooLarge { .. }));
}

#[test]
fn extract_namespace_splits_at_first_slash() {
    assert_eq!(extract_namespace("a/b/c"), Some(("a", "b/c")));
    assert_eq!(extract_namespace("noslash"), None);
    assert_eq!(extract_namespace("/x"), Some(("", "x")));
}

#[test]
fn quota_error_messages() {
    assert_eq!(
        QuotaError::MaxDeployments { current: 3, max: 3 }.to_string(),
        "deployment limit reached (3/3)"
    );
    assert_eq!(
        QuotaError::MaxInstances { current: 16, max: 15 }.to_string(),
        "instance limit reached (16/15)"
    );
    assert_eq!(
        QuotaError::WasmTooLarge { size: 20 * 1024 * 1024, max: 10 * 1024 * 1024 }.to_string(),
        "Wasm component too large (20480 KB, max 10240 KB)"
    );
    assert_eq!(
        QuotaError::MemoryExceeded { used: 3 * 1024 * 1024, max: 1024 * 1024 * 1024 }.to_string(),
        "memory limit exceeded (3 MB / 1024 MB)"
    );
    assert_eq!(
        QuotaError::RegionNotAllowed { region: "ams".to_string() }.to_string(),
        "region 'ams' not allowed for this plan"
    );
}

#[test]
fn default_tenant_limits() {
    let l = TenantLimits::default();
    assert_eq!(l.max_deployments, 3);
    assert_eq!(l.max_total_instances, 15);
    assert_eq!(l.max_total_memory_bytes, 1024 * 1024 * 1024);
    assert_eq!(l.max_wasm_size_bytes, 10 * 1024 * 1024);
    assert_eq!(l.regions, vec!["iad".to_string()]);
}
