use warpgrid::domains::{cname_target, validate_domain, DomainError, DomainStatus, DomainStore};

#[test]
fn add_and_remove_roundtrip() {
    let mut store = DomainStore::new();

    let resp = store.add_domain("app.example.com", "dep_123", "ns_alice").unwrap();

    assert_eq!(resp.mapping.domain, "app.example.com");
    assert_eq!(resp.mapping.deployment_id, "dep_123");
    assert_eq!(resp.mapping.namespace, "ns_alice");
    assert_eq!(resp.mapping.status, DomainStatus::Pending);
    assert!(resp.mapping.verified_at.is_none());
    assert_eq!(resp.dns.record_type, "CNAME");
    assert_eq!(resp.dns.target, "dep_123.edge.warpgrid.dev");

    assert!(store.get_domain("app.example.com").is_some());

    store.remove_domain("app.example.com").unwrap();

    assert!(store.get_domain("app.example.com").is_none());
}

#[test]
fn duplicate_domain_rejected() {
    let mut store = DomainStore::new();
    store.add_domain("app.example.com", "dep_123", "ns_alice").unwrap();
    let err = store.add_domain("app.example.com", "dep_456", "ns_bob").unwrap_err();
    assert!(matches!(err, DomainError::AlreadyExists { .. }));
}

#[test]
fn invalid_domain_no_dot() {
    let mut store = DomainStore::new();
    let err = store.add_domain("localhost", "dep_123", "ns_alice").unwrap_err();
    assert!(matches!(err, DomainError::InvalidDomain { .. }));
}

#[test]
fn invalid_domain_with_protocol() {
    let mut store = DomainStore::new();
    let err = store.add_domain("https://app.example.com", "dep_123", "ns_alice").unwrap_err();
    assert!(matches!(err, DomainError::InvalidDomain { .. }));
}

#[test]
fn invalid_domain_with_wildcard() {
    let mut store = DomainStore::new();
    let err = store.add_domain("*.example.com", "dep_123", "ns_alice").unwrap_err();
    assert!(matches!(err, DomainError::InvalidDomain { .. }));
}

#[test]
fn invalid_domain_empty() {
    let mut store = DomainStore::new();
    let err = store.add_domain("", "dep_123", "ns_alice").unwrap_err();
    assert!(matches!(err, DomainError::InvalidDomain { .. }));
}

#[test]
fn invalid_domain_with_spaces() {
    let mut store = DomainStore::new();
    let err = store.add_domain("app .example.com", "dep_123", "ns_alice").unwrap_err();
    assert!(matches!(err, DomainError::InvalidDomain { .. }));
}

#[test]
fn invalid_domain_with_path() {
    let mut store = DomainStore::new();
    let err = store.add_domain("app.example.com/path", "dep_123", "ns_alice").unwrap_err();
    assert!(matches!(err, DomainError::InvalidDomain { .. }));
}

#[test]
fn domains_list_filters_by_namespace() {
    let mut store = DomainStore::new();

    store.add_domain("alice.example.com", "dep_1", "ns_alice").unwrap();
    store.add_domain("alice2.example.com", "dep_2", "ns_alice").unwrap();
    store.add_domain("bob.example.com", "dep_3", "ns_bob").unwrap();

    let alice_domains = store.list_domains_for_namespace("ns_alice");
    assert_eq!(alice_domains.len(), 2);
    assert!(alice_domains.iter().all(|d| d.namespace == "ns_alice"));

    let bob_domains = store.list_domains_for_namespace("ns_bob");
    assert_eq!(bob_domains.len(), 1);
    assert_eq!(bob_domains[0].domain, "bob.example.com");

    let empty = store.list_domains_for_namespace("ns_nobody");
    assert!(empty.is_empty());
}

#[test]
fn verify_transitions_status_to_active() {
    let mut store = DomainStore::new();
    store.add_domain("app.example.com", "dep_123", "ns_alice").unwrap();

    let verified = store.verify_domain("app.example.com").unwrap();
    assert_eq!(verified.status, DomainStatus::Active);
    assert!(verified.verified_at.is_some());

    let fetched = store.get_domain("app.example.com").unwrap();
    assert_eq!(fetched.status, DomainStatus::Active);
}

#[test]
fn verify_already_active_domain_fails() {
    let mut store = DomainStore::new();
    store.add_domain("app.example.com", "dep_123", "ns_alice").unwrap();
    store.verify_domain("app.example.com").unwrap();

    let err = store.verify_domain("app.example.com").unwrap_err();
    assert!(matches!(err, DomainError::VerificationFailed { .. }));
}

#[test]
fn verify_nonexistent_domain_fails() {
    let mut store = DomainStore::new();
    let err = store.verify_domain("ghost.example.com").unwrap_err();
    assert!(matches!(err, DomainError::NotFound { .. }));
}

#[test]
fn remove_nonexistent_domain_fails() {
    let mut store = DomainStore::new();
    let err = store.remove_domain("ghost.example.com").unwrap_err();
    assert!(matches!(err, DomainError::NotFound { .. }));
}

#[test]
fn domain_normalized_to_lowercase() {
    let mut store = DomainStore::new();
    store.add_domain("App.Example.COM", "dep_123", "ns_alice").unwrap();
    assert!(store.get_domain("app.example.com").is_some());
    assert!(store.get_domain("APP.EXAMPLE.COM").is_some());
}

#[test]
fn status_display_formats() {
    assert_eq!(DomainStatus::Pending.to_string(), "pending");
    assert_eq!(DomainStatus::Active.to_string(), "active");
    assert_eq!(DomainStatus::Failed.to_string(), "failed");
}

#[test]
fn error_display_formats() {
    let err = DomainError::InvalidDomain { reason: "bad".to_string() };
    assert_eq!(err.to_string(), "invalid domain: bad");

    let err = DomainError::AlreadyExists { domain: "x.com".to_string() };
    assert_eq!(err.to_string(), "domain already exists: x.com");

    let err = DomainError::NotFound { domain: "x.com".to_string() };
    assert_eq!(err.to_string(), "domain not found: x.com");

    let err = DomainError::VerificationFailed { domain: "x.com".to_string() };
    assert_eq!(err.to_string(), "verification failed for domain: x.com");
}

#[test]
fn validation_reasons_in_rule_order() {
    let reason = |d: &str| match validate_domain(d) {
        Err(DomainError::InvalidDomain { reason }) => reason,
        _ => String::from("ok"),
    };
    assert_eq!(reason("   "), "domain must not be empty");
    assert_eq!(reason("http://*.x"), "domain must not contain protocol prefix (e.g. http://)");
    assert_eq!(reason("*.x.com"), "wildcard domains are not supported");
    assert_eq!(reason("localhost"), "domain must contain at least one dot");
    assert_eq!(reason("a b.com"), "domain must not contain spaces");
    assert_eq!(reason("a.com/x"), "domain must not contain path separators");
    assert_eq!(reason("  a.com\t"), "ok");
}

#[test]
fn cname_target_appends_edge_suffix() {
    assert_eq!(cname_target("ns/api"), "ns/api.edge.warpgrid.dev");
}

#[test]
fn padded_domain_is_the_same_entry() {
    let mut store = DomainStore::new();
    let resp = store.add_domain("  Shop.Example.com \n", "dep_1", "ns").unwrap();
    assert_eq!(resp.mapping.domain, "shop.example.com");
    assert_eq!(resp.dns.name, "shop.example.com");
    let err = store.add_domain("shop.example.com", "dep_2", "ns").unwrap_err();
    assert!(matches!(err, DomainError::AlreadyExists { ref domain } if domain == "shop.example.com"));
    store.remove_domain(" SHOP.example.com").unwrap();
    assert!(store.get_domain("shop.example.com").is_none());
}
