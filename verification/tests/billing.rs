use warpgrid::billing::{stripe_reply, BillingError, StripeBillingClient};
use warpgrid::billing::{BillingService, MockBillingClient, Plan, PlanLimits};

#[test]
fn free_plan_limits_match_beta_constraints() {
    let limits = PlanLimits::for_plan(Plan::Free);
    assert_eq!(limits.max_deployments, 3);
    assert_eq!(limits.max_instances_per_deployment, 5);
    assert_eq!(limits.max_wasm_size_bytes, 10 * 1024 * 1024);
    assert_eq!(limits.max_request_rate, 100);
}

#[test]
fn pro_plan_limits() {
    let limits = PlanLimits::for_plan(Plan::Pro);
    assert_eq!(limits.max_deployments, 10);
    assert_eq!(limits.max_instances_per_deployment, 20);
    assert_eq!(limits.max_wasm_size_bytes, 50 * 1024 * 1024);
    assert_eq!(limits.max_request_rate, 1000);
}

#[test]
fn enterprise_plan_limits_are_unlimited() {
    let limits = PlanLimits::for_plan(Plan::Enterprise);
    assert_eq!(limits.max_deployments, u32::MAX);
    assert_eq!(limits.max_instances_per_deployment, u32::MAX);
    assert_eq!(limits.max_wasm_size_bytes, u64::MAX);
    assert_eq!(limits.max_request_rate, u32::MAX);
}

#[test]
fn plan_price_cents() {
    assert_eq!(Plan::Free.price_cents(), Some(0));
    assert_eq!(Plan::Pro.price_cents(), Some(2900));
    assert_eq!(Plan::Enterprise.price_cents(), None);
}

#[test]
fn plan_price_labels() {
    assert_eq!(Plan::Free.price_label(), "$0/mo");
    assert_eq!(Plan::Pro.price_label(), "$29/mo");
    assert_eq!(Plan::Enterprise.price_label(), "Custom");
}

#[test]
fn mock_billing_roundtrip() {
    let mut mock = MockBillingClient::new();

    let customer_id = mock.create_customer("alice@example.com", "team-1").unwrap();
    assert!(customer_id.starts_with("mock_cus_"));

    assert_eq!(mock.get_plan(&customer_id), Plan::Free);

    mock.set_plan(&customer_id, Plan::Pro);
    assert_eq!(mock.get_plan(&customer_id), Plan::Pro);

    let url = mock.create_billing_portal_session(&customer_id).unwrap();
    assert!(url.starts_with("https://billing.stripe.com/mock/session/"));
    assert!(url.contains(&customer_id));
}

#[test]
fn billing_service_from_env_none_yields_mock() {
    assert!(matches!(BillingService::from_env(None), BillingService::Mock(_)));
}

#[test]
fn billing_service_from_env_empty_yields_mock() {
    assert!(matches!(BillingService::from_env(Some(String::new())), BillingService::Mock(_)));
}

#[test]
fn billing_service_from_env_with_key_yields_active() {
    assert!(matches!(
        BillingService::from_env(Some("sk_test_abc123".to_string())),
        BillingService::Active(_)
    ));
}

#[test]
fn mock_customer_ids_are_unique() {
    let mut mock = MockBillingClient::new();
    let id1 = mock.next_id();
    let id2 = mock.next_id();
    assert_ne!(id1, id2);
    assert_eq!(id1, "mock_cus_00000001");
    assert_eq!(id2, "mock_cus_00000002");
}

#[test]
fn unknown_customer_defaults_to_free() {
    let mock = MockBillingClient::new();
    assert_eq!(mock.get_plan("nonexistent"), Plan::Free);
}

#[test]
fn billing_service_plans() {
    let mut svc = BillingService::from_env(None);
    svc.set_plan("c1", Plan::Enterprise);
    assert_eq!(svc.get_plan("c1"), Plan::Enterprise);
    let mut live = BillingService::from_env(Some("sk".to_string()));
    live.set_plan("c1", Plan::Pro);
    assert_eq!(live.get_plan("c1"), Plan::Free);
}

#[test]
fn customer_ids_use_hex_counter() {
    let mut mock = MockBillingClient::new();
    for _ in 0..10 {
        mock.next_id();
    }
    assert_eq!(mock.next_id(), "mock_cus_0000000b");
}

#[test]
fn stripe_requests_and_replies() {
    let c = StripeBillingClient::new("sk_test_1");
    assert_eq!(c.auth_header(), "Bearer sk_test_1");
    assert_eq!(StripeBillingClient::customers_url(), "https://api.stripe.com/v1/customers");
    assert_eq!(StripeBillingClient::portal_sessions_url(), "https://api.stripe.com/v1/billing_portal/sessions");
    assert_eq!(StripeBillingClient::meter_events_url(), "https://api.stripe.com/v1/billing/meter_events");
    let f = StripeBillingClient::customer_form("a@b.c", "team-1");
    assert_eq!(f, vec![("email".to_string(), "a@b.c".to_string()), ("metadata[team_id]".to_string(), "team-1".to_string())]);
    assert_eq!(StripeBillingClient::portal_form("cus_1"), vec![("customer".to_string(), "cus_1".to_string())]);
    let u = StripeBillingClient::usage_form("cus_1", 42);
    assert_eq!(u[0], ("event_name".to_string(), "compute_seconds".to_string()));
    assert_eq!(u[1], ("payload[stripe_customer_id]".to_string(), "cus_1".to_string()));
    assert_eq!(u[2], ("payload[value]".to_string(), "42".to_string()));
    match stripe_reply(false, "boom", None, "missing customer id in response") {
        Err(BillingError::Api(m)) => assert_eq!(m, "Stripe error: boom"),
        _ => panic!("expected an error"),
    }
    assert_eq!(stripe_reply(true, "", Some("cus_9".to_string()), "x").unwrap(), "cus_9");
    match stripe_reply(true, "{}", None, "missing customer id in response") {
        Err(BillingError::Api(m)) => assert_eq!(m, "missing customer id in response"),
        _ => panic!("expected an error"),
    }
}
