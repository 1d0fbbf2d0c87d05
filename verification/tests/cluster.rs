use warpgrid::cluster::{
    generate_node_id, join_admission, join_namespace, labels_with_namespace, member_status,
    noop_validate_agent_token, to_protocol_status, AgentConfig, JoinAdmission, MemberStatus,
    MembershipManager, NodeAgent, NodeStatus,
};
use warpgrid::strmap::StrMap;

fn test_config() -> AgentConfig {
    AgentConfig {
        control_plane_addr: "127.0.0.1:50051".to_string(),
        address: "10.0.0.1".to_string(),
        port: 8443,
        labels: StrMap::new(),
        capacity_memory_bytes: 8_000_000_000,
        capacity_cpu_weight: 1000,
    }
}

#[test]
fn agent_creation() {
    let agent = NodeAgent::new(test_config());
    assert!(agent.node_id().is_none());
}

#[test]
fn agent_config_with_labels() {
    let mut config = test_config();
    config.labels.insert("region".to_string(), "us-east-1".to_string());

    let agent = NodeAgent::new(config);
    assert!(agent.node_id().is_none());
}

#[test]
fn agent_records_join() {
    let mut agent = NodeAgent::new(test_config());
    assert_eq!(agent.joined_node_id().unwrap_err(), "not joined — call join() first");
    assert_eq!(agent.control_plane_url(), "http://127.0.0.1:50051");
    agent.record_join("node-0000abcd".to_string(), 7);
    assert_eq!(agent.node_id(), Some("node-0000abcd"));
    assert_eq!(agent.joined_node_id().unwrap(), "node-0000abcd");
}

const NOW: u64 = 1_700_000_000;

#[test]
fn join_creates_node() {
    let mut mgr = MembershipManager::new();
    let node_id = mgr.join_at("10.0.0.1", 8443, StrMap::new(), 8_000_000_000, 1000, NOW);

    assert!(node_id.starts_with("node-"));
    assert_eq!(node_id.len(), 13);
    let member = mgr.get_member(&node_id, NOW).unwrap();
    assert_eq!(member.address, "10.0.0.1");
    assert_eq!(member.port, 8443);
    assert_eq!(member.status, MemberStatus::Ready);
}

#[test]
fn heartbeat_updates_usage() {
    let mut mgr = MembershipManager::new();
    let node_id = mgr.join_at("10.0.0.1", 8443, StrMap::new(), 8_000_000_000, 1000, NOW);

    assert!(mgr.heartbeat_at(&node_id, 1_000_000_000, 200, NOW + 1));

    let member = mgr.get_member(&node_id, NOW + 1).unwrap();
    assert_eq!(member.used_memory_bytes, 1_000_000_000);
    assert_eq!(member.used_cpu_weight, 200);
    assert_eq!(member.last_heartbeat, NOW + 1);
}

#[test]
fn heartbeat_unknown_node_returns_false() {
    let mut mgr = MembershipManager::new();
    let ack = mgr.heartbeat("unknown", 0, 0);
    assert!(!ack);
}

#[test]
fn leave_removes_node() {
    let mut mgr = MembershipManager::new();
    let node_id = mgr.join("10.0.0.1", 8443, StrMap::new(), 8_000_000_000, 1000);

    assert!(mgr.leave(&node_id));
    assert!(mgr.get_member(&node_id, u64::MAX).is_none());
    assert!(!mgr.leave(&node_id));
}

#[test]
fn list_members_returns_all() {
    let mut mgr = MembershipManager::new();
    mgr.join_at("10.0.0.1", 8443, StrMap::new(), 8_000_000_000, 1000, NOW);
    mgr.join_at("10.0.0.2", 8443, StrMap::new(), 8_000_000_000, 1000, NOW);

    let members = mgr.list_members(NOW);
    assert_eq!(members.len(), 2);
}

#[test]
fn dead_node_detection() {
    let mut mgr = MembershipManager::new().with_dead_timeout(0);
    let node_id = mgr.join_at("10.0.0.1", 8443, StrMap::new(), 8_000_000_000, 1000, 1000);

    let member = mgr.get_member(&node_id, NOW).unwrap();
    assert_eq!(member.status, MemberStatus::Dead);
}

#[test]
fn reap_dead_nodes() {
    let mut mgr = MembershipManager::new().with_dead_timeout(0);
    mgr.join_at("10.0.0.1", 8443, StrMap::new(), 8_000_000_000, 1000, 1000);

    let reaped = mgr.reap_dead_nodes(NOW);
    assert_eq!(reaped.len(), 1);
    assert!(mgr.list_members(NOW).is_empty());
}

#[test]
fn ready_count() {
    let mut mgr = MembershipManager::new();
    mgr.join_at("10.0.0.1", 8443, StrMap::new(), 8_000_000_000, 1000, NOW);
    mgr.join_at("10.0.0.2", 8443, StrMap::new(), 8_000_000_000, 1000, NOW);

    assert_eq!(mgr.ready_count(NOW), 2);
}

#[test]
fn labels_preserved() {
    let mut mgr = MembershipManager::new();
    let mut labels = StrMap::new();
    labels.insert("region".to_string(), "us-east-1".to_string());
    labels.insert("zone".to_string(), "a".to_string());

    let node_id = mgr.join_at("10.0.0.1", 8443, labels, 8_000_000_000, 1000, NOW);

    let member = mgr.get_member(&node_id, NOW).unwrap();
    assert_eq!(member.labels.get("region").unwrap(), "us-east-1");
    assert_eq!(member.labels.get("zone").unwrap(), "a");
}

#[test]
fn cluster_integration_dead_node_detection_and_reaping() {
    let mut mgr = MembershipManager::new().with_dead_timeout(30);
    let alive = mgr.join_at("10.0.0.1", 8443, StrMap::new(), 1, 1, NOW - 10);
    let dead = mgr.join_at("10.0.0.2", 8443, StrMap::new(), 1, 1, NOW - 31);
    assert_eq!(mgr.ready_count(NOW), 1);
    let reaped = mgr.reap_dead_nodes(NOW);
    assert_eq!(reaped, vec![dead.clone()]);
    assert!(mgr.get_member(&dead, NOW).is_none());
    assert_eq!(mgr.get_member(&alive, NOW).unwrap().status, MemberStatus::Ready);
}

#[test]
fn liveness_boundary() {
    assert_eq!(member_status(130, 100, 30), MemberStatus::Ready);
    assert_eq!(member_status(131, 100, 30), MemberStatus::Dead);
    assert_eq!(to_protocol_status(MemberStatus::Dead), NodeStatus::Unknown);
    assert_eq!(to_protocol_status(MemberStatus::Ready), NodeStatus::Ready);
}

#[test]
fn join_decisions() {
    assert!(matches!(join_admission("tok", true), JoinAdmission::ValidateToken));
    assert!(matches!(join_admission("", false), JoinAdmission::Unmanaged));
    match join_admission("", true) {
        JoinAdmission::Rejected(m) => assert_eq!(m, "auth_token is required to join this cluster"),
        _ => panic!("expected a refusal"),
    }
    assert_eq!(join_namespace(Some(("agt_1".to_string(), "acme".to_string()))).unwrap(), "acme");
    assert_eq!(join_namespace(None).unwrap_err(), "invalid or revoked agent token");
    let (id, ns) = noop_validate_agent_token("anything").unwrap();
    assert_eq!(id, "unmanaged");
    assert!(ns.is_empty());
}

#[test]
fn namespace_label_injected() {
    let mut labels = StrMap::new();
    labels.insert("region".to_string(), "iad".to_string());
    labels.insert("namespace".to_string(), "spoofed".to_string());
    let out = labels_with_namespace(labels, "acme");
    assert_eq!(out.get("namespace").unwrap(), "acme");
    assert_eq!(out.get("region").unwrap(), "iad");
    let mut plain = StrMap::new();
    plain.insert("region".to_string(), "iad".to_string());
    let out = labels_with_namespace(plain, "");
    assert!(out.get("namespace").is_none());
    assert!(generate_node_id("10.0.0.1", 1, 2).starts_with("node-"));
}

#[test]
fn agent_join_request_advertises_config() {
    let mut config = test_config();
    config.labels.insert("region".to_string(), "us-east-1".to_string());
    let agent = NodeAgent::new(config);
    let req = agent.join_request();
    assert_eq!(req.address, "10.0.0.1");
    assert_eq!(req.port, 8443);
    assert_eq!(req.capacity_memory_bytes, 8_000_000_000);
    assert_eq!(req.capacity_cpu_weight, 1000);
    assert_eq!(req.labels.get("region").map(|s| s.as_str()), Some("us-east-1"));
    assert_eq!(req.auth_token, "");
}
