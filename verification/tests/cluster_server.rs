use warpgrid::agent_tokens::AgentTokenStore;
use warpgrid::cluster::{MembershipManager, NodeStatus};
use warpgrid::cluster_server::{ClusterError, ClusterServer, JoinRequest, TokenValidator, NoopTokenValidator};
use warpgrid::strmap::StrMap;

const NOW: u64 = 1_700_000_000;

fn request(address: &str, token: &str) -> JoinRequest {
    let mut labels = StrMap::new();
    labels.insert("zone".to_string(), "a".to_string());
    JoinRequest {
        address: address.to_string(),
        port: 8443,
        labels,
        capacity_memory_bytes: 8_000_000_000,
        capacity_cpu_weight: 1000,
        auth_token: token.to_string(),
    }
}

#[test]
fn self_hosted_join_without_token() {
    let mut server = ClusterServer::new(MembershipManager::new());
    let resp = server.join_at(request("10.0.0.1", ""), NOW).unwrap();
    assert!(resp.node_id.starts_with("node-"));
    assert_eq!(resp.node_id.len(), 13);
    assert_eq!(resp.namespace, "");
    assert_eq!(resp.heartbeat_interval_secs, 5);
    assert_eq!(resp.members.len(), 1);
    let m = &resp.members[0];
    assert_eq!(m.node_id, resp.node_id);
    assert_eq!(m.address, "10.0.0.1");
    assert_eq!(m.port, 8443);
    assert_eq!(m.status, NodeStatus::Ready);
    assert_eq!(m.labels.get("zone").map(|s| s.as_str()), Some("a"));
    assert!(m.labels.get("namespace").is_none());
    assert_eq!(m.last_heartbeat_epoch, NOW);
}

#[test]
fn cloud_join_requires_token() {
    let mut server = ClusterServer::with_auth(MembershipManager::new(), AgentTokenStore::new());
    match server.join_at(request("10.0.0.1", ""), NOW) {
        Err(ClusterError::Unauthenticated(m)) => assert_eq!(m, "auth_token is required to join this cluster"),
        _ => panic!("join without a token must be refused"),
    }
    assert_eq!(server.membership().list_members(NOW).len(), 0);
}

#[test]
fn cloud_join_binds_namespace() {
    let mut tokens = AgentTokenStore::new();
    let (raw, _token) = tokens.issue("acme", "edge-1");
    let mut server = ClusterServer::with_auth(MembershipManager::new(), tokens);
    let resp = server.join_at(request("10.0.0.2", &raw), NOW).unwrap();
    assert_eq!(resp.namespace, "acme");
    assert_eq!(resp.members[0].labels.get("namespace").map(|s| s.as_str()), Some("acme"));
    assert_eq!(resp.members[0].labels.get("zone").map(|s| s.as_str()), Some("a"));
}

#[test]
fn cloud_join_rejects_unknown_and_revoked_tokens() {
    let mut tokens = AgentTokenStore::new();
    let (raw, token) = tokens.issue("acme", "edge-1");
    assert!(tokens.revoke("acme", &token.id));
    let mut server = ClusterServer::with_auth(MembershipManager::new(), tokens);
    for t in [raw.as_str(), "wg_agent_bogus"] {
        match server.join_at(request("10.0.0.3", t), NOW) {
            Err(ClusterError::Unauthenticated(m)) => assert_eq!(m, "invalid or revoked agent token"),
            _ => panic!("join with a bad token must be refused"),
        }
    }
    assert_eq!(server.membership().list_members(NOW).len(), 0);
}

#[test]
fn members_heartbeat_and_leave() {
    let mut server = ClusterServer::new(MembershipManager::new());
    let a = server.join_at(request("10.0.0.1", ""), NOW).unwrap().node_id;
    let b = server.join_at(request("10.0.0.2", ""), NOW).unwrap();
    assert_eq!(b.members.len(), 2);
    assert!(server.heartbeat(&a, 100, 10));
    assert!(!server.heartbeat("node-unknown", 1, 1));
    assert!(server.leave(&a));
    assert!(!server.leave(&a));
    assert_eq!(server.get_members_at(NOW + 100).len(), 1);
    assert!(server.get_members().is_ok());
}

#[test]
fn join_now_uses_the_clock() {
    let mut server = ClusterServer::new(MembershipManager::new());
    let resp = server.join(request("10.0.0.1", "")).unwrap();
    assert_eq!(resp.members.len(), 1);
}

#[test]
fn noop_validator_accepts_anything() {
    let mut v = NoopTokenValidator;
    assert_eq!(v.validate_agent_token("whatever"), Some(("unmanaged".to_string(), String::new())));
}

#[test]
fn join_checks_token_before_clock() {
    let mut m = MembershipManager::new();
    m.join_at("10.0.0.9", 8443, StrMap::new(), 1, 1, u64::MAX);
    let mut server = ClusterServer::with_auth(m, AgentTokenStore::new());
    match server.join(request("10.0.0.1", "wg_agent_bogus")) {
        Err(ClusterError::Unauthenticated(msg)) => assert_eq!(msg, "invalid or revoked agent token"),
        _ => panic!("an invalid token must be refused first"),
    }
    match server.join(request("10.0.0.1", "")) {
        Err(ClusterError::Unauthenticated(msg)) => assert_eq!(msg, "auth_token is required to join this cluster"),
        _ => panic!("a missing token must be refused first"),
    }
    let mut open = ClusterServer::new(MembershipManager::new());
    assert!(open.join(request("10.0.0.1", "")).is_ok());
}

#[test]
fn heartbeat_keeps_node_details() {
    let mut server = ClusterServer::new(MembershipManager::new());
    let id = server.join_at(request("10.0.0.1", ""), NOW).unwrap().node_id;
    assert!(server.heartbeat(&id, 1_000_000_000, 200));
    let members = server.get_members().unwrap();
    let n = &members[0];
    assert_eq!(n.address, "10.0.0.1");
    assert_eq!(n.port, 8443);
    assert_eq!(n.capacity_memory_bytes, 8_000_000_000);
    assert_eq!(n.capacity_cpu_weight, 1000);
    assert_eq!(n.used_memory_bytes, 1_000_000_000);
    assert_eq!(n.used_cpu_weight, 200);
    assert_eq!(n.labels.get("zone").map(|s| s.as_str()), Some("a"));
    assert!(n.last_heartbeat_epoch > NOW);
    assert!(!server.heartbeat("unknown", 0, 0));
}
