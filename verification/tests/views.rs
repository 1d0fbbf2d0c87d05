use warpgrid::cluster::NodeInfo;
use warpgrid::dashboard::{HealthStatus, InstanceState, InstanceStatus, TriggerConfig};
use warpgrid::order::{sort_entries, text_less};
use warpgrid::strmap::StrMap;
use warpgrid::dashboard::{RolloutPhase, RolloutStrategy};
use warpgrid::views::{
    active_rollout_count, build_alerts, instances_on_node, build_cluster_summary, build_cluster_summary_at, cluster_mode,
    namespace_counts, placeholder_deployment, placeholder_node, split_rollouts, DeploymentSpec,
    DeploymentView, HealthConfig, InstanceConstraints, NodeView, ResourceLimits, Rollout, RolloutView,
    ShimsEnabled,
};

fn spec(id: &str, namespace: &str, name: &str, source: &str, trigger: TriggerConfig, max: u32) -> DeploymentSpec {
    DeploymentSpec {
        id: id.to_string(),
        namespace: namespace.to_string(),
        name: name.to_string(),
        source: source.to_string(),
        trigger,
        instances: InstanceConstraints { min: 1, max },
        resources: ResourceLimits { memory_bytes: 64 * 1024 * 1024, cpu_weight: 100 },
        health: None,
        shims: ShimsEnabled::default(),
        env: StrMap::new(),
        created_at: 1000,
        updated_at: 1000,
    }
}

fn instance(id: &str, deployment: &str, status: InstanceStatus, health: HealthStatus) -> InstanceState {
    InstanceState {
        id: id.to_string(),
        deployment_id: deployment.to_string(),
        node_id: "node-1".to_string(),
        status,
        health,
        restart_count: 0,
        memory_bytes: 32 * 1024 * 1024,
        started_at: 1000,
        updated_at: 1000,
    }
}

fn node(id: &str, last_heartbeat: u64) -> NodeInfo {
    NodeInfo {
        id: id.to_string(),
        address: "10.0.0.1".to_string(),
        port: 8443,
        capacity_memory_bytes: 8_000_000_000,
        capacity_cpu_weight: 1000,
        used_memory_bytes: 500_000_000,
        used_cpu_weight: 200,
        labels: StrMap::new(),
        last_heartbeat,
    }
}

#[test]
fn deployment_view_from_spec() {
    let spec = spec("default/api", "default", "api", "file://test.wasm", TriggerConfig::Http { port: Some(8080) }, 10);
    let instances = vec![instance("inst-0", "default/api", InstanceStatus::Running, HealthStatus::Healthy)];
    let view = DeploymentView::from_spec(&spec, &instances);
    assert_eq!(view.name, "api");
    assert_eq!(view.instances_running, 1);
    assert_eq!(view.trigger_display, "HTTP :8080");
    assert_eq!(view.health_dots.len(), 1);
    assert_eq!(view.health_dots[0].color, "bg-emerald-400");
}

#[test]
fn deployment_view_fields_at_fixed_time() {
    let mut d = spec("prod/web", "prod", "web", "oci://web", TriggerConfig::Cron { schedule: "*/5 * * * *".to_string() }, 4);
    d.health = Some(HealthConfig {
        endpoint: "/healthz".to_string(),
        interval: "10s".to_string(),
        timeout: "2s".to_string(),
        unhealthy_threshold: 3,
    });
    d.env.insert("ZED".to_string(), "1".to_string());
    d.env.insert("ALPHA".to_string(), "2".to_string());
    d.env.insert("MID".to_string(), "3".to_string());
    let instances = vec![
        instance("i-0", "prod/web", InstanceStatus::Running, HealthStatus::Unhealthy),
        instance("i-1", "prod/web", InstanceStatus::Stopped, HealthStatus::Unknown),
    ];
    let view = DeploymentView::from_spec_at(&d, &instances, 1000 + 7200);
    assert_eq!(view.id, "prod/web");
    assert_eq!(view.namespace, "prod");
    assert_eq!(view.source, "oci://web");
    assert_eq!(view.trigger_display, "Cron */5 * * * *");
    assert_eq!(view.trigger_icon, "CRON");
    assert_eq!(view.instances_running, 1);
    assert_eq!(view.instances_max, 4);
    assert_eq!(view.instances_min, 1);
    assert_eq!(view.health_dots[0].color, "bg-rose-400");
    assert_eq!(view.health_dots[0].title, "i-0 \u{2014} Running/Unhealthy");
    assert_eq!(view.health_dots[1].color, "bg-slate-500");
    assert_eq!(view.memory_display, "64 MB");
    assert_eq!(view.cpu_weight, 100);
    assert_eq!(view.created_display, "1970-01-01 00:16:40 UTC");
    assert_eq!(view.updated_display, "2h ago");
    let hc = view.health_config.unwrap();
    assert_eq!(hc.endpoint, "/healthz");
    assert_eq!(hc.unhealthy_threshold, 3);
    let keys: Vec<&str> = view.env_vars.iter().map(|(k, _)| k.as_str()).collect();
    assert_eq!(keys, vec!["ALPHA", "MID", "ZED"]);
    assert_eq!(view.env_vars[0].1, "2");
    assert!(!view.shims.dns);
}

#[test]
fn cluster_summary_aggregation() {
    let deployments = vec![spec("default/a", "default", "a", "test", TriggerConfig::Http { port: None }, 5)];
    let instances = vec![instance("i-0", "default/a", InstanceStatus::Running, HealthStatus::Healthy)];
    let nodes: Vec<NodeInfo> = vec![];
    let summary = build_cluster_summary(&deployments, &instances, &nodes, 0);
    assert_eq!(summary.deployment_count, 1);
    assert_eq!(summary.instances.running, 1);
    assert_eq!(summary.instances.total, 1);
}

#[test]
fn cluster_summary_counts_everything() {
    let deployments = vec![
        spec("prod/b", "prod", "b", "t", TriggerConfig::Http { port: None }, 1),
        spec("default/a", "default", "a", "t", TriggerConfig::Http { port: None }, 1),
        spec("prod/c", "prod", "c", "t", TriggerConfig::Http { port: None }, 1),
    ];
    let instances = vec![
        instance("i-0", "prod/b", InstanceStatus::Running, HealthStatus::Healthy),
        instance("i-1", "prod/b", InstanceStatus::Running, HealthStatus::Unhealthy),
        instance("i-2", "prod/c", InstanceStatus::Unhealthy, HealthStatus::Unknown),
        instance("i-3", "default/a", InstanceStatus::Stopped, HealthStatus::Unknown),
    ];
    let nodes = vec![node("n1", 990), node("n2", 900)];
    let s = build_cluster_summary_at(&deployments, &instances, &nodes, 2, 1000);
    assert_eq!(s.deployment_count, 3);
    assert_eq!(s.namespace_counts, vec![("default".to_string(), 1), ("prod".to_string(), 2)]);
    assert_eq!(s.instances.running, 2);
    assert_eq!(s.instances.unhealthy, 2);
    assert_eq!(s.instances.stopped, 1);
    assert_eq!(s.instances.total, 4);
    assert_eq!(s.node_count, 2);
    assert_eq!(s.nodes_ready, 1);
    assert_eq!(s.active_rollouts, 2);
    assert_eq!(s.memory_total, 16_000_000_000);
    assert_eq!(s.memory_used, 1_000_000_000);
    assert_eq!(s.cpu_total, 2000);
    assert_eq!(s.cpu_used, 400);
}

#[test]
fn namespace_counts_sorted_and_counted() {
    let ns: Vec<String> = ["b", "a", "b", "c", "a", "b"].iter().map(|s| s.to_string()).collect();
    let counts = namespace_counts(&ns);
    assert_eq!(
        counts,
        vec![("a".to_string(), 2), ("b".to_string(), 3), ("c".to_string(), 1)]
    );
    assert_eq!(counts.iter().map(|(_, c)| c).sum::<usize>(), ns.len());
    assert!(namespace_counts(&Vec::new()).is_empty());
}

#[test]
fn node_view_at_fixed_time() {
    let mut n = node("node-iad-1", 900);
    n.labels.insert("zone".to_string(), "b".to_string());
    n.labels.insert("region".to_string(), "iad".to_string());
    let v = NodeView::from_node_at(&n, 3, 1000);
    assert_eq!(v.id, "node-iad-1");
    assert_eq!(v.status, "Dead");
    assert_eq!(v.status_color, "text-rose-400");
    assert_eq!(v.heartbeat_color, "text-rose-400");
    assert_eq!(v.heartbeat_display, "1m ago");
    assert_eq!(v.labels, vec![("region".to_string(), "iad".to_string()), ("zone".to_string(), "b".to_string())]);
    assert_eq!(v.instance_count, 3);
    assert_eq!(v.memory_total, 8_000_000_000);
    let v = NodeView::from_node_at(&n, 0, 940);
    assert_eq!(v.status, "Draining");
    let v = NodeView::from_node_at(&n, 0, 910);
    assert_eq!(v.status, "Ready");
    assert_eq!(v.heartbeat_color, "text-slate-400");
}

#[test]
fn text_order_matches_str_order() {
    let words = ["", "a", "ab", "b", "B", "é", "z", "abc", "aa"];
    for x in words.iter() {
        for y in words.iter() {
            assert_eq!(text_less(x, y), x < y, "{x} < {y}");
        }
    }
}

#[test]
fn sort_entries_is_stable_by_key() {
    let v = vec![
        ("b".to_string(), "1".to_string()),
        ("a".to_string(), "2".to_string()),
        ("b".to_string(), "3".to_string()),
        ("a".to_string(), "4".to_string()),
    ];
    let mut expected = v.clone();
    expected.sort_by(|a, b| a.0.cmp(&b.0));
    assert_eq!(sort_entries(v), expected);
}

fn rollout(id: &str, strategy: RolloutStrategy, phase: RolloutPhase) -> Rollout {
    Rollout {
        deployment_id: id.to_string(),
        strategy,
        phase,
        old_version: "v1".to_string(),
        new_version: "v2".to_string(),
        target_instances: 3,
    }
}

#[test]
fn rollout_view_fields() {
    let v = RolloutView::from_rollout(&rollout(
        "prod/web",
        RolloutStrategy::Rolling,
        RolloutPhase::RollingBatch { current: 2, total: 5 },
    ));
    assert_eq!(v.deployment_id, "prod/web");
    assert_eq!(v.strategy_display, "Rolling");
    assert_eq!(v.strategy_badge_color, "bg-sky-500/20 text-sky-400");
    assert_eq!(v.phase.phase_display, "Rolling 2/5");
    assert_eq!(v.phase.progress_text, "Batch 2/5");
    assert!(v.phase.is_active && v.phase.can_pause && !v.phase.can_resume);
    assert_eq!(v.old_version, "v1");
    assert_eq!(v.new_version, "v2");
    assert_eq!(v.target_instances, 3);
    let v = RolloutView::from_rollout(&rollout("a", RolloutStrategy::BlueGreen, RolloutPhase::Paused));
    assert_eq!(v.strategy_display, "Blue-Green");
    assert!(v.phase.can_resume && !v.phase.can_pause);
}

#[test]
fn rollouts_split_and_counted() {
    let rs = vec![
        rollout("a", RolloutStrategy::Canary, RolloutPhase::Completed),
        rollout("b", RolloutStrategy::Canary, RolloutPhase::CanaryObserving),
        rollout("c", RolloutStrategy::Rolling, RolloutPhase::RolledBack { reason: "bad".to_string() }),
        rollout("d", RolloutStrategy::Rolling, RolloutPhase::Pending),
    ];
    assert_eq!(active_rollout_count(&rs), 2);
    let views: Vec<RolloutView> = rs.iter().map(RolloutView::from_rollout).collect();
    let (active, done) = split_rollouts(views);
    let ids = |v: &Vec<RolloutView>| v.iter().map(|r| r.deployment_id.clone()).collect::<Vec<_>>();
    assert_eq!(ids(&active), vec!["b", "d"]);
    assert_eq!(ids(&done), vec!["a", "c"]);
}

#[test]
fn cluster_mode_text() {
    assert_eq!(cluster_mode(0), "Standalone");
    assert_eq!(cluster_mode(3), "Cluster (3)");
}

#[test]
fn placeholders_for_unknown_ids() {
    let d = placeholder_deployment("ns/x");
    assert_eq!(d.id, "ns/x");
    assert_eq!(d.name, "ns/x");
    assert_eq!(d.namespace, "unknown");
    let v = DeploymentView::from_spec_at(&d, &Vec::new(), 50);
    assert_eq!(v.trigger_display, "HTTP :8080");
    assert_eq!(v.updated_display, "never");
    assert_eq!(v.memory_display, "0 B");
    let n = placeholder_node("node-9");
    let v = NodeView::from_node_at(&n, 0, 1000);
    assert_eq!(v.address, "unknown");
    assert_eq!(v.heartbeat_display, "never");
    assert_eq!(v.status, "Dead");
}

#[test]
fn alerts_in_order() {
    let d1 = spec("default/a", "default", "a", "t", TriggerConfig::Http { port: None }, 2);
    let d2 = spec("default/b", "default", "b", "t", TriggerConfig::Http { port: None }, 2);
    let views = vec![
        DeploymentView::from_spec_at(
            &d1,
            &vec![
                instance("i-0", "default/a", InstanceStatus::Running, HealthStatus::Unhealthy),
                instance("i-1", "default/a", InstanceStatus::Unhealthy, HealthStatus::Unknown),
            ],
            1000,
        ),
        DeploymentView::from_spec_at(&d2, &vec![instance("i-2", "default/b", InstanceStatus::Running, HealthStatus::Healthy)], 1000),
    ];
    let rates = vec![Some("7.5".to_string()), None];
    let rolls = vec![
        RolloutView::from_rollout(&rollout("default/b", RolloutStrategy::Canary, RolloutPhase::RolledBack { reason: "errors".to_string() })),
        RolloutView::from_rollout(&rollout("default/a", RolloutStrategy::Canary, RolloutPhase::Completed)),
    ];
    let alerts = build_alerts(&views, &rates, &rolls);
    assert_eq!(alerts.len(), 3);
    assert_eq!(alerts[0].severity, "Error");
    assert_eq!(alerts[0].deployment, "a");
    assert_eq!(alerts[0].message, "2 unhealthy instance(s)");
    assert_eq!(alerts[1].severity, "Warning");
    assert_eq!(alerts[1].severity_color, "border-amber-400/50 bg-amber-500/10");
    assert_eq!(alerts[1].message, "Error rate 7.5%");
    assert_eq!(alerts[2].deployment, "default/b");
    assert_eq!(alerts[2].message, "Rollout rolled back: errors");
}

fn test_deployment(ns: &str, name: &str) -> DeploymentSpec {
    DeploymentSpec {
        id: format!("{ns}/{name}"),
        namespace: ns.to_string(),
        name: name.to_string(),
        source: "file://test.wasm".to_string(),
        trigger: TriggerConfig::Http { port: Some(8080) },
        instances: InstanceConstraints { min: 1, max: 10 },
        resources: ResourceLimits { memory_bytes: 64 * 1024 * 1024, cpu_weight: 100 },
        health: None,
        shims: ShimsEnabled::default(),
        env: StrMap::new(),
        created_at: 1000,
        updated_at: 1000,
    }
}

fn test_instance(id: &str, deployment: &str, status: InstanceStatus, health: HealthStatus, restart_count: u32, memory_bytes: u64) -> InstanceState {
    InstanceState {
        id: id.to_string(),
        deployment_id: deployment.to_string(),
        node_id: "node-1".to_string(),
        status,
        health,
        restart_count,
        memory_bytes,
        started_at: 1000,
        updated_at: 1000,
    }
}

#[test]
fn deployment_view_from_spec_computes_fields() {
    let spec = test_deployment("default", "api");
    let instances = vec![
        test_instance("inst-0", "default/api", InstanceStatus::Running, HealthStatus::Healthy, 0, 32 * 1024 * 1024),
        test_instance("inst-1", "default/api", InstanceStatus::Stopped, HealthStatus::Unknown, 1, 0),
    ];
    let view = DeploymentView::from_spec(&spec, &instances);
    assert_eq!(view.name, "api");
    assert_eq!(view.instances_running, 1);
    assert_eq!(view.instances_max, 10);
    assert_eq!(view.health_dots.len(), 2);
    assert_eq!(view.trigger_display, "HTTP :8080");
}

#[test]
fn cluster_summary_counts_correctly() {
    let deployments = vec![
        test_deployment("default", "a"),
        test_deployment("default", "b"),
        test_deployment("prod", "c"),
    ];
    let instances = vec![
        test_instance("i-0", "default/a", InstanceStatus::Running, HealthStatus::Healthy, 0, 32 * 1024 * 1024),
        test_instance("i-1", "default/b", InstanceStatus::Stopped, HealthStatus::Unknown, 0, 0),
    ];
    let summary = build_cluster_summary(&deployments, &instances, &Vec::new(), 2);
    assert_eq!(summary.deployment_count, 3);
    assert_eq!(summary.instances.running, 1);
    assert_eq!(summary.instances.stopped, 1);
    assert_eq!(summary.instances.total, 2);
    assert_eq!(summary.active_rollouts, 2);
    assert_eq!(summary.node_count, 0);
}

#[test]
fn instances_counted_per_node() {
    let mut a = instance("i-0", "d", InstanceStatus::Running, HealthStatus::Healthy);
    a.node_id = "node-2".to_string();
    let insts = vec![a, instance("i-1", "d", InstanceStatus::Running, HealthStatus::Healthy), instance("i-2", "d", InstanceStatus::Stopped, HealthStatus::Unknown)];
    assert_eq!(instances_on_node(&insts, "node-1"), 2);
    assert_eq!(instances_on_node(&insts, "node-2"), 1);
    assert_eq!(instances_on_node(&insts, "node-3"), 0);
}
