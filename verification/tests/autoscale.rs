use warpgrid::autoscale::{
    parse_duration_secs, Autoscaler, LatestMetrics, MetricSignals, ScaleDecision, ScalingInput, ScalingWindows,
};

const NOW: u64 = 1_000_000;

struct Spec {
    id: String,
    metric: String,
    target: f64,
    min: u32,
    max: u32,
    up: String,
    down: String,
    scaling: bool,
}

struct Snapshot {
    rps: f64,
    latency_p99_ms: f64,
    error_rate: f64,
    total_memory_bytes: u64,
    active_instances: u32,
}

fn make_spec(id: &str, metric: &str, target: f64, min: u32, max: u32) -> Spec {
    Spec {
        id: id.to_string(),
        metric: metric.to_string(),
        target,
        min,
        max,
        up: "0s".to_string(),
        down: "0s".to_string(),
        scaling: true,
    }
}

fn make_spec_with_cooldown(
    id: &str,
    metric: &str,
    target: f64,
    min: u32,
    max: u32,
    up: &str,
    down: &str,
) -> Spec {
    let mut s = make_spec(id, metric, target, min, max);
    s.up = up.to_string();
    s.down = down.to_string();
    s
}

fn make_snapshot(rps: f64, active: u32) -> Snapshot {
    Snapshot {
        rps,
        latency_p99_ms: 50.0,
        error_rate: 0.01,
        total_memory_bytes: 64 * 1024 * 1024,
        active_instances: active,
    }
}

/// Compares the configured metric with its target, as the daemon does.
fn signals(spec: &Spec, snap: &Snapshot) -> MetricSignals {
    let value = match spec.metric.as_str() {
        "rps" => snap.rps,
        "latency_p99" => snap.latency_p99_ms,
        "error_rate" => snap.error_rate,
        "memory" => snap.total_memory_bytes as f64,
        _ => {
            return MetricSignals {
                metric_known: false,
                zero_traffic: false,
                scale_up_to: None,
                scale_down_to: None,
            }
        }
    };
    let target = spec.target;
    let current = snap.active_instances as f64;
    let ratio = value / target;
    MetricSignals {
        metric_known: true,
        zero_traffic: spec.metric == "rps" && snap.rps == 0.0,
        scale_up_to: if value > target * 1.1 { Some((current * ratio).ceil() as u32) } else { None },
        scale_down_to: if value < target * 0.5 {
            Some((current * ratio).ceil().max(1.0) as u32)
        } else {
            None
        },
    }
}

fn evaluate(scaler: &mut Autoscaler, spec: &Spec, snap: &Snapshot) -> ScaleDecision {
    let windows = ScalingWindows { scale_up_window: spec.up.clone(), scale_down_window: spec.down.clone() };
    let scaling = if spec.scaling { Some(&windows) } else { None };
    scaler.evaluate(
        &spec.id,
        scaling,
        spec.min,
        spec.max,
        snap.active_instances,
        signals(spec, snap),
        NOW,
    )
}

#[test]
fn no_scaling_config_returns_no_change() {
    let mut scaler = Autoscaler::new();
    let mut spec = make_spec("default/api", "rps", 100.0, 1, 10);
    spec.scaling = false;
    let snap = make_snapshot(200.0, 2);
    assert_eq!(evaluate(&mut scaler, &spec, &snap), ScaleDecision::NoChange);
}

#[test]
fn scale_up_when_above_target() {
    let mut scaler = Autoscaler::new();
    let spec = make_spec("default/api", "rps", 100.0, 1, 10);
    let snap = make_snapshot(200.0, 2);
    let decision = evaluate(&mut scaler, &spec, &snap);
    assert!(matches!(decision, ScaleDecision::ScaleTo(n) if n > 2));
}

#[test]
fn scale_down_when_below_target() {
    let mut scaler = Autoscaler::new();
    let spec = make_spec("default/api", "rps", 100.0, 1, 10);
    let snap = make_snapshot(20.0, 4);
    let decision = evaluate(&mut scaler, &spec, &snap);
    assert!(matches!(decision, ScaleDecision::ScaleTo(n) if n < 4));
}

#[test]
fn no_change_when_near_target() {
    let mut scaler = Autoscaler::new();
    let spec = make_spec("default/api", "rps", 100.0, 1, 10);
    let snap = make_snapshot(95.0, 2);
    assert_eq!(evaluate(&mut scaler, &spec, &snap), ScaleDecision::NoChange);
}

#[test]
fn respects_max_instances() {
    let mut scaler = Autoscaler::new();
    let mut spec = make_spec("default/api", "rps", 10.0, 1, 10);
    spec.max = 5;
    let snap = make_snapshot(1000.0, 1);
    assert_eq!(evaluate(&mut scaler, &spec, &snap), ScaleDecision::ScaleTo(5));
}

#[test]
fn respects_min_instances() {
    let mut scaler = Autoscaler::new();
    let mut spec = make_spec("default/api", "rps", 100.0, 1, 10);
    spec.min = 2;
    let snap = make_snapshot(5.0, 4);
    let decision = evaluate(&mut scaler, &spec, &snap);
    assert!(matches!(decision, ScaleDecision::ScaleTo(n) if n >= 2));
}

#[test]
fn scale_to_zero_when_no_traffic() {
    let mut scaler = Autoscaler::new();
    let mut spec = make_spec("default/api", "rps", 100.0, 1, 10);
    spec.min = 0;
    let snap = make_snapshot(0.0, 2);
    assert_eq!(evaluate(&mut scaler, &spec, &snap), ScaleDecision::ScaleTo(0));
}

#[test]
fn scaler_no_scale_to_zero_when_min_is_positive() {
    let mut scaler = Autoscaler::new();
    let spec = make_spec("default/api", "rps", 100.0, 1, 10);
    let snap = make_snapshot(0.0, 2);
    let decision = evaluate(&mut scaler, &spec, &snap);
    assert!(matches!(decision, ScaleDecision::ScaleTo(n) if n >= 1));
}

#[test]
fn latency_based_scaling() {
    let mut scaler = Autoscaler::new();
    let spec = make_spec("default/api", "latency_p99", 50.0, 1, 10);
    let mut snap = make_snapshot(100.0, 2);
    snap.latency_p99_ms = 120.0;
    let decision = evaluate(&mut scaler, &spec, &snap);
    assert!(matches!(decision, ScaleDecision::ScaleTo(n) if n > 2));
}

#[test]
fn unknown_metric_returns_no_change() {
    let mut scaler = Autoscaler::new();
    let spec = make_spec("default/api", "cpu_usage", 50.0, 1, 10);
    let snap = make_snapshot(100.0, 2);
    assert_eq!(evaluate(&mut scaler, &spec, &snap), ScaleDecision::NoChange);
}

#[test]
fn parse_duration_secs_values() {
    assert_eq!(parse_duration_secs("30s"), 30);
    assert_eq!(parse_duration_secs("5m"), 300);
    assert_eq!(parse_duration_secs("0s"), 0);
    assert_eq!(parse_duration_secs("invalid"), 30);
}

#[test]
fn parse_duration_secs_edge_cases() {
    assert_eq!(parse_duration_secs("  45s  "), 45);
    assert_eq!(parse_duration_secs("xm"), 300);
    assert_eq!(parse_duration_secs("xs"), 30);
    assert_eq!(parse_duration_secs("120"), 120);
    assert_eq!(parse_duration_secs(""), 30);
    assert_eq!(parse_duration_secs("2m"), 120);
}

#[test]
fn mixed_deployment_scale_decisions() {
    let mut scaler = Autoscaler::new();
    let spec_a = make_spec("default/api", "rps", 100.0, 1, 20);
    let decision_a = evaluate(&mut scaler, &spec_a, &make_snapshot(500.0, 3));
    assert!(matches!(decision_a, ScaleDecision::ScaleTo(n) if n > 3), "got: {decision_a:?}");

    let spec_b = make_spec("default/worker", "rps", 100.0, 1, 20);
    let decision_b = evaluate(&mut scaler, &spec_b, &make_snapshot(10.0, 6));
    assert!(matches!(decision_b, ScaleDecision::ScaleTo(n) if n < 6), "got: {decision_b:?}");

    let spec_c = make_spec("default/cache", "rps", 100.0, 1, 20);
    let decision_c = evaluate(&mut scaler, &spec_c, &make_snapshot(95.0, 4));
    assert_eq!(decision_c, ScaleDecision::NoChange);
}

#[test]
fn scale_to_zero_when_min_is_zero_and_rps_is_zero() {
    let mut scaler = Autoscaler::new();
    let spec = make_spec("default/idle-svc", "rps", 100.0, 0, 10);
    let decision = evaluate(&mut scaler, &spec, &make_snapshot(0.0, 3));
    assert_eq!(decision, ScaleDecision::ScaleTo(0));
}

#[test]
fn integration_autoscale_no_scale_to_zero_when_min_is_positive() {
    let mut scaler = Autoscaler::new();
    let spec = make_spec("default/always-on", "rps", 100.0, 1, 10);
    let decision = evaluate(&mut scaler, &spec, &make_snapshot(0.0, 3));
    assert!(matches!(decision, ScaleDecision::ScaleTo(n) if n >= 1), "got: {decision:?}");
}

#[test]
fn no_scale_to_zero_when_rps_nonzero() {
    let mut scaler = Autoscaler::new();
    let spec = make_spec("default/low-traffic", "rps", 100.0, 0, 10);
    let decision = evaluate(&mut scaler, &spec, &make_snapshot(5.0, 3));
    assert!(!matches!(decision, ScaleDecision::ScaleTo(0)), "got: {decision:?}");
}

#[test]
fn scale_to_zero_not_triggered_for_non_rps_metric() {
    let mut scaler = Autoscaler::new();
    let spec = make_spec("default/latency-svc", "latency_p99", 50.0, 0, 10);
    let mut snap = make_snapshot(0.0, 3);
    snap.latency_p99_ms = 10.0;
    let decision = evaluate(&mut scaler, &spec, &snap);
    assert!(matches!(decision, ScaleDecision::ScaleTo(n) if n < 3), "got: {decision:?}");
}

#[test]
fn cooldown_prevents_immediate_re_scale_up() {
    let mut scaler = Autoscaler::new();
    let spec = make_spec_with_cooldown("default/cooldown-up", "rps", 100.0, 1, 20, "3600s", "0s");
    let snap = make_snapshot(500.0, 2);
    let decision1 = evaluate(&mut scaler, &spec, &snap);
    assert!(matches!(decision1, ScaleDecision::ScaleTo(n) if n > 2), "got: {decision1:?}");
    let decision2 = evaluate(&mut scaler, &spec, &snap);
    assert_eq!(decision2, ScaleDecision::NoChange);
}

#[test]
fn cooldown_prevents_immediate_re_scale_down() {
    let mut scaler = Autoscaler::new();
    let spec = make_spec_with_cooldown("default/cooldown-down", "rps", 100.0, 1, 20, "0s", "3600s");
    let snap = make_snapshot(10.0, 6);
    let decision1 = evaluate(&mut scaler, &spec, &snap);
    assert!(matches!(decision1, ScaleDecision::ScaleTo(n) if n < 6), "got: {decision1:?}");
    let decision2 = evaluate(&mut scaler, &spec, &snap);
    assert_eq!(decision2, ScaleDecision::NoChange);
}

#[test]
fn cooldown_expires_after_window() {
    let mut scaler = Autoscaler::new();
    let windows = ScalingWindows { scale_up_window: "60s".to_string(), scale_down_window: "0s".to_string() };
    let up = MetricSignals { metric_known: true, zero_traffic: false, scale_up_to: Some(4), scale_down_to: None };
    assert_eq!(scaler.evaluate("a", Some(&windows), 1, 10, 2, up, 1000), ScaleDecision::ScaleTo(4));
    assert_eq!(scaler.evaluate("a", Some(&windows), 1, 10, 2, up, 1059), ScaleDecision::NoChange);
    assert_eq!(scaler.evaluate("a", Some(&windows), 1, 10, 2, up, 1060), ScaleDecision::ScaleTo(4));
}

#[test]
fn evaluate_now_uses_the_clock() {
    let mut scaler = Autoscaler::new();
    let windows = ScalingWindows { scale_up_window: "0s".to_string(), scale_down_window: "0s".to_string() };
    let up = MetricSignals { metric_known: true, zero_traffic: false, scale_up_to: Some(7), scale_down_to: None };
    assert_eq!(scaler.evaluate_now("a", Some(&windows), 1, 5, 2, up), Some(ScaleDecision::ScaleTo(5)));
    assert_eq!(scaler.evaluate_now("b", None, 1, 5, 2, up), Some(ScaleDecision::NoChange));
}

#[test]
fn latency_based_scale_up_on_high_p99() {
    let mut scaler = Autoscaler::new();
    let spec = make_spec("default/latency-api", "latency_p99", 50.0, 1, 20);
    let mut snap = make_snapshot(100.0, 3);
    snap.latency_p99_ms = 120.0;
    let decision = evaluate(&mut scaler, &spec, &snap);
    assert!(matches!(decision, ScaleDecision::ScaleTo(n) if n > 3), "got: {decision:?}");
}

#[test]
fn latency_based_scale_down_on_low_p99() {
    let mut scaler = Autoscaler::new();
    let spec = make_spec("default/latency-api", "latency_p99", 100.0, 1, 20);
    let mut snap = make_snapshot(50.0, 6);
    snap.latency_p99_ms = 20.0;
    let decision = evaluate(&mut scaler, &spec, &snap);
    assert!(matches!(decision, ScaleDecision::ScaleTo(n) if n < 6), "got: {decision:?}");
}

#[test]
fn latency_based_no_change_when_near_target() {
    let mut scaler = Autoscaler::new();
    let spec = make_spec("default/latency-api", "latency_p99", 50.0, 1, 20);
    let mut snap = make_snapshot(100.0, 3);
    snap.latency_p99_ms = 48.0;
    assert_eq!(evaluate(&mut scaler, &spec, &snap), ScaleDecision::NoChange);
}

#[test]
fn memory_based_scale_up_on_high_usage() {
    let mut scaler = Autoscaler::new();
    let target_bytes = 512.0 * 1024.0 * 1024.0;
    let spec = make_spec("default/mem-app", "memory", target_bytes, 1, 20);
    let mut snap = make_snapshot(50.0, 2);
    snap.total_memory_bytes = (1200.0 * 1024.0 * 1024.0) as u64;
    let decision = evaluate(&mut scaler, &spec, &snap);
    assert!(matches!(decision, ScaleDecision::ScaleTo(n) if n > 2), "got: {decision:?}");
}

#[test]
fn memory_based_scale_down_on_low_usage() {
    let mut scaler = Autoscaler::new();
    let target_bytes = 512.0 * 1024.0 * 1024.0;
    let spec = make_spec("default/mem-app", "memory", target_bytes, 1, 20);
    let mut snap = make_snapshot(50.0, 5);
    snap.total_memory_bytes = (100.0 * 1024.0 * 1024.0) as u64;
    let decision = evaluate(&mut scaler, &spec, &snap);
    assert!(matches!(decision, ScaleDecision::ScaleTo(n) if n < 5), "got: {decision:?}");
}

#[test]
fn memory_based_no_change_when_within_range() {
    let mut scaler = Autoscaler::new();
    let target_bytes = 512.0 * 1024.0 * 1024.0;
    let spec = make_spec("default/mem-app", "memory", target_bytes, 1, 20);
    let mut snap = make_snapshot(50.0, 3);
    snap.total_memory_bytes = (400.0 * 1024.0 * 1024.0) as u64;
    assert_eq!(evaluate(&mut scaler, &spec, &snap), ScaleDecision::NoChange);
}

#[test]
fn memory_based_scale_up_clamped_to_max() {
    let mut scaler = Autoscaler::new();
    let target_bytes = 100.0 * 1024.0 * 1024.0;
    let spec = make_spec("default/mem-burst", "memory", target_bytes, 1, 5);
    let mut snap = make_snapshot(50.0, 1);
    snap.total_memory_bytes = (5000.0 * 1024.0 * 1024.0) as u64;
    assert_eq!(evaluate(&mut scaler, &spec, &snap), ScaleDecision::ScaleTo(5));
}

fn round_input(spec: &Spec, snap: Option<&Snapshot>) -> ScalingInput {
    ScalingInput {
        id: spec.id.clone(),
        scaling: if spec.scaling {
            Some(ScalingWindows { scale_up_window: spec.up.clone(), scale_down_window: spec.down.clone() })
        } else {
            None
        },
        min: spec.min,
        max: spec.max,
        latest: snap.map(|s| LatestMetrics { active_instances: s.active_instances, signals: signals(spec, s) }),
    }
}

#[test]
fn evaluate_all_skips_unconfigured_and_unmeasured_deployments() {
    let mut scaler = Autoscaler::new();
    let up = make_spec("default/up", "rps", 100.0, 1, 10);
    let mut plain = make_spec("default/plain", "rps", 100.0, 1, 10);
    plain.scaling = false;
    let quiet = make_spec("default/quiet", "rps", 100.0, 1, 10);
    let down = make_spec("default/down", "rps", 100.0, 1, 10);
    let busy = make_snapshot(200.0, 2);
    let idle = make_snapshot(20.0, 4);
    let inputs = vec![
        round_input(&up, Some(&busy)),
        round_input(&plain, Some(&busy)),
        round_input(&quiet, None),
        round_input(&down, Some(&idle)),
    ];
    let pairs = scaler.evaluate_all_at(&inputs, NOW);
    assert_eq!(
        pairs,
        vec![
            ("default/up".to_string(), ScaleDecision::ScaleTo(4)),
            ("default/down".to_string(), ScaleDecision::ScaleTo(1)),
        ]
    );
}

#[test]
fn evaluate_all_chains_cooldowns_through_the_list() {
    let mut scaler = Autoscaler::new();
    let spec = make_spec_with_cooldown("default/api", "rps", 100.0, 1, 10, "60s", "60s");
    let busy = make_snapshot(200.0, 2);
    let busier = make_snapshot(400.0, 4);
    let inputs = vec![round_input(&spec, Some(&busy)), round_input(&spec, Some(&busier))];
    let pairs = scaler.evaluate_all_at(&inputs, NOW);
    assert_eq!(
        pairs,
        vec![
            ("default/api".to_string(), ScaleDecision::ScaleTo(4)),
            ("default/api".to_string(), ScaleDecision::NoChange),
        ]
    );
    let again = scaler.evaluate_all_at(&vec![round_input(&spec, Some(&busier))], NOW + 61);
    assert_eq!(again, vec![("default/api".to_string(), ScaleDecision::ScaleTo(10))]);
}

#[test]
fn evaluate_all_with_clock_on_fresh_autoscaler() {
    let mut scaler = Autoscaler::new();
    let spec = make_spec("default/api", "rps", 100.0, 1, 10);
    let busy = make_snapshot(200.0, 2);
    let pairs = scaler.evaluate_all(&vec![round_input(&spec, Some(&busy))]);
    assert_eq!(pairs, Some(vec![("default/api".to_string(), ScaleDecision::ScaleTo(4))]));
    assert_eq!(scaler.evaluate_all(&vec![]), Some(vec![]));
}
