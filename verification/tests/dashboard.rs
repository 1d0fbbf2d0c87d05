use warpgrid::dashboard::{
    count_instances, format_bytes, health_dot, rolled_back_alert, unhealthy_alert,
    InstanceState, InstanceView, format_relative_time, format_relative_time_at, format_timestamp, format_trigger,
    health_color, instance_status_color, node_health, phase_view, status_color_for_instance, strategy_display,
    HealthStatus, InstanceStatus, RolloutPhase, RolloutStrategy, TriggerConfig,
};

fn now_secs() -> u64 {
    std::time::SystemTime::now().duration_since(std::time::UNIX_EPOCH).unwrap().as_secs()
}

#[test]
fn views_format_bytes_units() {
    assert_eq!(format_bytes(0), "0 B");
    assert_eq!(format_bytes(512), "512 B");
    assert_eq!(format_bytes(1024), "1 KB");
    assert_eq!(format_bytes(1024 * 1024), "1 MB");
    assert_eq!(format_bytes(64 * 1024 * 1024), "64 MB");
    assert_eq!(format_bytes(2 * 1024 * 1024 * 1024), "2.0 GB");
    assert_eq!(format_bytes(1536 * 1024 * 1024), "1.5 GB");
}

#[test]
fn format_bytes_covers_all_units() {
    assert_eq!(format_bytes(0), "0 B");
    assert_eq!(format_bytes(500), "500 B");
    assert_eq!(format_bytes(1023), "1023 B");
    assert_eq!(format_bytes(1024), "1 KB");
    assert_eq!(format_bytes(2048), "2 KB");
    assert_eq!(format_bytes(1024 * 1024), "1 MB");
    assert_eq!(format_bytes(64 * 1024 * 1024), "64 MB");
    assert_eq!(format_bytes(1024 * 1024 * 1024), "1.0 GB");
    assert_eq!(format_bytes(1536 * 1024 * 1024), "1.5 GB");
    assert_eq!(format_bytes(8 * 1024 * 1024 * 1024), "8.0 GB");
}

#[test]
fn format_bytes_rounds_half_to_even() {
    // 1.5 KB and 2.5 KB round to the even neighbour, as `{:.0}` does.
    assert_eq!(format_bytes(1536), "2 KB");
    assert_eq!(format_bytes(2560), "2 KB");
    assert_eq!(format_bytes(1024 * 1024 + 600 * 1024), "2 MB");
}

#[test]
fn format_relative_time_values() {
    assert_eq!(format_relative_time(0), "never");
    let now = now_secs();
    assert!(format_relative_time(now - 30).contains("30s ago"));
    assert!(format_relative_time(now - 120).contains("2m ago"));
    assert!(format_relative_time(now - 7200).contains("2h ago"));
    assert!(format_relative_time(now - 172800).contains("2d ago"));
}

#[test]
fn format_relative_time_zero_returns_never() {
    assert_eq!(format_relative_time(0), "never");
}

#[test]
fn format_relative_time_recent_shows_seconds() {
    let result = format_relative_time(now_secs() - 30);
    assert!(result.contains("30s ago"), "expected '30s ago', got: {result}");
}

#[test]
fn format_relative_time_shows_minutes() {
    let result = format_relative_time(now_secs() - 120);
    assert!(result.contains("2m ago"), "expected '2m ago', got: {result}");
}

#[test]
fn format_relative_time_shows_hours() {
    let result = format_relative_time(now_secs() - 7200);
    assert!(result.contains("2h ago"), "expected '2h ago', got: {result}");
}

#[test]
fn format_relative_time_shows_days() {
    let result = format_relative_time(now_secs() - 172800);
    assert!(result.contains("2d ago"), "expected '2d ago', got: {result}");
}

#[test]
fn format_relative_time_at_boundaries() {
    assert_eq!(format_relative_time_at(1000, 1059), "59s ago");
    assert_eq!(format_relative_time_at(1000, 1060), "1m ago");
    assert_eq!(format_relative_time_at(1000, 1000 + 3600), "1h ago");
    assert_eq!(format_relative_time_at(1000, 1000 + 86400), "1d ago");
    assert_eq!(format_relative_time_at(2000, 1000), "0s ago");
}

#[test]
fn format_timestamp_valid() {
    let result = format_timestamp(1000);
    assert!(result.contains("1970"));
}

#[test]
fn format_timestamp_exact() {
    assert_eq!(format_timestamp(1000), "1970-01-01 00:16:40 UTC");
    assert_eq!(format_timestamp(u64::MAX / 2), "unknown");
}

#[test]
fn status_and_health_colors() {
    assert_eq!(status_color_for_instance(InstanceStatus::Running), "text-emerald-400");
    assert_eq!(status_color_for_instance(InstanceStatus::Stopped), "text-slate-500");
    assert_eq!(health_color(HealthStatus::Unknown), "text-slate-400");
    assert_eq!(instance_status_color(InstanceStatus::Running, HealthStatus::Unknown), "bg-amber-400");
    assert_eq!(instance_status_color(InstanceStatus::Running, HealthStatus::Healthy), "bg-emerald-400");
    assert_eq!(instance_status_color(InstanceStatus::Starting, HealthStatus::Unhealthy), "bg-sky-400");
}

#[test]
fn trigger_display() {
    let (text, icon) = format_trigger(&TriggerConfig::Http { port: Some(3000) });
    assert_eq!(text, "HTTP :3000");
    assert_eq!(icon, "HTTP");
    let (text, _) = format_trigger(&TriggerConfig::Http { port: None });
    assert_eq!(text, "HTTP :8080");
    let (text, icon) = format_trigger(&TriggerConfig::Cron { schedule: "*/5 * * * *".to_string() });
    assert_eq!(text, "Cron */5 * * * *");
    assert_eq!(icon, "CRON");
    let (text, icon) = format_trigger(&TriggerConfig::Queue { topic: "jobs".to_string() });
    assert_eq!(text, "Queue jobs");
    assert_eq!(icon, "Q");
}

#[test]
fn node_health_by_heartbeat_age() {
    assert_eq!(node_health(1000, 1030).0, "Ready");
    assert_eq!(node_health(1000, 1031).0, "Draining");
    assert_eq!(node_health(1000, 1061).0, "Dead");
    assert_eq!(node_health(2000, 1000).0, "Ready");
}

#[test]
fn strategy_and_phase_views() {
    assert_eq!(strategy_display(RolloutStrategy::BlueGreen).0, "Blue-Green");
    let v = phase_view(&RolloutPhase::RollingBatch { current: 2, total: 5 });
    assert_eq!(v.phase_display, "Rolling 2/5");
    assert_eq!(v.progress_text, "Batch 2/5");
    assert!(v.is_active && v.can_pause && !v.can_resume);
    let v = phase_view(&RolloutPhase::Paused);
    assert!(v.is_active && !v.can_pause && v.can_resume);
    let v = phase_view(&RolloutPhase::RolledBack { reason: "health check failed".to_string() });
    assert_eq!(v.progress_text, "health check failed");
    assert!(!v.is_active && !v.can_pause && !v.can_resume);
}

#[test]
fn instance_counts_by_status() {
    let instances = vec![
        (InstanceStatus::Running, HealthStatus::Healthy),
        (InstanceStatus::Running, HealthStatus::Unhealthy),
        (InstanceStatus::Unhealthy, HealthStatus::Unknown),
        (InstanceStatus::Stopped, HealthStatus::Unknown),
        (InstanceStatus::Starting, HealthStatus::Unknown),
    ];
    let c = count_instances(&instances);
    assert_eq!(c.running, 2);
    assert_eq!(c.unhealthy, 2);
    assert_eq!(c.stopped, 1);
    assert_eq!(c.total, 5);
}

#[test]
fn instance_view_from_state() {
    let state = InstanceState {
        id: "i-1".to_string(),
        deployment_id: "default/api".to_string(),
        node_id: "node-1".to_string(),
        status: InstanceStatus::Running,
        health: HealthStatus::Healthy,
        restart_count: 2,
        memory_bytes: 64 * 1024 * 1024,
        started_at: 0,
        updated_at: 0,
    };
    let v = InstanceView::from_state(&state);
    assert_eq!(v.id, "i-1");
    assert_eq!(v.status, "Running");
    assert_eq!(v.status_color, "text-emerald-400");
    assert_eq!(v.health, "Healthy");
    assert_eq!(v.health_color, "text-emerald-400");
    assert_eq!(v.restart_count, 2);
    assert_eq!(v.memory_display, "64 MB");
    assert_eq!(v.uptime_display, "never");
}

#[test]
fn health_dots_and_alerts() {
    let dot = health_dot("i-1", InstanceStatus::Running, HealthStatus::Unhealthy);
    assert_eq!(dot.color, "bg-rose-400");
    assert_eq!(dot.title, "i-1 \u{2014} Running/Unhealthy");
    let dots = vec![
        dot,
        health_dot("i-2", InstanceStatus::Running, HealthStatus::Healthy),
        health_dot("i-3", InstanceStatus::Unhealthy, HealthStatus::Unknown),
    ];
    let alert = unhealthy_alert("api", &dots).unwrap();
    assert_eq!(alert.severity, "Error");
    assert_eq!(alert.deployment, "api");
    assert_eq!(alert.message, "2 unhealthy instance(s)");
    assert!(unhealthy_alert("api", &vec![health_dot("i-2", InstanceStatus::Running, HealthStatus::Healthy)]).is_none());

    let rolled = phase_view(&RolloutPhase::RolledBack { reason: "health gate failed".to_string() });
    let alert = rolled_back_alert("prod/api", &rolled).unwrap();
    assert_eq!(alert.message, "Rollout rolled back: health gate failed");
    assert!(rolled_back_alert("prod/api", &phase_view(&RolloutPhase::Completed)).is_none());
}
