use warpgrid::usage::UsageTracker;

#[test]
fn request_and_egress_counts_roundtrip() {
    let mut tracker = UsageTracker::new();
    tracker.record_request("team-1", "deploy-a", 15);
    tracker.record_request("team-1", "deploy-a", 22);
    tracker.record_request("team-1", "deploy-b", 8);
    tracker.record_compute("team-1");
    tracker.record_egress("team-1", 1024);
    tracker.record_egress("team-1", 2048);

    let snapshot = tracker.snapshot("team-1");
    assert_eq!(snapshot.team_id, "team-1");
    assert_eq!(snapshot.request_count, 3);
    assert_eq!(snapshot.egress_bytes, 3072);
    assert_eq!(snapshot.storage_bytes, 0);
    assert!(snapshot.period_start <= snapshot.period_end);
}

#[test]
fn teams_are_metered_apart() {
    let mut tracker = UsageTracker::new();
    tracker.record_request("team-a", "deploy-1", 10);
    tracker.record_request("team-a", "deploy-1", 20);
    tracker.record_compute("team-a");
    tracker.record_request("team-b", "deploy-2", 30);
    tracker.record_egress("team-b", 4096);

    let snap_a = tracker.peek("team-a");
    let snap_b = tracker.peek("team-b");
    assert_eq!(snap_a.request_count, 2);
    assert_eq!(snap_a.egress_bytes, 0);
    assert_eq!(snap_b.request_count, 1);
    assert_eq!(snap_b.egress_bytes, 4096);
}

#[test]
fn snapshot_starts_a_new_period() {
    let mut tracker = UsageTracker::new();
    tracker.record_request("team-1", "deploy-1", 10);
    tracker.record_request("team-1", "deploy-1", 20);
    let first = tracker.snapshot("team-1");
    assert_eq!(first.request_count, 2);
    let second = tracker.snapshot("team-1");
    assert_eq!(second.request_count, 0);
    assert_eq!(second.period_start, second.period_end);
}

#[test]
fn peek_keeps_counters() {
    let mut tracker = UsageTracker::new();
    tracker.record_request("team-1", "deploy-1", 10);
    assert_eq!(tracker.peek("team-1").request_count, 1);
    assert_eq!(tracker.peek("team-1").request_count, 1);
    assert_eq!(tracker.snapshot("team-1").request_count, 1);
}

#[test]
fn unknown_team_has_empty_usage() {
    let mut tracker = UsageTracker::new();
    let snap = tracker.snapshot("nobody");
    assert_eq!(snap.team_id, "nobody");
    assert_eq!(snap.request_count, 0);
    assert_eq!(snap.egress_bytes, 0);
    assert_eq!(snap.period_start, snap.period_end);
}

#[test]
fn peek_does_not_reset() {
    let mut tracker = UsageTracker::new();

    tracker.record_request("team-1", "deploy-1", 5);
    tracker.record_request("team-1", "deploy-1", 10);

    let first_peek = tracker.peek("team-1");
    assert_eq!(first_peek.request_count, 2);

    let second_peek = tracker.peek("team-1");
    assert_eq!(second_peek.request_count, 2);
}
