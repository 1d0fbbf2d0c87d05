use warpgrid::api::{
    check_rollout_form, check_rollout_start, check_scale, pause_resume_fragment, rollout_started_fragment,
    scale_fragment, RolloutForm, ScaleForm, ScaleRequest, StrategyChoice,
};
use warpgrid::dashboard::RolloutPhase;

#[test]
fn scale_validates_max() {
    let e = check_scale("default/api", Some(10), &ScaleRequest { target: 100 }).unwrap_err();
    assert_eq!(e.status, 400);
    assert_eq!(e.message, "target 100 exceeds max 10");
}

#[test]
fn scale_missing_deployment_returns_404() {
    let e = check_scale("nope/missing", None, &ScaleRequest { target: 1 }).unwrap_err();
    assert_eq!((e.status, e.message.as_str()), (404, "deployment not found"));
}

#[test]
fn scale_accepts_target_within_max() {
    let a = check_scale("default/api", Some(5), &ScaleRequest { target: 3 }).unwrap();
    assert_eq!(a.target, 3);
    assert_eq!(a.status, "scaling");
    assert_eq!(a.deployment, "default/api");
}

#[test]
fn scale_rejects_target_above_max() {
    let e = check_scale("default/api", Some(5), &ScaleRequest { target: 100 }).unwrap_err();
    assert_eq!(e.status, 400);
    assert!(e.message.contains("exceeds max"));
}

#[test]
fn scale_bounds_are_inclusive() {
    assert!(check_scale("d", Some(10), &ScaleRequest { target: 10 }).is_ok());
    assert!(check_scale("d", Some(10), &ScaleRequest { target: 0 }).is_ok());
}

#[test]
fn start_rollout_missing_deployment() {
    let e = check_rollout_start(false, None).unwrap_err();
    assert_eq!((e.status, e.message.as_str()), (404, "deployment not found"));
}

#[test]
fn duplicate_active_rollout_rejected() {
    assert!(check_rollout_start(true, None).is_ok());
    let e = check_rollout_start(true, Some(&RolloutPhase::RollingBatch { current: 1, total: 3 })).unwrap_err();
    assert_eq!((e.status, e.message.as_str()), (409, "rollout already in progress"));
    assert!(check_rollout_start(true, Some(&RolloutPhase::Paused)).is_err());
    assert!(check_rollout_start(true, Some(&RolloutPhase::Completed)).is_ok());
    assert!(check_rollout_start(true, Some(&RolloutPhase::RolledBack { reason: "x".to_string() })).is_ok());
}

#[test]
fn scale_fragments() {
    assert_eq!(
        scale_fragment("default/api", None, &ScaleForm { target: 3 }),
        "<div class=\"text-rose-400 text-sm font-mono\">Deployment not found</div>"
    );
    assert_eq!(
        scale_fragment("default/api", Some(10), &ScaleForm { target: 100 }),
        "<div class=\"text-amber-400 text-sm font-mono\">Target 100 exceeds max 10</div>"
    );
    assert_eq!(
        scale_fragment("default/api", Some(10), &ScaleForm { target: 4 }),
        "<div class=\"text-emerald-400 text-sm font-mono\">Scaling default/api to 4 instances</div>"
    );
}

#[test]
fn rollout_form_reading() {
    let form = |s: &str, v: &str| RolloutForm { strategy: s.to_string(), new_version: v.to_string() };
    assert_eq!(check_rollout_form(true, &form("canary", "v2")).unwrap(), StrategyChoice::Canary);
    assert_eq!(check_rollout_form(true, &form("blue_green", "v2")).unwrap(), StrategyChoice::BlueGreen);
    assert_eq!(check_rollout_form(true, &form("rolling", "v2")).unwrap(), StrategyChoice::Rolling);
    assert_eq!(check_rollout_form(true, &form("weird", "v2")).unwrap(), StrategyChoice::Rolling);
    assert!(check_rollout_form(true, &form("canary", "")).unwrap_err().contains("Version is required"));
    assert!(check_rollout_form(false, &form("canary", "v2")).unwrap_err().contains("Deployment not found"));
}

#[test]
fn rollout_fragments() {
    assert!(rollout_started_fragment("prod/api").contains("Rollout started for prod/api"));
    assert!(pause_resume_fragment(false, true).contains("Rollout not found"));
    assert!(pause_resume_fragment(true, true).contains("Rollout paused"));
    assert!(pause_resume_fragment(true, false).contains("Rollout resumed"));
}
