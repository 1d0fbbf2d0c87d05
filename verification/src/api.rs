//! Decisions of the REST API and the dashboard's action forms: scaling
//! requests, starting rollouts, and the HTML fragments the dashboard
//! answers with.
//!
//! A deployment is looked up by the caller; here `max` is its maximum
//! instance count, `None` when it does not exist.

use vstd::prelude::*;
use crate::cloud_api::ApiError;
use crate::dashboard::{phase_active, RolloutPhase};
use crate::text::{dec, push_dec, push_str, str_eq, to_owned_str};

verus! {

/// The body of a scaling request.
#[derive(Debug)]
pub struct ScaleRequest {
    pub target: u32,
}

/// The dashboard's scaling form.
#[derive(Debug)]
pub struct ScaleForm {
    pub target: u32,
}

/// The dashboard's rollout form.
#[derive(Debug)]
pub struct RolloutForm {
    pub strategy: String,
    pub new_version: String,
}

/// The kind of rollout the dashboard's form asks for.
#[derive(Clone, Copy, Debug, PartialEq, Eq, Structural)]
pub enum StrategyChoice {
    /// Rolling batches with the default settings.
    Rolling,
    /// A canary with the default settings.
    Canary,
    /// A blue-green switch.
    BlueGreen,
}

/// The message of a scaling target above the maximum.
pub open spec fn exceeds_text(target: u32, max: u32) -> Seq<char> {
    "target "@ + dec(target as nat) + " exceeds max "@ + dec(max as nat)
}

/// The answer to an accepted scaling request: the deployment, the target
/// and the status `scaling`.
#[derive(Debug)]
pub struct ScaleAccepted {
    pub deployment: String,
    pub target: u32,
    pub status: &'static str,
}

/// Checks a scaling request of deployment `id`: the deployment must exist
/// (404) and the target must not exceed its maximum (400); an accepted
/// request is answered with the deployment, the target and `scaling`.
pub fn check_scale(id: &str, max: Option<u32>, req: &ScaleRequest) -> (res: Result<ScaleAccepted, ApiError>)
    ensures
        max is None ==> (res matches Err(e) && e.status == 404 && e.message@
            == "deployment not found"@),
        max is Some && req.target > max.unwrap() ==> (res matches Err(e) && e.status == 400
            && e.message@ == exceeds_text(req.target, max.unwrap())),
        max is Some && req.target <= max.unwrap() ==> (res matches Ok(a) && a.deployment@ == id@
            && a.target == req.target && a.status@ == "scaling"@),
{
    match max {
        None => Err(ApiError { status: 404, message: to_owned_str("deployment not found") }),
        Some(m) => {
            if req.target > m {
                let mut s = String::new();
                push_str(&mut s, "target ");
                push_dec(&mut s, req.target as u64);
                push_str(&mut s, " exceeds max ");
                push_dec(&mut s, m as u64);
                proof {
                    assert(s@ =~= exceeds_text(req.target, m));
                }
                Err(ApiError { status: 400, message: s })
            } else {
                Ok(ScaleAccepted { deployment: to_owned_str(id), target: req.target, status: "scaling" })
            }
        },
    }
}

/// Checks a request to start a rollout: the deployment must exist (404)
/// and have no rollout in progress (409); a completed or rolled back
/// rollout may be replaced.
pub fn check_rollout_start(deployment_exists: bool, existing: Option<&RolloutPhase>) -> (res: Result<(), ApiError>)
    ensures
        !deployment_exists ==> (res matches Err(e) && e.status == 404 && e.message@
            == "deployment not found"@),
        deployment_exists && (existing matches Some(p) && phase_active(*p)) ==> (res matches Err(e)
            && e.status == 409 && e.message@ == "rollout already in progress"@),
        deployment_exists && !(existing matches Some(p) && phase_active(*p)) ==> res is Ok,
{
    if !deployment_exists {
        return Err(ApiError { status: 404, message: to_owned_str("deployment not found") });
    }
    match existing {
        Some(p) => {
            let active = match p {
                RolloutPhase::Completed => false,
                RolloutPhase::RolledBack { .. } => false,
                _ => true,
            };
            if active {
                Err(ApiError { status: 409, message: to_owned_str("rollout already in progress") })
            } else {
                Ok(())
            }
        },
        None => Ok(()),
    }
}

/// A dashboard message: a `div` in the given color class.
pub open spec fn fragment(color: Seq<char>, text: Seq<char>) -> Seq<char> {
    "<div class=\""@ + color + " text-sm font-mono\">"@ + text + "</div>"@
}

fn fragment_of(color: &str, text: &str) -> (res: String)
    ensures
        res@ == fragment(color@, text@),
{
    let mut s = String::new();
    push_str(&mut s, "<div class=\"");
    push_str(&mut s, color);
    push_str(&mut s, " text-sm font-mono\">");
    push_str(&mut s, text);
    push_str(&mut s, "</div>");
    proof {
        assert(s@ =~= fragment(color@, text@));
    }
    s
}

/// The dashboard's answer to its scaling form: not found, a warning for a
/// target above the maximum, or the scaling under way.
pub fn scale_fragment(id: &str, max: Option<u32>, form: &ScaleForm) -> (res: String)
    ensures
        max is None ==> res@ == fragment("text-rose-400"@, "Deployment not found"@),
        max is Some && form.target > max.unwrap() ==> res@ == fragment(
            "text-amber-400"@,
            "Target "@ + dec(form.target as nat) + " exceeds max "@ + dec(max.unwrap() as nat),
        ),
        max is Some && form.target <= max.unwrap() ==> res@ == fragment(
            "text-emerald-400"@,
            "Scaling "@ + id@ + " to "@ + dec(form.target as nat) + " instances"@,
        ),
{
    match max {
        None => fragment_of("text-rose-400", "Deployment not found"),
        Some(m) => {
            let mut t = String::new();
            if form.target > m {
                push_str(&mut t, "Target ");
                push_dec(&mut t, form.target as u64);
                push_str(&mut t, " exceeds max ");
                push_dec(&mut t, m as u64);
                proof {
                    assert(t@ =~= "Target "@ + dec(form.target as nat) + " exceeds max "@ + dec(
                        m as nat,
                    ));
                }
                fragment_of("text-amber-400", t.as_str())
            } else {
                push_str(&mut t, "Scaling ");
                push_str(&mut t, id);
                push_str(&mut t, " to ");
                push_dec(&mut t, form.target as u64);
                push_str(&mut t, " instances");
                proof {
                    assert(t@ =~= "Scaling "@ + id@ + " to "@ + dec(form.target as nat)
                        + " instances"@);
                }
                fragment_of("text-emerald-400", t.as_str())
            }
        },
    }
}

/// The strategy a form names: `canary`, `blue_green`, anything else
/// rolling.
pub open spec fn strategy_named(s: Seq<char>) -> StrategyChoice {
    if s == "canary"@ {
        StrategyChoice::Canary
    } else if s == "blue_green"@ {
        StrategyChoice::BlueGreen
    } else {
        StrategyChoice::Rolling
    }
}

/// Reads the dashboard's rollout form: the deployment must exist and a
/// version must be given, else the fragment to answer with; otherwise the
/// strategy to start.
pub fn check_rollout_form(deployment_exists: bool, form: &RolloutForm) -> (res: Result<StrategyChoice, String>)
    ensures
        !deployment_exists ==> (res matches Err(f) && f@ == fragment(
            "text-rose-400"@,
            "Deployment not found"@,
        )),
        deployment_exists && form.new_version@.len() == 0 ==> (res matches Err(f) && f@
            == fragment("text-amber-400"@, "Version is required"@)),
        deployment_exists && form.new_version@.len() > 0 ==> res == Ok::<StrategyChoice, String>(
            strategy_named(form.strategy@),
        ),
{
    if !deployment_exists {
        return Err(fragment_of("text-rose-400", "Deployment not found"));
    }
    if form.new_version.as_str().is_empty() {
        return Err(fragment_of("text-amber-400", "Version is required"));
    }
    if str_eq(form.strategy.as_str(), "canary") {
        Ok(StrategyChoice::Canary)
    } else if str_eq(form.strategy.as_str(), "blue_green") {
        Ok(StrategyChoice::BlueGreen)
    } else {
        Ok(StrategyChoice::Rolling)
    }
}

/// The dashboard's answer once a rollout has started.
pub fn rollout_started_fragment(id: &str) -> (res: String)
    ensures
        res@ == fragment("text-emerald-400"@, "Rollout started for "@ + id@),
{
    let mut t = String::new();
    push_str(&mut t, "Rollout started for ");
    push_str(&mut t, id);
    fragment_of("text-emerald-400", t.as_str())
}

/// The dashboard's answer to pausing (`pause`) or resuming a rollout that
/// exists or not.
pub fn pause_resume_fragment(found: bool, pause: bool) -> (res: String)
    ensures
        !found ==> res@ == fragment("text-rose-400"@, "Rollout not found"@),
        found && pause ==> res@ == fragment("text-amber-400"@, "Rollout paused"@),
        found && !pause ==> res@ == fragment("text-emerald-400"@, "Rollout resumed"@),
{
    if !found {
        fragment_of("text-rose-400", "Rollout not found")
    } else if pause {
        fragment_of("text-amber-400", "Rollout paused")
    } else {
        fragment_of("text-emerald-400", "Rollout resumed")
    }
}

} // verus!
