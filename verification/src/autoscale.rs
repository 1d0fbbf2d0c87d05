//! Scaling decisions with cooldown windows.
//!
//! The measured metric is compared with its target elsewhere (that part is
//! floating point); what arrives here is the outcome of that comparison:
//! whether the metric is known, whether an `rps` metric saw no traffic, and
//! the instance counts wanted when the metric is above 110% or below 50% of
//! the target. This module applies the instance bounds and the cooldown
//! windows and keeps the per-deployment cooldown state.

use vstd::prelude::*;
use crate::strmap::StrMap;
use crate::sys::epoch_secs;
use crate::text::{chars_of, parse_u64, parse_u64_spec, string_of, trim, trim_str};

verus! {

/// A scaling decision for a single deployment.
#[derive(Clone, Copy, Debug, PartialEq, Eq, Structural)]
pub enum ScaleDecision {
    /// Scale to the specified instance count.
    ScaleTo(u32),
    /// No change needed.
    NoChange,
}

/// The seconds a cooldown window such as "30s" or "5m" stands for: a
/// number with suffix `s` is seconds (30 when it does not parse), with
/// suffix `m` minutes (5 when it does not parse), and without suffix
/// seconds (30 when it does not parse). Surrounding white space is ignored.
pub open spec fn duration_secs(s: Seq<char>) -> int {
    let t = trim(s);
    if t.len() > 0 && t.last() == 's' {
        match parse_u64_spec(t.drop_last()) {
            Some(v) => v as int,
            None => 30,
        }
    } else if t.len() > 0 && t.last() == 'm' {
        match parse_u64_spec(t.drop_last()) {
            Some(v) => v * 60,
            None => 300,
        }
    } else {
        match parse_u64_spec(t) {
            Some(v) => v as int,
            None => 30,
        }
    }
}

/// Parses a cooldown window into seconds.
pub fn parse_duration_secs(s: &str) -> (res: u64)
    requires
        duration_secs(s@) <= u64::MAX,
    ensures
        res == duration_secs(s@),
{
    let t = trim_str(s);
    let cs = chars_of(t.as_str());
    let n = cs.len();
    if n > 0 && cs[n - 1] == 's' {
        let body = string_of(&cs, 0, n - 1);
        proof {
            assert(body@ =~= t@.drop_last());
        }
        match parse_u64(body.as_str()) {
            Some(v) => v,
            None => 30,
        }
    } else if n > 0 && cs[n - 1] == 'm' {
        let body = string_of(&cs, 0, n - 1);
        proof {
            assert(body@ =~= t@.drop_last());
        }
        match parse_u64(body.as_str()) {
            Some(v) => v * 60,
            None => 300,
        }
    } else {
        match parse_u64(t.as_str()) {
            Some(v) => v,
            None => 30,
        }
    }
}

/// The cooldown windows of a deployment's scaling configuration.
pub struct ScalingWindows {
    pub scale_up_window: String,
    pub scale_down_window: String,
}

/// The outcome of comparing a deployment's metric with its target.
#[derive(Clone, Copy, Debug)]
pub struct MetricSignals {
    /// The configured metric is one the autoscaler knows.
    pub metric_known: bool,
    /// The metric is `rps` and it is zero.
    pub zero_traffic: bool,
    /// The metric exceeds 110% of the target: the instance count wanted.
    pub scale_up_to: Option<u32>,
    /// The metric is below 50% of the target: the instance count wanted.
    pub scale_down_to: Option<u32>,
}

/// When a deployment was last scaled up and down.
#[derive(Clone, Copy, Debug, PartialEq, Eq, Structural)]
pub struct ScaleState {
    pub last_scale_up: u64,
    pub last_scale_down: u64,
}

/// The decision and the new cooldown state, given the state `st` at time
/// `now`, the cooldowns, the instance bounds, the current instance count
/// and the signals. In order: an unknown metric changes nothing; no traffic
/// scales to zero when the minimum is zero and the down cooldown has passed;
/// a high metric scales up, capped at the maximum, when that adds instances
/// and the up cooldown has passed; a low metric scales down, not below the
/// minimum, when that removes instances and the down cooldown has passed.
pub open spec fn decide(
    st: ScaleState,
    now: u64,
    up_cooldown: u64,
    down_cooldown: u64,
    min: u32,
    max: u32,
    current: u32,
    sig: MetricSignals,
) -> (ScaleDecision, ScaleState) {
    if !sig.metric_known {
        (ScaleDecision::NoChange, st)
    } else if sig.zero_traffic && current > 0 && now - st.last_scale_down >= down_cooldown && min
        == 0 {
        (ScaleDecision::ScaleTo(0), ScaleState { last_scale_down: now, ..st })
    } else if sig.scale_up_to is Some && now - st.last_scale_up >= up_cooldown && (if sig.scale_up_to.unwrap()
        < max {
        sig.scale_up_to.unwrap()
    } else {
        max
    }) > current {
        (
            ScaleDecision::ScaleTo(
                if sig.scale_up_to.unwrap() < max {
                    sig.scale_up_to.unwrap()
                } else {
                    max
                },
            ),
            ScaleState { last_scale_up: now, ..st },
        )
    } else if sig.scale_down_to is Some && current > min && now - st.last_scale_down
        >= down_cooldown && (if sig.scale_down_to.unwrap() > min {
        sig.scale_down_to.unwrap()
    } else {
        min
    }) < current {
        (
            ScaleDecision::ScaleTo(
                if sig.scale_down_to.unwrap() > min {
                    sig.scale_down_to.unwrap()
                } else {
                    min
                },
            ),
            ScaleState { last_scale_down: now, ..st },
        )
    } else {
        (ScaleDecision::NoChange, st)
    }
}

/// Every scaling decision respects the bounds and the cooldowns: scaling to
/// zero only when the minimum is zero, scaling up only to more instances and
/// never above the maximum, scaling down only to fewer instances and never
/// below the minimum; each only once its cooldown has passed since the last
/// scaling in that direction, which is then recorded as `now`.
pub proof fn law_decisions_respect_bounds(
    st: ScaleState,
    now: u64,
    up_cooldown: u64,
    down_cooldown: u64,
    min: u32,
    max: u32,
    current: u32,
    sig: MetricSignals,
)
    requires
        st.last_scale_up <= now,
        st.last_scale_down <= now,
    ensures
        ({
            let (d, st2) = decide(st, now, up_cooldown, down_cooldown, min, max, current, sig);
            match d {
                ScaleDecision::NoChange => st2 == st,
                ScaleDecision::ScaleTo(n) => sig.metric_known && ((n == 0 && min == 0 && n < current
                    && now - st.last_scale_down >= down_cooldown && st2 == ScaleState {
                    last_scale_down: now,
                    ..st
                }) || (current < n <= max && now - st.last_scale_up >= up_cooldown && st2
                    == ScaleState { last_scale_up: now, ..st }) || (min <= n < current && now
                    - st.last_scale_down >= down_cooldown && st2 == ScaleState {
                    last_scale_down: now,
                    ..st
                })),
            }
        }),
{
}

/// What a scaling decision scales to: scaling up goes to the wanted count
/// capped at the maximum; scaling down goes to the wanted count raised to
/// the minimum, and to nothing smaller; the only other way down is to zero,
/// for an `rps` metric with no traffic and a minimum of zero. Conversely,
/// when the metric is low, the down cooldown has passed, neither scaling to
/// zero nor scaling up applies, and the wanted count raised to the minimum
/// is below the current count, the decision is to scale to exactly that.
pub proof fn law_scaling_targets(
    st: ScaleState,
    now: u64,
    up_cooldown: u64,
    down_cooldown: u64,
    min: u32,
    max: u32,
    current: u32,
    sig: MetricSignals,
)
    requires
        st.last_scale_up <= now,
        st.last_scale_down <= now,
    ensures
        ({
            let (d, _) = decide(st, now, up_cooldown, down_cooldown, min, max, current, sig);
            match d {
                ScaleDecision::ScaleTo(n) => {
                    &&& n > current ==> sig.scale_up_to is Some && n == (if sig.scale_up_to.unwrap()
                        < max {
                        sig.scale_up_to.unwrap()
                    } else {
                        max
                    })
                    &&& n < current ==> (n == 0 && sig.zero_traffic && min == 0) || (
                    sig.scale_down_to is Some && n == (if sig.scale_down_to.unwrap() > min {
                        sig.scale_down_to.unwrap()
                    } else {
                        min
                    }))
                    &&& (n < current && n > 0) ==> sig.scale_down_to is Some && n
                        >= sig.scale_down_to.unwrap() && n >= min
                },
                ScaleDecision::NoChange => true,
            }
        }),
        ({
            let wanted_down: u32 = match sig.scale_down_to {
                Some(w) => if w > min {
                    w
                } else {
                    min
                },
                None => 0,
            };
            let wanted_up: u32 = match sig.scale_up_to {
                Some(w) => if w < max {
                    w
                } else {
                    max
                },
                None => 0,
            };
            (sig.metric_known && !(sig.zero_traffic && current > 0 && now - st.last_scale_down
                >= down_cooldown && min == 0) && !(sig.scale_up_to is Some && now - st.last_scale_up
                >= up_cooldown && wanted_up > current) && sig.scale_down_to is Some && current > min
                && now - st.last_scale_down >= down_cooldown && wanted_down < current) ==> decide(
                st,
                now,
                up_cooldown,
                down_cooldown,
                min,
                max,
                current,
                sig,
            ).0 == ScaleDecision::ScaleTo(wanted_down)
        }),
{
}

/// A scaling in one direction blocks another in the same direction until its
/// cooldown has passed: after a decision at `now` that scales up (down), a
/// decision at any `later` time within the up (down) cooldown does not scale
/// up (down), whatever the instance count and the signals are then.
pub proof fn law_cooldown_blocks_repeat(
    st: ScaleState,
    now: u64,
    later: u64,
    up_cooldown: u64,
    down_cooldown: u64,
    min: u32,
    max: u32,
    current: u32,
    sig: MetricSignals,
    later_current: u32,
    later_sig: MetricSignals,
)
    requires
        st.last_scale_up <= now,
        st.last_scale_down <= now,
        now <= later,
    ensures
        ({
            let (d, st2) = decide(st, now, up_cooldown, down_cooldown, min, max, current, sig);
            let (d2, _) = decide(
                st2,
                later,
                up_cooldown,
                down_cooldown,
                min,
                max,
                later_current,
                later_sig,
            );
            &&& (d matches ScaleDecision::ScaleTo(n) && n > current && later - now < up_cooldown)
                ==> !(d2 matches ScaleDecision::ScaleTo(m) && m > later_current)
            &&& (d matches ScaleDecision::ScaleTo(n) && n < current && later - now
                < down_cooldown) ==> !(d2 matches ScaleDecision::ScaleTo(m) && m < later_current)
        }),
{
}

/// The recorded state of deployment `id` in `states`; a deployment not
/// recorded has never been scaled.
pub open spec fn recorded_state(states: Map<Seq<char>, ScaleState>, id: Seq<char>) -> ScaleState {
    if states.contains_key(id) {
        states[id]
    } else {
        ScaleState { last_scale_up: 0, last_scale_down: 0 }
    }
}

/// The latest metrics of a deployment: its active instance count and the
/// outcome of comparing its metric with the target.
#[derive(Clone, Copy, Debug)]
pub struct LatestMetrics {
    pub active_instances: u32,
    pub signals: MetricSignals,
}

/// One deployment as a round of evaluation sees it: its id, its cooldown
/// windows (`None` when it has no scaling configuration), its instance
/// bounds and its latest metrics (`None` when none were recorded yet).
pub struct ScalingInput {
    pub id: String,
    pub scaling: Option<ScalingWindows>,
    pub min: u32,
    pub max: u32,
    pub latest: Option<LatestMetrics>,
}

/// Whether a round evaluates this deployment: it has a scaling
/// configuration and metrics.
pub open spec fn evaluated(x: ScalingInput) -> bool {
    x.scaling is Some && x.latest is Some
}

/// A round of evaluation at time `now` over `inputs`, in order, starting
/// from `states`: the `(id, decision)` pairs of the deployments evaluated,
/// in list order, each decided on the state that the earlier ones left, and
/// the states after the round. Deployments without a scaling configuration
/// or without metrics are skipped.
pub open spec fn round(states: Map<Seq<char>, ScaleState>, inputs: Seq<ScalingInput>, now: u64) -> (
    Seq<(Seq<char>, ScaleDecision)>,
    Map<Seq<char>, ScaleState>,
)
    decreases inputs.len(),
{
    if inputs.len() == 0 {
        (Seq::empty(), states)
    } else {
        let (out, sts) = round(states, inputs.drop_last(), now);
        let x = inputs.last();
        if evaluated(x) {
            let w = x.scaling.unwrap();
            let m = x.latest.unwrap();
            let (d, st) = decide(
                recorded_state(sts, x.id@),
                now,
                duration_secs(w.scale_up_window@) as u64,
                duration_secs(w.scale_down_window@) as u64,
                x.min,
                x.max,
                m.active_instances,
                m.signals,
            );
            (out.push((x.id@, d)), sts.insert(x.id@, st))
        } else {
            (out, sts)
        }
    }
}

/// Whether every cooldown window of `inputs` stands for a number of seconds
/// that fits in a `u64`.
pub open spec fn windows_fit(inputs: Seq<ScalingInput>) -> bool {
    forall|j: int|
        0 <= j < inputs.len() ==> ((#[trigger] inputs[j]).scaling matches Some(w) ==> duration_secs(
            w.scale_up_window@,
        ) <= u64::MAX && duration_secs(w.scale_down_window@) <= u64::MAX)
}

/// Whether no deployment of `inputs` was scaled later than `now`.
pub open spec fn recorded_by(states: Map<Seq<char>, ScaleState>, inputs: Seq<ScalingInput>, now: u64) -> bool {
    forall|j: int|
        0 <= j < inputs.len() ==> recorded_state(states, (#[trigger] inputs[j]).id@).last_scale_up
            <= now && recorded_state(states, inputs[j].id@).last_scale_down <= now
}

/// The pairs of a round as plain values.
pub open spec fn pairs_view(v: Seq<(String, ScaleDecision)>) -> Seq<(Seq<char>, ScaleDecision)> {
    v.map_values(|p: (String, ScaleDecision)| (p.0@, p.1))
}

/// The autoscaler's cooldown state, per deployment.
pub struct Autoscaler {
    scale_states: StrMap<ScaleState>,
}

impl Autoscaler {
    #[verifier::type_invariant]
    closed spec fn inv(self) -> bool {
        self.scale_states.wf()
    }

    /// The cooldown state of each deployment seen so far.
    pub closed spec fn states(&self) -> Map<Seq<char>, ScaleState> {
        self.scale_states@
    }

    /// The state of a deployment; a deployment not seen yet has never been
    /// scaled.
    pub open spec fn state_of(&self, id: Seq<char>) -> ScaleState {
        if self.states().contains_key(id) {
            self.states()[id]
        } else {
            ScaleState { last_scale_up: 0, last_scale_down: 0 }
        }
    }

    /// What `evaluate` at time `now` returns and the states it leaves.
    pub open spec fn evaluation(
        &self,
        id: Seq<char>,
        scaling: Option<&ScalingWindows>,
        min: u32,
        max: u32,
        current: u32,
        signals: MetricSignals,
        now: u64,
    ) -> (ScaleDecision, Map<Seq<char>, ScaleState>) {
        match scaling {
            None => (ScaleDecision::NoChange, self.states()),
            Some(w) => {
                let (d, st) = decide(
                    self.state_of(id),
                    now,
                    duration_secs(w.scale_up_window@) as u64,
                    duration_secs(w.scale_down_window@) as u64,
                    min,
                    max,
                    current,
                    signals,
                );
                (d, self.states().insert(id, st))
            },
        }
    }

    /// An autoscaler with no state.
    pub fn new() -> (res: Self)
        ensures
            res.states() == Map::<Seq<char>, ScaleState>::empty(),
    {
        Autoscaler { scale_states: StrMap::new() }
    }

    /// Evaluates one deployment at time `now`. Without a scaling
    /// configuration nothing changes; otherwise the decision is `decide`
    /// with the parsed cooldown windows, and the deployment's state is
    /// recorded.
    pub fn evaluate(
        &mut self,
        deployment_id: &str,
        scaling: Option<&ScalingWindows>,
        min: u32,
        max: u32,
        current_instances: u32,
        signals: MetricSignals,
        now: u64,
    ) -> (res: ScaleDecision)
        requires
            old(self).state_of(deployment_id@).last_scale_up <= now,
            old(self).state_of(deployment_id@).last_scale_down <= now,
            scaling matches Some(w) ==> duration_secs(w.scale_up_window@) <= u64::MAX
                && duration_secs(w.scale_down_window@) <= u64::MAX,
        ensures
            scaling is None ==> res == ScaleDecision::NoChange && final(self).states() == old(
                self,
            ).states(),
            scaling matches Some(w) ==> ({
                let (d, st) = decide(
                    old(self).state_of(deployment_id@),
                    now,
                    duration_secs(w.scale_up_window@) as u64,
                    duration_secs(w.scale_down_window@) as u64,
                    min,
                    max,
                    current_instances,
                    signals,
                );
                res == d && final(self).states() == old(self).states().insert(deployment_id@, st)
            }),
    {
        proof {
            use_type_invariant(&*self);
        }
        let w = match scaling {
            None => {
                return ScaleDecision::NoChange;
            },
            Some(w) => w,
        };
        let mut st = match self.scale_states.get(deployment_id) {
            Some(s) => *s,
            None => ScaleState { last_scale_up: 0, last_scale_down: 0 },
        };
        let up_cd = parse_duration_secs(w.scale_up_window.as_str());
        let down_cd = parse_duration_secs(w.scale_down_window.as_str());
        let decision = if !signals.metric_known {
            ScaleDecision::NoChange
        } else if signals.zero_traffic && current_instances > 0 && now - st.last_scale_down
            >= down_cd && min == 0 {
            st.last_scale_down = now;
            ScaleDecision::ScaleTo(0)
        } else {
            let mut d = ScaleDecision::NoChange;
            let mut decided = false;
            if let Some(want) = signals.scale_up_to {
                if now - st.last_scale_up >= up_cd {
                    let clamped = if want < max {
                        want
                    } else {
                        max
                    };
                    if clamped > current_instances {
                        st.last_scale_up = now;
                        d = ScaleDecision::ScaleTo(clamped);
                        decided = true;
                    }
                }
            }
            if !decided {
                if let Some(want) = signals.scale_down_to {
                    if current_instances > min && now - st.last_scale_down >= down_cd {
                        let clamped = if want > min {
                            want
                        } else {
                            min
                        };
                        if clamped < current_instances {
                            st.last_scale_down = now;
                            d = ScaleDecision::ScaleTo(clamped);
                        }
                    }
                }
            }
            d
        };
        let mut states = StrMap::new();
        std::mem::swap(&mut states, &mut self.scale_states);
        states.insert(crate::text::to_owned_str(deployment_id), st);
        self.scale_states = states;
        decision
    }

    /// Evaluates every deployment of `inputs` in order at time `now`, each
    /// as `evaluate` does on the state the earlier ones left, skipping those
    /// without a scaling configuration or without metrics; returns the
    /// `(id, decision)` pair of each one evaluated, in list order.
    pub fn evaluate_all_at(&mut self, inputs: &Vec<ScalingInput>, now: u64) -> (res: Vec<
        (String, ScaleDecision),
    >)
        requires
            windows_fit(inputs@),
            recorded_by(old(self).states(), inputs@, now),
        ensures
            pairs_view(res@) == round(old(self).states(), inputs@, now).0,
            final(self).states() == round(old(self).states(), inputs@, now).1,
    {
        let ghost start = self.states();
        let mut out: Vec<(String, ScaleDecision)> = Vec::new();
        let mut i: usize = 0;
        while i < inputs.len()
            invariant
                i <= inputs@.len(),
                windows_fit(inputs@),
                recorded_by(start, inputs@, now),
                pairs_view(out@) == round(start, inputs@.take(i as int), now).0,
                self.states() == round(start, inputs@.take(i as int), now).1,
                recorded_by(self.states(), inputs@, now),
            decreases inputs@.len() - i,
        {
            let x = &inputs[i];
            proof {
                assert(inputs@.take(i + 1).drop_last() =~= inputs@.take(i as int));
                assert(inputs@.take(i + 1).last() == inputs@[i as int]);
            }
            let ghost before = self.states();
            match (&x.scaling, &x.latest) {
                (Some(w), Some(m)) => {
                    proof {
                        assert(windows_fit(inputs@));
                        assert(inputs@[i as int] == *x);
                        assert(recorded_state(before, x.id@) == self.state_of(x.id@));
                    }
                    let d = self.evaluate(
                        x.id.as_str(),
                        Some(w),
                        x.min,
                        x.max,
                        m.active_instances,
                        m.signals,
                        now,
                    );
                    let ghost out_before = out@;
                    out.push((x.id.clone(), d));
                    proof {
                        assert(pairs_view(out@) =~= pairs_view(out_before).push((x.id@, d)));
                        assert forall|j: int| 0 <= j < inputs@.len() implies recorded_state(
                            self.states(),
                            (#[trigger] inputs@[j]).id@,
                        ).last_scale_up <= now && recorded_state(
                            self.states(),
                            inputs@[j].id@,
                        ).last_scale_down <= now by {
                            assert(recorded_state(before, inputs@[j].id@).last_scale_up <= now);
                        }
                    }
                },
                _ => {},
            }
            i = i + 1;
        }
        proof {
            assert(inputs@.take(inputs@.len() as int) =~= inputs@);
        }
        out
    }

    /// Evaluates every deployment of `inputs` at the current time of the
    /// system clock, as `evaluate_all_at` does. `None`, with nothing
    /// changed, when the clock reads earlier than a recorded scaling of one
    /// of them, which cannot happen when none of them was ever scaled;
    /// otherwise the pairs of a round at some time `now` not earlier than
    /// any of their recorded scalings.
    pub fn evaluate_all(&mut self, inputs: &Vec<ScalingInput>) -> (res: Option<
        Vec<(String, ScaleDecision)>,
    >)
        requires
            windows_fit(inputs@),
        ensures
            res is None ==> final(self).states() == old(self).states(),
            recorded_by(old(self).states(), inputs@, 0) ==> res is Some,
            res matches Some(v) ==> exists|now: u64|
                #[trigger] recorded_by(old(self).states(), inputs@, now) && pairs_view(v@) == round(
                    old(self).states(),
                    inputs@,
                    now,
                ).0 && final(self).states() == round(old(self).states(), inputs@, now).1,
    {
        proof {
            use_type_invariant(&*self);
        }
        let now = epoch_secs();
        let mut i: usize = 0;
        while i < inputs.len()
            invariant
                i <= inputs@.len(),
                self.scale_states.wf(),
                forall|j: int|
                    0 <= j < i ==> recorded_state(self.states(), (#[trigger] inputs@[j]).id@).last_scale_up
                        <= now && recorded_state(self.states(), inputs@[j].id@).last_scale_down
                        <= now,
            decreases inputs@.len() - i,
        {
            let (up, down) = match self.scale_states.get(inputs[i].id.as_str()) {
                Some(s) => (s.last_scale_up, s.last_scale_down),
                None => (0, 0),
            };
            if now < up || now < down {
                proof {
                    if recorded_by(self.states(), inputs@, 0) {
                        assert(recorded_state(self.states(), inputs@[i as int].id@).last_scale_up <= 0);
                    }
                }
                return None;
            }
            i = i + 1;
        }
        proof {
            assert(recorded_by(self.states(), inputs@, now));
        }
        let out = self.evaluate_all_at(inputs, now);
        Some(out)
    }

    /// Evaluates one deployment at the current time of the system clock.
    /// `None` when the clock reads earlier than the deployment's last
    /// recorded scaling, which cannot happen for a deployment never scaled;
    /// otherwise the decision of `evaluate` at some time `now` not earlier
    /// than both recorded scalings.
    pub fn evaluate_now(
        &mut self,
        deployment_id: &str,
        scaling: Option<&ScalingWindows>,
        min: u32,
        max: u32,
        current_instances: u32,
        signals: MetricSignals,
    ) -> (res: Option<ScaleDecision>)
        requires
            scaling matches Some(w) ==> duration_secs(w.scale_up_window@) <= u64::MAX
                && duration_secs(w.scale_down_window@) <= u64::MAX,
        ensures
            res is None ==> final(self).states() == old(self).states(),
            res is None ==> old(self).state_of(deployment_id@).last_scale_up > 0
                || old(self).state_of(deployment_id@).last_scale_down > 0,
            old(self).state_of(deployment_id@).last_scale_up == 0
                && old(self).state_of(deployment_id@).last_scale_down == 0 ==> res is Some,
            res matches Some(d) ==> exists|now: u64|
                old(self).state_of(deployment_id@).last_scale_up <= now
                    && old(self).state_of(deployment_id@).last_scale_down <= now
                    && #[trigger] old(self).evaluation(
                    deployment_id@,
                    scaling,
                    min,
                    max,
                    current_instances,
                    signals,
                    now,
                ) == (d, final(self).states()),
    {
        proof {
            use_type_invariant(&*self);
        }
        let now = epoch_secs();
        let st = match self.scale_states.get(deployment_id) {
            Some(s) => *s,
            None => ScaleState { last_scale_up: 0, last_scale_down: 0 },
        };
        if now < st.last_scale_up || now < st.last_scale_down {
            return None;
        }
        let ghost before = *self;
        let d = self.evaluate(deployment_id, scaling, min, max, current_instances, signals, now);
        proof {
            assert(before.evaluation(
                deployment_id@,
                scaling,
                min,
                max,
                current_instances,
                signals,
                now,
            ) == (d, self.states()));
        }
        Some(d)
    }
}

/// Without a scaling configuration, or with a metric the autoscaler does
/// not know, an evaluation decides no change and records no scaling: every
/// deployment's state is what it was, so later decisions are those that
/// would have been made without this one.
pub proof fn law_unknown_metric_changes_nothing(
    a: Autoscaler,
    id: Seq<char>,
    scaling: Option<&ScalingWindows>,
    min: u32,
    max: u32,
    current: u32,
    signals: MetricSignals,
    now: u64,
)
    requires
        scaling is None || !signals.metric_known,
    ensures
        a.evaluation(id, scaling, min, max, current, signals, now).0 == ScaleDecision::NoChange,
        forall|k: Seq<char>|
            #[trigger] recorded_state(a.evaluation(id, scaling, min, max, current, signals, now).1, k)
                == a.state_of(k),
{
}

} // verus!
