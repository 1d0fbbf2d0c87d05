//! The dashboard's views of whole deployments and nodes, and the cluster
//! summary of its overview page, in what they show as text and integers.
//! Percentages, request rates and error rates are floating-point values and
//! are computed where the pages are rendered.

use vstd::prelude::*;
use crate::order::{
    lemma_text_lt_irreflexive, lemma_text_lt_total, lemma_text_lt_transitive, text_less, text_lt,
};
use crate::cluster::NodeInfo;
use crate::dashboard::{
    dashboard_bytes_text, dot_color_text, dot_title, format_bytes, format_relative_time_at,
    format_timestamp, format_trigger, health_dot, instance_counts_spec, count_instances,
    node_health, node_health_text, phase_active, phase_text, phase_view, red_dots,
    relative_time_text, rolled_back_alert, strategy_display, strategy_text, trigger_text,
    unhealthy_alert, AlertView, HealthConfigView, HealthDot, HealthStatus, InstanceCounts,
    InstanceState, InstanceStatus, PhaseView, RolloutPhase, RolloutStrategy, ShimIcons,
    TriggerConfig,
};
use crate::strmap::{entries_listed, StrMap};
use crate::sys::{epoch_secs, utc_text};
use crate::text::{dec, push_dec, push_str, str_eq, str_views, to_owned_str};

verus! {

/// How many times `x` occurs in `s`.
pub open spec fn occurrences(s: Seq<Seq<char>>, x: Seq<char>) -> nat
    decreases s.len(),
{
    if s.len() == 0 {
        0
    } else {
        occurrences(s.drop_last(), x) + if s.last() == x { 1nat } else { 0nat }
    }
}

proof fn lemma_occurrences_push(s: Seq<Seq<char>>, y: Seq<char>, x: Seq<char>)
    ensures
        occurrences(s.push(y), x) == occurrences(s, x) + if y == x { 1nat } else { 0nat },
{
    assert(s.push(y).drop_last() =~= s);
}

proof fn lemma_occurrences_absent(s: Seq<Seq<char>>, x: Seq<char>)
    requires
        !s.contains(x),
    ensures
        occurrences(s, x) == 0,
    decreases s.len(),
{
    if s.len() > 0 {
        assert(!s.drop_last().contains(x)) by {
            if s.drop_last().contains(x) {
                let k = choose|k: int| 0 <= k < s.drop_last().len() && s.drop_last()[k] == x;
                assert(s[k] == x);
            }
        }
        lemma_occurrences_absent(s.drop_last(), x);
        assert(s[s.len() - 1] != x);
    }
}

/// `res` lists each name of `ns` once, in sorted order, with the number of
/// times it occurs there.
pub open spec fn counts_listed(ns: Seq<Seq<char>>, res: Seq<(String, usize)>) -> bool {
    &&& forall|i: int, j: int|
        #![trigger res[i], res[j]]
        0 <= i < j < res.len() ==> text_lt(res[i].0@, res[j].0@)
    &&& forall|i: int| 0 <= i < res.len() ==> #[trigger] res[i].1 == occurrences(ns, res[i].0@)
    &&& forall|i: int| 0 <= i < res.len() ==> ns.contains(#[trigger] res[i].0@)
    &&& forall|k: int| 0 <= k < ns.len() ==> #[trigger] names_listed(res, ns[k])
}

/// Some entry of `res` has the name `x`.
pub open spec fn names_listed(res: Seq<(String, usize)>, x: Seq<char>) -> bool {
    exists|i: int| 0 <= i < res.len() && #[trigger] res[i].0@ == x
}

/// In a listing with strictly sorted names, entries at different places
/// have different names.
proof fn lemma_strict_distinct(res: Seq<(String, usize)>, i: int, j: int)
    requires
        forall|a: int, b: int|
            #![trigger res[a], res[b]]
            0 <= a < b < res.len() ==> text_lt(res[a].0@, res[b].0@),
        0 <= i < res.len(),
        0 <= j < res.len(),
        i != j,
    ensures
        res[i].0@ != res[j].0@,
{
    if i < j {
        assert(text_lt(res[i].0@, res[j].0@));
        lemma_text_lt_irreflexive(res[i].0@);
    } else {
        assert(text_lt(res[j].0@, res[i].0@));
        lemma_text_lt_irreflexive(res[j].0@);
    }
}

/// Counting one more occurrence of a name already listed at `p`.
proof fn lemma_count_again(ns: Seq<Seq<char>>, res: Seq<(String, usize)>, p: int, n: Seq<char>, key: String)
    requires
        counts_listed(ns, res),
        0 <= p < res.len(),
        res[p].0@ == n,
        key@ == n,
        res[p].1 < usize::MAX,
    ensures
        counts_listed(ns.push(n), res.update(p, (key, (res[p].1 + 1) as usize))),
{
    let t = res.update(p, (key, (res[p].1 + 1) as usize));
    let s = ns.push(n);
    assert forall|i: int, j: int| #![trigger t[i], t[j]] 0 <= i < j < t.len() implies text_lt(
        t[i].0@,
        t[j].0@,
    ) by {
        assert(t[i].0@ == res[i].0@ && t[j].0@ == res[j].0@);
        assert(text_lt(res[i].0@, res[j].0@));
    }
    assert forall|i: int| 0 <= i < t.len() implies #[trigger] t[i].1 == occurrences(s, t[i].0@) by {
        lemma_occurrences_push(ns, n, t[i].0@);
        if i != p {
            lemma_strict_distinct(res, i, p);
            assert(t[i] == res[i]);
        }
    }
    assert forall|i: int| 0 <= i < t.len() implies s.contains(#[trigger] t[i].0@) by {
        if i == p {
            assert(s[ns.len() as int] == n);
        } else {
            assert(t[i] == res[i]);
            assert(ns.contains(res[i].0@));
            let k = choose|k: int| 0 <= k < ns.len() && ns[k] == res[i].0@;
            assert(s[k] == ns[k]);
        }
    }
    assert forall|k: int| 0 <= k < s.len() implies #[trigger] names_listed(t, s[k]) by {
        if k == ns.len() {
            assert(t[p].0@ == s[k]);
        } else {
            assert(s[k] == ns[k]);
            assert(names_listed(res, ns[k]));
            let i = choose|i: int| 0 <= i < res.len() && #[trigger] res[i].0@ == ns[k];
            assert(t[i].0@ == s[k]);
        }
    }
}

/// Listing a name not yet listed at `p`, where it sorts.
proof fn lemma_count_first(ns: Seq<Seq<char>>, res: Seq<(String, usize)>, p: int, n: Seq<char>, key: String)
    requires
        counts_listed(ns, res),
        0 <= p <= res.len(),
        forall|q: int| 0 <= q < p ==> text_lt(#[trigger] res[q].0@, n),
        p < res.len() ==> !text_lt(res[p].0@, n) && res[p].0@ != n,
        key@ == n,
    ensures
        counts_listed(ns.push(n), res.insert(p, (key, 1usize))),
{
    let t = res.insert(p, (key, 1usize));
    let s = ns.push(n);
    // The names after p sort after n.
    assert forall|q: int| p <= q < res.len() implies text_lt(n, #[trigger] res[q].0@) by {
        lemma_text_lt_total(res[p].0@, n);
        if q > p {
            assert(text_lt(res[p].0@, res[q].0@));
            lemma_text_lt_transitive(n, res[p].0@, res[q].0@);
        }
    }
    assert(!ns.contains(n)) by {
        if ns.contains(n) {
            let k = choose|k: int| 0 <= k < ns.len() && ns[k] == n;
            assert(names_listed(res, ns[k]));
            let i = choose|i: int| 0 <= i < res.len() && #[trigger] res[i].0@ == ns[k];
            if i < p {
                assert(text_lt(res[i].0@, n));
                lemma_text_lt_irreflexive(n);
            } else {
                assert(text_lt(n, res[i].0@));
                lemma_text_lt_irreflexive(n);
            }
        }
    }
    lemma_occurrences_absent(ns, n);
    assert forall|i: int, j: int| #![trigger t[i], t[j]] 0 <= i < j < t.len() implies text_lt(
        t[i].0@,
        t[j].0@,
    ) by {
        if j < p {
            assert(t[i] == res[i] && t[j] == res[j]);
        } else if j == p {
            assert(t[i] == res[i]);
        } else if i == p {
            assert(t[j] == res[j - 1]);
        } else if i < p {
            assert(t[i] == res[i] && t[j] == res[j - 1]);
        } else {
            assert(t[i] == res[i - 1] && t[j] == res[j - 1]);
        }
    }
    assert forall|i: int| 0 <= i < t.len() implies #[trigger] t[i].1 == occurrences(s, t[i].0@) by {
        lemma_occurrences_push(ns, n, t[i].0@);
        if i < p {
            assert(t[i] == res[i]);
            lemma_text_lt_irreflexive(n);
        } else if i > p {
            assert(t[i] == res[i - 1]);
            assert(text_lt(n, res[i - 1].0@));
            lemma_text_lt_irreflexive(n);
        }
    }
    assert forall|i: int| 0 <= i < t.len() implies s.contains(#[trigger] t[i].0@) by {
        if i == p {
            assert(s[ns.len() as int] == n);
        } else {
            let r = if i < p { i } else { i - 1 };
            assert(t[i] == res[r]);
            assert(ns.contains(res[r].0@));
            let k = choose|k: int| 0 <= k < ns.len() && ns[k] == res[r].0@;
            assert(s[k] == ns[k]);
        }
    }
    assert forall|k: int| 0 <= k < s.len() implies #[trigger] names_listed(t, s[k]) by {
        if k == ns.len() {
            assert(t[p].0@ == s[k]);
        } else {
            assert(s[k] == ns[k]);
            assert(names_listed(res, ns[k]));
            let i = choose|i: int| 0 <= i < res.len() && #[trigger] res[i].0@ == ns[k];
            if i < p {
                assert(t[i].0@ == s[k]);
            } else {
                assert(t[i + 1].0@ == s[k]);
            }
        }
    }
}

/// The counts of a listing added up.
pub open spec fn count_sum(res: Seq<(String, usize)>) -> nat
    decreases res.len(),
{
    if res.len() == 0 {
        0
    } else {
        count_sum(res.drop_last()) + res.last().1 as nat
    }
}

proof fn lemma_count_sum_concat(a: Seq<(String, usize)>, b: Seq<(String, usize)>)
    ensures
        count_sum(a + b) == count_sum(a) + count_sum(b),
    decreases b.len(),
{
    if b.len() == 0 {
        assert(a + b =~= a);
    } else {
        assert((a + b).drop_last() =~= a + b.drop_last());
        lemma_count_sum_concat(a, b.drop_last());
    }
}

proof fn lemma_count_sum_update(res: Seq<(String, usize)>, p: int, e: (String, usize))
    requires
        0 <= p < res.len(),
    ensures
        count_sum(res.update(p, e)) + res[p].1 == count_sum(res) + e.1,
{
    let a = res.take(p);
    let b = res.skip(p + 1);
    assert(res =~= a + seq![res[p]] + b);
    assert(res.update(p, e) =~= a + seq![e] + b);
    lemma_count_sum_concat(a + seq![res[p]], b);
    lemma_count_sum_concat(a, seq![res[p]]);
    lemma_count_sum_concat(a + seq![e], b);
    lemma_count_sum_concat(a, seq![e]);
    assert(seq![res[p]].drop_last() =~= Seq::<(String, usize)>::empty());
    assert(seq![e].drop_last() =~= Seq::<(String, usize)>::empty());
}

proof fn lemma_count_sum_insert(res: Seq<(String, usize)>, p: int, e: (String, usize))
    requires
        0 <= p <= res.len(),
    ensures
        count_sum(res.insert(p, e)) == count_sum(res) + e.1,
{
    let a = res.take(p);
    let b = res.skip(p);
    assert(res =~= a + b);
    assert(res.insert(p, e) =~= a + seq![e] + b);
    lemma_count_sum_concat(a + seq![e], b);
    lemma_count_sum_concat(a, seq![e]);
    lemma_count_sum_concat(a, b);
    assert(seq![e].drop_last() =~= Seq::<(String, usize)>::empty());
    assert(seq![e].len() == 1 && seq![e].last() == e);
    assert(count_sum(Seq::<(String, usize)>::empty()) == 0);
    assert(count_sum(seq![e]) == e.1);
    assert(count_sum(res.insert(p, e)) == count_sum(a + seq![e]) + count_sum(b));
}

/// The namespaces that occur, each once and in sorted order, with the
/// number of deployments in each.
pub fn namespace_counts(namespaces: &Vec<String>) -> (res: Vec<(String, usize)>)
    ensures
        counts_listed(str_views(namespaces@), res@),
        count_sum(res@) == namespaces@.len(),
{
    let ghost ns = str_views(namespaces@);
    let mut out: Vec<(String, usize)> = Vec::new();
    let mut k: usize = 0;
    proof {
        assert(ns.take(0) =~= Seq::<Seq<char>>::empty());
    }
    while k < namespaces.len()
        invariant
            ns == str_views(namespaces@),
            k <= namespaces@.len(),
            counts_listed(ns.take(k as int), out@),
            forall|i: int| 0 <= i < out@.len() ==> #[trigger] out@[i].1 <= k,
            count_sum(out@) == k,
        decreases namespaces@.len() - k,
    {
        let n = &namespaces[k];
        proof {
            assert(ns.take(k + 1) =~= ns.take(k as int).push(n@));
        }
        let mut p: usize = 0;
        while p < out.len() && text_less(out[p].0.as_str(), n.as_str())
            invariant
                p <= out@.len(),
                forall|q: int| 0 <= q < p ==> text_lt(#[trigger] out@[q].0@, n@),
            decreases out@.len() - p,
        {
            p = p + 1;
        }
        if p < out.len() && str_eq(out[p].0.as_str(), n.as_str()) {
            let c = out[p].1;
            let key = out[p].0.clone();
            proof {
                lemma_count_again(ns.take(k as int), out@, p as int, n@, key);
                lemma_count_sum_update(out@, p as int, (key, (c + 1) as usize));
            }
            out.set(p, (key, c + 1));
        } else {
            let key = n.clone();
            proof {
                lemma_count_first(ns.take(k as int), out@, p as int, n@, key);
                lemma_count_sum_insert(out@, p as int, (key, 1usize));
            }
            out.insert(p, (key, 1));
        }
        k = k + 1;
    }
    proof {
        assert(ns.take(k as int) =~= ns);
    }
    out
}

/// How many instances a deployment may run.
#[derive(Clone, Copy, Debug)]
pub struct InstanceConstraints {
    pub min: u32,
    pub max: u32,
}

/// What each instance of a deployment may use.
#[derive(Clone, Copy, Debug)]
pub struct ResourceLimits {
    pub memory_bytes: u64,
    pub cpu_weight: u32,
}

/// A deployment's health check.
#[derive(Debug)]
pub struct HealthConfig {
    pub endpoint: String,
    pub interval: String,
    pub timeout: String,
    pub unhealthy_threshold: u32,
}

/// Which runtime shims a deployment enables.
#[derive(Clone, Copy, Debug)]
pub struct ShimsEnabled {
    pub timezone: bool,
    pub dev_urandom: bool,
    pub dns: bool,
    pub signals: bool,
    pub database_proxy: bool,
}

impl Default for ShimsEnabled {
    /// No shim enabled.
    fn default() -> (res: Self)
        ensures
            !res.timezone && !res.dev_urandom && !res.dns && !res.signals && !res.database_proxy,
    {
        ShimsEnabled { timezone: false, dev_urandom: false, dns: false, signals: false, database_proxy: false }
    }
}

/// A deployment as the state store records it, without its autoscaling
/// policy (whose target is a floating-point value).
pub struct DeploymentSpec {
    pub id: String,
    pub namespace: String,
    pub name: String,
    pub source: String,
    pub trigger: TriggerConfig,
    pub instances: InstanceConstraints,
    pub resources: ResourceLimits,
    pub health: Option<HealthConfig>,
    pub shims: ShimsEnabled,
    pub env: StrMap<String>,
    pub created_at: u64,
    pub updated_at: u64,
}

/// A deployment as the dashboard shows it, but for the figures that are
/// floating-point values (fill percentage, request and error rates,
/// autoscaling target).
pub struct DeploymentView {
    pub id: String,
    pub name: String,
    pub namespace: String,
    pub source: String,
    pub trigger_display: String,
    pub trigger_icon: &'static str,
    pub instances_running: usize,
    pub instances_max: u32,
    pub instances_min: u32,
    pub health_dots: Vec<HealthDot>,
    pub shims: ShimIcons,
    pub memory_display: String,
    pub cpu_weight: u32,
    pub created_display: String,
    pub updated_display: String,
    pub health_config: Option<HealthConfigView>,
    pub env_vars: Vec<(String, String)>,
}

/// How many of the instances are running.
pub open spec fn running_count(s: Seq<InstanceState>) -> nat
    decreases s.len(),
{
    if s.len() == 0 {
        0
    } else {
        running_count(s.drop_last()) + if s.last().status == InstanceStatus::Running {
            1nat
        } else {
            0nat
        }
    }
}

/// A timestamp as the dashboard shows a date: its UTC date and time, or
/// `unknown`.
pub open spec fn timestamp_text(ts: u64) -> Seq<char> {
    match utc_text((ts as i64) as int) {
        Some(t) => t,
        None => "unknown"@,
    }
}

/// The dots of a deployment's instances, one per instance in order.
pub open spec fn dots_of(dots: Seq<HealthDot>, instances: Seq<InstanceState>) -> bool {
    &&& dots.len() == instances.len()
    &&& forall|i: int|
        0 <= i < dots.len() ==> (#[trigger] dots[i]).color@ == dot_color_text(
            instances[i].status,
            instances[i].health,
        ) && dots[i].title@ == dot_title(instances[i].id@, instances[i].status, instances[i].health)
}

/// `v` shows deployment `d` with instances `instances` at time `now`.
pub open spec fn shows_deployment(v: DeploymentView, d: DeploymentSpec, instances: Seq<InstanceState>, now: u64) -> bool {
    &&& v.id@ == d.id@
    &&& v.name@ == d.name@
    &&& v.namespace@ == d.namespace@
    &&& v.source@ == d.source@
    &&& (v.trigger_display@, v.trigger_icon@) == trigger_text(d.trigger)
    &&& v.instances_running == running_count(instances)
    &&& v.instances_max == d.instances.max
    &&& v.instances_min == d.instances.min
    &&& dots_of(v.health_dots@, instances)
    &&& v.shims.timezone == d.shims.timezone
    &&& v.shims.dev_urandom == d.shims.dev_urandom
    &&& v.shims.dns == d.shims.dns
    &&& v.shims.signals == d.shims.signals
    &&& v.shims.database_proxy == d.shims.database_proxy
    &&& v.memory_display@ == dashboard_bytes_text(d.resources.memory_bytes as nat)
    &&& v.cpu_weight == d.resources.cpu_weight
    &&& v.created_display@ == timestamp_text(d.created_at)
    &&& v.updated_display@ == relative_time_text(d.updated_at, now)
    &&& match (v.health_config, d.health) {
        (None, None) => true,
        (Some(c), Some(h)) => c.endpoint@ == h.endpoint@ && c.interval@ == h.interval@
            && c.timeout@ == h.timeout@ && c.unhealthy_threshold == h.unhealthy_threshold,
        _ => false,
    }
    &&& entries_listed(d.env.text_view(), v.env_vars@)
}

impl DeploymentView {
    /// The view of a deployment and its instances at time `now`.
    pub fn from_spec_at(spec: &DeploymentSpec, instances: &Vec<InstanceState>, now: u64) -> (res: Self)
        requires
            spec.env.wf(),
        ensures
            shows_deployment(res, *spec, instances@, now),
    {
        let mut running: usize = 0;
        let mut dots: Vec<HealthDot> = Vec::new();
        let mut i: usize = 0;
        while i < instances.len()
            invariant
                i <= instances@.len(),
                running == running_count(instances@.take(i as int)),
                running <= i,
                dots_of(dots@, instances@.take(i as int)),
            decreases instances@.len() - i,
        {
            let inst = &instances[i];
            proof {
                assert(instances@.take(i + 1).drop_last() =~= instances@.take(i as int));
            }
            if inst.status == InstanceStatus::Running {
                running = running + 1;
            }
            dots.push(health_dot(inst.id.as_str(), inst.status, inst.health));
            i = i + 1;
        }
        proof {
            assert(instances@.take(i as int) =~= instances@);
        }
        let (trigger_display, trigger_icon) = format_trigger(&spec.trigger);
        let health_config = match &spec.health {
            Some(h) => Some(
                HealthConfigView {
                    endpoint: h.endpoint.clone(),
                    interval: h.interval.clone(),
                    timeout: h.timeout.clone(),
                    unhealthy_threshold: h.unhealthy_threshold,
                },
            ),
            None => None,
        };
        DeploymentView {
            id: spec.id.clone(),
            name: spec.name.clone(),
            namespace: spec.namespace.clone(),
            source: spec.source.clone(),
            trigger_display,
            trigger_icon,
            instances_running: running,
            instances_max: spec.instances.max,
            instances_min: spec.instances.min,
            health_dots: dots,
            shims: ShimIcons {
                timezone: spec.shims.timezone,
                dev_urandom: spec.shims.dev_urandom,
                dns: spec.shims.dns,
                signals: spec.shims.signals,
                database_proxy: spec.shims.database_proxy,
            },
            memory_display: format_bytes(spec.resources.memory_bytes),
            cpu_weight: spec.resources.cpu_weight,
            created_display: format_timestamp(spec.created_at),
            updated_display: format_relative_time_at(spec.updated_at, now),
            health_config,
            env_vars: spec.env.sorted_entries(),
        }
    }

    /// The view of a deployment and its instances, with the time of its last
    /// update shown relative to the system clock.
    pub fn from_spec(spec: &DeploymentSpec, instances: &Vec<InstanceState>) -> (res: Self)
        requires
            spec.env.wf(),
        ensures
            exists|now: u64| shows_deployment(res, *spec, instances@, now),
    {
        let now = epoch_secs();
        Self::from_spec_at(spec, instances, now)
    }
}

/// Seconds since a heartbeat at time `now`; zero for one in the future.
pub open spec fn heartbeat_age(last_heartbeat: u64, now: u64) -> u64 {
    if now >= last_heartbeat {
        (now - last_heartbeat) as u64
    } else {
        0
    }
}

/// A node as the dashboard shows it; its memory and CPU bars are drawn from
/// the used and total amounts.
pub struct NodeView {
    pub id: String,
    pub address: String,
    pub port: u16,
    pub status: &'static str,
    pub status_color: &'static str,
    pub heartbeat_display: String,
    pub heartbeat_color: &'static str,
    pub memory_used: u64,
    pub memory_total: u64,
    pub cpu_used: u32,
    pub cpu_total: u32,
    pub labels: Vec<(String, String)>,
    pub instance_count: usize,
}

/// `v` shows node `n`, which runs `instance_count` instances, at time `now`.
pub open spec fn shows_node(v: NodeView, n: NodeInfo, instance_count: usize, now: u64) -> bool {
    &&& v.id@ == n.id@
    &&& v.address@ == n.address@
    &&& v.port == n.port
    &&& (v.status@, v.status_color@, v.heartbeat_color@) == node_health_text(
        heartbeat_age(n.last_heartbeat, now),
    )
    &&& v.heartbeat_display@ == relative_time_text(n.last_heartbeat, now)
    &&& v.memory_used == n.used_memory_bytes
    &&& v.memory_total == n.capacity_memory_bytes
    &&& v.cpu_used == n.used_cpu_weight
    &&& v.cpu_total == n.capacity_cpu_weight
    &&& entries_listed(n.labels.text_view(), v.labels@)
    &&& v.instance_count == instance_count
}

impl NodeView {
    /// The view of a node at time `now`.
    pub fn from_node_at(node: &NodeInfo, instance_count: usize, now: u64) -> (res: Self)
        requires
            node.labels.wf(),
        ensures
            shows_node(res, *node, instance_count, now),
    {
        let (status, status_color, heartbeat_color) = node_health(node.last_heartbeat, now);
        NodeView {
            id: node.id.clone(),
            address: node.address.clone(),
            port: node.port,
            status,
            status_color,
            heartbeat_display: format_relative_time_at(node.last_heartbeat, now),
            heartbeat_color,
            memory_used: node.used_memory_bytes,
            memory_total: node.capacity_memory_bytes,
            cpu_used: node.used_cpu_weight,
            cpu_total: node.capacity_cpu_weight,
            labels: node.labels.sorted_entries(),
            instance_count,
        }
    }

    /// The view of a node by the system clock.
    pub fn from_node(node: &NodeInfo, instance_count: usize) -> (res: Self)
        requires
            node.labels.wf(),
        ensures
            exists|now: u64| shows_node(res, *node, instance_count, now),
    {
        let now = epoch_secs();
        Self::from_node_at(node, instance_count, now)
    }
}

/// What the overview page sums up of the cluster; its memory and CPU bars
/// are drawn from the used and total amounts.
pub struct ClusterSummary {
    pub deployment_count: usize,
    pub namespace_counts: Vec<(String, usize)>,
    pub instances: InstanceCounts,
    pub node_count: usize,
    pub nodes_ready: usize,
    pub active_rollouts: usize,
    pub memory_used: u64,
    pub memory_total: u64,
    pub cpu_used: u32,
    pub cpu_total: u32,
}

/// The namespaces of the deployments, in order.
pub open spec fn namespaces_of(ds: Seq<DeploymentSpec>) -> Seq<Seq<char>> {
    ds.map_values(|d: DeploymentSpec| d.namespace@)
}

/// The status and health of each instance, in order.
pub open spec fn states_of(s: Seq<InstanceState>) -> Seq<(InstanceStatus, HealthStatus)> {
    s.map_values(|i: InstanceState| (i.status, i.health))
}

/// Total memory capacity of the nodes.
pub open spec fn memory_capacity(nodes: Seq<NodeInfo>) -> nat
    decreases nodes.len(),
{
    if nodes.len() == 0 {
        0
    } else {
        memory_capacity(nodes.drop_last()) + nodes.last().capacity_memory_bytes as nat
    }
}

/// Total memory in use on the nodes.
pub open spec fn memory_in_use(nodes: Seq<NodeInfo>) -> nat
    decreases nodes.len(),
{
    if nodes.len() == 0 {
        0
    } else {
        memory_in_use(nodes.drop_last()) + nodes.last().used_memory_bytes as nat
    }
}

/// Total CPU weight of the nodes.
pub open spec fn cpu_capacity(nodes: Seq<NodeInfo>) -> nat
    decreases nodes.len(),
{
    if nodes.len() == 0 {
        0
    } else {
        cpu_capacity(nodes.drop_last()) + nodes.last().capacity_cpu_weight as nat
    }
}

/// Total CPU weight in use on the nodes.
pub open spec fn cpu_in_use(nodes: Seq<NodeInfo>) -> nat
    decreases nodes.len(),
{
    if nodes.len() == 0 {
        0
    } else {
        cpu_in_use(nodes.drop_last()) + nodes.last().used_cpu_weight as nat
    }
}

/// How many nodes have sent a heartbeat in the last 30 seconds at `now`.
pub open spec fn ready_count(nodes: Seq<NodeInfo>, now: u64) -> nat
    decreases nodes.len(),
{
    if nodes.len() == 0 {
        0
    } else {
        ready_count(nodes.drop_last(), now) + if heartbeat_age(nodes.last().last_heartbeat, now) <= 30 {
            1nat
        } else {
            0nat
        }
    }
}

/// The sums that the summary adds up fit their types.
pub open spec fn sums_fit(nodes: Seq<NodeInfo>) -> bool {
    &&& memory_capacity(nodes) <= u64::MAX
    &&& memory_in_use(nodes) <= u64::MAX
    &&& cpu_capacity(nodes) <= u32::MAX
    &&& cpu_in_use(nodes) <= u32::MAX
}

/// `s` sums up the cluster at time `now`.
pub open spec fn summarizes(
    s: ClusterSummary,
    deployments: Seq<DeploymentSpec>,
    instances: Seq<InstanceState>,
    nodes: Seq<NodeInfo>,
    active_rollouts: usize,
    now: u64,
) -> bool {
    &&& s.deployment_count == deployments.len()
    &&& counts_listed(namespaces_of(deployments), s.namespace_counts@)
    &&& count_sum(s.namespace_counts@) == deployments.len()
    &&& s.instances.total == instances.len()
    &&& (s.instances.running as nat, s.instances.unhealthy as nat, s.instances.stopped as nat)
        == instance_counts_spec(states_of(instances))
    &&& s.node_count == nodes.len()
    &&& s.nodes_ready == ready_count(nodes, now)
    &&& s.active_rollouts == active_rollouts
    &&& s.memory_used == memory_in_use(nodes)
    &&& s.memory_total == memory_capacity(nodes)
    &&& s.cpu_used == cpu_in_use(nodes)
    &&& s.cpu_total == cpu_capacity(nodes)
}

proof fn lemma_sums_prefix(nodes: Seq<NodeInfo>, i: int)
    requires
        0 <= i <= nodes.len(),
    ensures
        memory_capacity(nodes.take(i)) <= memory_capacity(nodes),
        memory_in_use(nodes.take(i)) <= memory_in_use(nodes),
        cpu_capacity(nodes.take(i)) <= cpu_capacity(nodes),
        cpu_in_use(nodes.take(i)) <= cpu_in_use(nodes),
    decreases nodes.len(),
{
    if i < nodes.len() {
        assert(nodes.drop_last().take(i) =~= nodes.take(i));
        lemma_sums_prefix(nodes.drop_last(), i);
    } else {
        assert(nodes.take(i) =~= nodes);
    }
}

/// What a cluster summary counts: one entry per distinct namespace, in
/// sorted order, with counts that add up to the number of deployments; the
/// instance total is the number of instances, and the node count the
/// number of nodes.
pub proof fn law_cluster_summary_counts(
    s: ClusterSummary,
    deployments: Seq<DeploymentSpec>,
    instances: Seq<InstanceState>,
    nodes: Seq<NodeInfo>,
    active_rollouts: usize,
    now: u64,
)
    requires
        summarizes(s, deployments, instances, nodes, active_rollouts, now),
    ensures
        s.deployment_count == deployments.len(),
        forall|i: int, j: int|
            0 <= i < s.namespace_counts@.len() && 0 <= j < s.namespace_counts@.len() && i != j
                ==> (#[trigger] s.namespace_counts@[i]).0@ != (#[trigger] s.namespace_counts@[j]).0@,
        forall|k: int|
            0 <= k < deployments.len() ==> names_listed(
                s.namespace_counts@,
                (#[trigger] deployments[k]).namespace@,
            ),
        count_sum(s.namespace_counts@) == deployments.len(),
        s.instances.total == instances.len(),
        s.node_count == nodes.len(),
        s.active_rollouts == active_rollouts,
{
    let res = s.namespace_counts@;
    assert forall|i: int, j: int|
        0 <= i < res.len() && 0 <= j < res.len() && i != j implies (#[trigger] res[i]).0@
        != (#[trigger] res[j]).0@ by {
        lemma_strict_distinct(res, i, j);
    }
    assert forall|k: int| 0 <= k < deployments.len() implies names_listed(
        res,
        (#[trigger] deployments[k]).namespace@,
    ) by {
        assert(namespaces_of(deployments)[k] == deployments[k].namespace@);
        assert(names_listed(res, namespaces_of(deployments)[k]));
    }
}

/// The cluster summary at time `now`.
pub fn build_cluster_summary_at(
    deployments: &Vec<DeploymentSpec>,
    all_instances: &Vec<InstanceState>,
    nodes: &Vec<NodeInfo>,
    active_rollout_count: usize,
    now: u64,
) -> (res: ClusterSummary)
    requires
        sums_fit(nodes@),
    ensures
        summarizes(res, deployments@, all_instances@, nodes@, active_rollout_count, now),
{
    let mut namespaces: Vec<String> = Vec::new();
    let mut i: usize = 0;
    while i < deployments.len()
        invariant
            i <= deployments@.len(),
            namespaces@.len() == i,
            forall|t: int| 0 <= t < i ==> (#[trigger] namespaces@[t])@ == deployments@[t].namespace@,
        decreases deployments@.len() - i,
    {
        namespaces.push(deployments[i].namespace.clone());
        i = i + 1;
    }
    proof {
        assert(str_views(namespaces@) =~= namespaces_of(deployments@));
    }
    let namespace_counts = namespace_counts(&namespaces);

    let mut states: Vec<(InstanceStatus, HealthStatus)> = Vec::new();
    let mut j: usize = 0;
    while j < all_instances.len()
        invariant
            j <= all_instances@.len(),
            states@ == states_of(all_instances@.take(j as int)),
        decreases all_instances@.len() - j,
    {
        states.push((all_instances[j].status, all_instances[j].health));
        proof {
            assert(states@ =~= states_of(all_instances@.take(j + 1)));
        }
        j = j + 1;
    }
    proof {
        assert(all_instances@.take(j as int) =~= all_instances@);
    }
    let counts = count_instances(&states);

    let mut mem_total: u64 = 0;
    let mut mem_used: u64 = 0;
    let mut cpu_total: u32 = 0;
    let mut cpu_used: u32 = 0;
    let mut ready: usize = 0;
    let mut k: usize = 0;
    while k < nodes.len()
        invariant
            k <= nodes@.len(),
            sums_fit(nodes@),
            mem_total == memory_capacity(nodes@.take(k as int)),
            mem_used == memory_in_use(nodes@.take(k as int)),
            cpu_total == cpu_capacity(nodes@.take(k as int)),
            cpu_used == cpu_in_use(nodes@.take(k as int)),
            ready == ready_count(nodes@.take(k as int), now),
            ready <= k,
        decreases nodes@.len() - k,
    {
        let n = &nodes[k];
        proof {
            assert(nodes@.take(k + 1).drop_last() =~= nodes@.take(k as int));
            lemma_sums_prefix(nodes@, k + 1);
        }
        mem_total = mem_total + n.capacity_memory_bytes;
        mem_used = mem_used + n.used_memory_bytes;
        cpu_total = cpu_total + n.capacity_cpu_weight;
        cpu_used = cpu_used + n.used_cpu_weight;
        if now.saturating_sub(n.last_heartbeat) <= 30 {
            ready = ready + 1;
        }
        k = k + 1;
    }
    proof {
        assert(nodes@.take(k as int) =~= nodes@);
    }
    ClusterSummary {
        deployment_count: deployments.len(),
        namespace_counts,
        instances: counts,
        node_count: nodes.len(),
        nodes_ready: ready,
        active_rollouts: active_rollout_count,
        memory_used: mem_used,
        memory_total: mem_total,
        cpu_used,
        cpu_total,
    }
}

/// The cluster summary by the system clock.
pub fn build_cluster_summary(
    deployments: &Vec<DeploymentSpec>,
    all_instances: &Vec<InstanceState>,
    nodes: &Vec<NodeInfo>,
    active_rollout_count: usize,
) -> (res: ClusterSummary)
    requires
        sums_fit(nodes@),
    ensures
        exists|now: u64| summarizes(res, deployments@, all_instances@, nodes@, active_rollout_count, now),
{
    let now = epoch_secs();
    build_cluster_summary_at(deployments, all_instances, nodes, active_rollout_count, now)
}

/// A rollout of a new version of a deployment.
pub struct Rollout {
    pub deployment_id: String,
    pub strategy: RolloutStrategy,
    pub phase: RolloutPhase,
    pub old_version: String,
    pub new_version: String,
    pub target_instances: u32,
}

/// A rollout as the dashboard shows it, but for its progress percentage,
/// a floating-point value.
pub struct RolloutView {
    pub deployment_id: String,
    pub strategy_display: String,
    pub strategy_badge_color: &'static str,
    pub phase: PhaseView,
    pub old_version: String,
    pub new_version: String,
    pub target_instances: u32,
}

/// `v` shows rollout `r`.
pub open spec fn shows_rollout(v: RolloutView, r: Rollout) -> bool {
    &&& v.deployment_id@ == r.deployment_id@
    &&& (v.strategy_display@, v.strategy_badge_color@) == strategy_text(r.strategy)
    &&& (v.phase.phase_display@, v.phase.phase_color@, v.phase.progress_text@) == phase_text(r.phase)
    &&& v.phase.is_active == phase_active(r.phase)
    &&& v.phase.can_pause == (phase_active(r.phase) && !(r.phase is Paused))
    &&& v.phase.can_resume == (r.phase is Paused)
    &&& v.old_version@ == r.old_version@
    &&& v.new_version@ == r.new_version@
    &&& v.target_instances == r.target_instances
}

impl RolloutView {
    /// The view of a rollout.
    pub fn from_rollout(r: &Rollout) -> (res: Self)
        ensures
            shows_rollout(res, *r),
    {
        let (d, c) = strategy_display(r.strategy);
        RolloutView {
            deployment_id: r.deployment_id.clone(),
            strategy_display: to_owned_str(d),
            strategy_badge_color: c,
            phase: phase_view(&r.phase),
            old_version: r.old_version.clone(),
            new_version: r.new_version.clone(),
            target_instances: r.target_instances,
        }
    }
}

/// How many of the rollouts are still active.
pub open spec fn active_count(rs: Seq<Rollout>) -> nat
    decreases rs.len(),
{
    if rs.len() == 0 {
        0
    } else {
        active_count(rs.drop_last()) + if phase_active(rs.last().phase) {
            1nat
        } else {
            0nat
        }
    }
}

/// Counts the rollouts that have neither completed nor been rolled back.
pub fn active_rollout_count(rollouts: &Vec<Rollout>) -> (res: usize)
    ensures
        res == active_count(rollouts@),
{
    let mut n: usize = 0;
    let mut i: usize = 0;
    while i < rollouts.len()
        invariant
            i <= rollouts@.len(),
            n == active_count(rollouts@.take(i as int)),
            n <= i,
        decreases rollouts@.len() - i,
    {
        proof {
            assert(rollouts@.take(i + 1).drop_last() =~= rollouts@.take(i as int));
        }
        let active = match rollouts[i].phase {
            RolloutPhase::Completed => false,
            RolloutPhase::RolledBack { .. } => false,
            _ => true,
        };
        if active {
            n = n + 1;
        }
        i = i + 1;
    }
    proof {
        assert(rollouts@.take(i as int) =~= rollouts@);
    }
    n
}

/// The views among `s` that are active (or, for `active` false, finished),
/// in their order.
pub open spec fn with_activity(s: Seq<RolloutView>, active: bool) -> Seq<RolloutView>
    decreases s.len(),
{
    if s.len() == 0 {
        Seq::empty()
    } else if s.last().phase.is_active == active {
        with_activity(s.drop_last(), active).push(s.last())
    } else {
        with_activity(s.drop_last(), active)
    }
}

/// Parts rollout views into the active ones and the finished ones, each
/// in the order given.
pub fn split_rollouts(all: Vec<RolloutView>) -> (res: (Vec<RolloutView>, Vec<RolloutView>))
    ensures
        res.0@ == with_activity(all@, true),
        res.1@ == with_activity(all@, false),
{
    let ghost whole = all@;
    let mut rest = all;
    let mut active: Vec<RolloutView> = Vec::new();
    let mut finished: Vec<RolloutView> = Vec::new();
    let ghost mut k: int = 0;
    proof {
        assert(whole.take(0) =~= Seq::<RolloutView>::empty());
        assert(whole.skip(0) =~= whole);
    }
    while rest.len() > 0
        invariant
            0 <= k <= whole.len(),
            rest@ == whole.skip(k),
            active@ == with_activity(whole.take(k), true),
            finished@ == with_activity(whole.take(k), false),
        decreases rest@.len(),
    {
        let v = rest.remove(0);
        proof {
            assert(whole.take(k + 1).drop_last() =~= whole.take(k));
            assert(v == whole[k]);
            assert(rest@ =~= whole.skip(k + 1));
        }
        if v.phase.is_active {
            active.push(v);
        } else {
            finished.push(v);
        }
        proof {
            k = k + 1;
        }
    }
    proof {
        assert(whole.take(k) =~= whole);
    }
    (active, finished)
}

/// The cluster mode shown in the dashboard's header: `Standalone` without
/// nodes, else `Cluster ({n})`.
pub open spec fn cluster_mode_text(node_count: nat) -> Seq<char> {
    if node_count == 0 {
        "Standalone"@
    } else {
        "Cluster ("@ + dec(node_count) + ")"@
    }
}

/// The cluster mode for `node_count` nodes.
pub fn cluster_mode(node_count: usize) -> (res: String)
    ensures
        res@ == cluster_mode_text(node_count as nat),
{
    if node_count == 0 {
        return to_owned_str("Standalone");
    }
    let mut s = String::new();
    push_str(&mut s, "Cluster (");
    push_dec(&mut s, node_count as u64);
    push_str(&mut s, ")");
    proof {
        assert(s@ =~= cluster_mode_text(node_count as nat));
    }
    s
}

/// What the detail page shows for a deployment id the store does not know:
/// a deployment of that id and name in namespace `unknown`, from source
/// `unknown`, with no instances allowed, no resources and nothing else set.
pub fn placeholder_deployment(id: &str) -> (res: DeploymentSpec)
    ensures
        res.id@ == id@,
        res.name@ == id@,
        res.namespace@ == "unknown"@,
        res.source@ == "unknown"@,
        res.trigger == (TriggerConfig::Http { port: None }),
        res.instances.min == 0 && res.instances.max == 0,
        res.resources.memory_bytes == 0 && res.resources.cpu_weight == 0,
        res.health is None,
        !res.shims.timezone && !res.shims.dev_urandom && !res.shims.dns && !res.shims.signals
            && !res.shims.database_proxy,
        res.env.wf(),
        res.env@ == Map::<Seq<char>, String>::empty(),
        res.created_at == 0 && res.updated_at == 0,
{
    DeploymentSpec {
        id: to_owned_str(id),
        namespace: to_owned_str("unknown"),
        name: to_owned_str(id),
        source: to_owned_str("unknown"),
        trigger: TriggerConfig::Http { port: None },
        instances: InstanceConstraints { min: 0, max: 0 },
        resources: ResourceLimits { memory_bytes: 0, cpu_weight: 0 },
        health: None,
        shims: ShimsEnabled::default(),
        env: StrMap::new(),
        created_at: 0,
        updated_at: 0,
    }
}

/// What the detail page shows for a node id the store does not know: a
/// node of that id at address `unknown`, port 0, with no capacity, no
/// labels and no heartbeat.
pub fn placeholder_node(id: &str) -> (res: NodeInfo)
    ensures
        res.id@ == id@,
        res.address@ == "unknown"@,
        res.port == 0,
        res.capacity_memory_bytes == 0 && res.capacity_cpu_weight == 0,
        res.used_memory_bytes == 0 && res.used_cpu_weight == 0,
        res.labels.wf(),
        res.labels@ == Map::<Seq<char>, String>::empty(),
        res.last_heartbeat == 0,
{
    NodeInfo {
        id: to_owned_str(id),
        address: to_owned_str("unknown"),
        port: 0,
        capacity_memory_bytes: 0,
        capacity_cpu_weight: 0,
        used_memory_bytes: 0,
        used_cpu_weight: 0,
        labels: StrMap::new(),
        last_heartbeat: 0,
    }
}

/// The texts of an alert: severity, its color, the deployment and the
/// message.
pub open spec fn alert_text(a: AlertView) -> (Seq<char>, Seq<char>, Seq<char>, Seq<char>) {
    (a.severity@, a.severity_color@, a.deployment@, a.message@)
}

/// The alerts of the deployments: for each in order, an error when some of
/// its instances are unhealthy, then a warning when its error rate is above
/// 5% (`high_error_rates[i]` then holds the rate as shown, to one decimal).
pub open spec fn deployment_alerts(ds: Seq<DeploymentView>, high_error_rates: Seq<Option<String>>) -> Seq<
    (Seq<char>, Seq<char>, Seq<char>, Seq<char>),
>
    decreases ds.len(),
{
    if ds.len() == 0 || high_error_rates.len() != ds.len() {
        Seq::empty()
    } else {
        let d = ds.last();
        let earlier = deployment_alerts(ds.drop_last(), high_error_rates.drop_last());
        let with_unhealthy = if red_dots(d.health_dots@) > 0 {
            earlier.push(
                (
                    "Error"@,
                    "border-rose-400/50 bg-rose-500/10"@,
                    d.name@,
                    dec(red_dots(d.health_dots@)) + " unhealthy instance(s)"@,
                ),
            )
        } else {
            earlier
        };
        match high_error_rates.last() {
            Some(rate) => with_unhealthy.push(
                ("Warning"@, "border-amber-400/50 bg-amber-500/10"@, d.name@, "Error rate "@ + rate@ + "%"@),
            ),
            None => with_unhealthy,
        }
    }
}

/// The alerts of rolled-back rollouts, in order.
pub open spec fn rollout_alerts(rs: Seq<RolloutView>) -> Seq<(Seq<char>, Seq<char>, Seq<char>, Seq<char>)>
    decreases rs.len(),
{
    if rs.len() == 0 {
        Seq::empty()
    } else {
        let r = rs.last();
        if r.phase.phase_display@ == "Rolled Back"@ {
            rollout_alerts(rs.drop_last()).push(
                (
                    "Error"@,
                    "border-rose-400/50 bg-rose-500/10"@,
                    r.deployment_id@,
                    "Rollout rolled back: "@ + r.phase.progress_text@,
                ),
            )
        } else {
            rollout_alerts(rs.drop_last())
        }
    }
}

/// The alerts of the overview page: those of the deployments, then those
/// of the rollouts.
pub fn build_alerts(
    deployments: &Vec<DeploymentView>,
    high_error_rates: &Vec<Option<String>>,
    rollouts: &Vec<RolloutView>,
) -> (res: Vec<AlertView>)
    requires
        high_error_rates@.len() == deployments@.len(),
    ensures
        res@.map_values(|a: AlertView| alert_text(a)) == deployment_alerts(deployments@, high_error_rates@)
            + rollout_alerts(rollouts@),
{
    let mut alerts: Vec<AlertView> = Vec::new();
    let mut i: usize = 0;
    while i < deployments.len()
        invariant
            i <= deployments@.len(),
            high_error_rates@.len() == deployments@.len(),
            alerts@.map_values(|a: AlertView| alert_text(a)) == deployment_alerts(
                deployments@.take(i as int),
                high_error_rates@.take(i as int),
            ),
        decreases deployments@.len() - i,
    {
        let d = &deployments[i];
        let ghost before = alerts@;
        proof {
            assert(deployments@.take(i + 1).drop_last() =~= deployments@.take(i as int));
            assert(high_error_rates@.take(i + 1).drop_last() =~= high_error_rates@.take(i as int));
        }
        match unhealthy_alert(d.name.as_str(), &d.health_dots) {
            Some(a) => alerts.push(a),
            None => {},
        }
        let ghost middle = alerts@;
        proof {
            assert(middle.map_values(|a: AlertView| alert_text(a)) =~= if red_dots(d.health_dots@) > 0 {
                before.map_values(|a: AlertView| alert_text(a)).push(
                    (
                        "Error"@,
                        "border-rose-400/50 bg-rose-500/10"@,
                        d.name@,
                        dec(red_dots(d.health_dots@)) + " unhealthy instance(s)"@,
                    ),
                )
            } else {
                before.map_values(|a: AlertView| alert_text(a))
            });
        }
        match &high_error_rates[i] {
            Some(rate) => {
                let mut m = String::new();
                push_str(&mut m, "Error rate ");
                push_str(&mut m, rate.as_str());
                push_str(&mut m, "%");
                alerts.push(
                    AlertView {
                        severity: "Warning",
                        severity_color: "border-amber-400/50 bg-amber-500/10",
                        deployment: d.name.clone(),
                        message: m,
                    },
                );
            },
            None => {},
        }
        proof {
            assert(alerts@.map_values(|a: AlertView| alert_text(a)) =~= deployment_alerts(
                deployments@.take(i + 1),
                high_error_rates@.take(i + 1),
            ));
        }
        i = i + 1;
    }
    proof {
        assert(deployments@.take(i as int) =~= deployments@);
        assert(high_error_rates@.take(i as int) =~= high_error_rates@);
    }
    let ghost head = alerts@.map_values(|a: AlertView| alert_text(a));
    let mut j: usize = 0;
    while j < rollouts.len()
        invariant
            j <= rollouts@.len(),
            alerts@.map_values(|a: AlertView| alert_text(a)) == head + rollout_alerts(
                rollouts@.take(j as int),
            ),
        decreases rollouts@.len() - j,
    {
        let r = &rollouts[j];
        proof {
            assert(rollouts@.take(j + 1).drop_last() =~= rollouts@.take(j as int));
        }
        let ghost before = alerts@;
        match rolled_back_alert(r.deployment_id.as_str(), &r.phase) {
            Some(a) => {
                alerts.push(a);
                proof {
                    assert(alerts@.map_values(|a: AlertView| alert_text(a)) =~= before.map_values(
                        |a: AlertView| alert_text(a),
                    ).push(alert_text(a)));
                }
            },
            None => {},
        }
        proof {
            assert(alerts@.map_values(|a: AlertView| alert_text(a)) =~= head + rollout_alerts(
                rollouts@.take(j + 1),
            ));
        }
        j = j + 1;
    }
    proof {
        assert(rollouts@.take(j as int) =~= rollouts@);
    }
    alerts
}

/// Counts the running instances.
pub fn count_running(instances: &Vec<InstanceState>) -> (res: usize)
    ensures
        res == running_count(instances@),
{
    let mut n: usize = 0;
    let mut i: usize = 0;
    while i < instances.len()
        invariant
            i <= instances@.len(),
            n == running_count(instances@.take(i as int)),
            n <= i,
        decreases instances@.len() - i,
    {
        proof {
            assert(instances@.take(i + 1).drop_last() =~= instances@.take(i as int));
        }
        if instances[i].status == InstanceStatus::Running {
            n = n + 1;
        }
        i = i + 1;
    }
    proof {
        assert(instances@.take(i as int) =~= instances@);
    }
    n
}

/// How many of the instances run on node `node_id`.
pub open spec fn on_node_count(s: Seq<InstanceState>, node_id: Seq<char>) -> nat
    decreases s.len(),
{
    if s.len() == 0 {
        0
    } else {
        on_node_count(s.drop_last(), node_id) + if s.last().node_id@ == node_id {
            1nat
        } else {
            0nat
        }
    }
}

/// Counts the instances placed on node `node_id`.
pub fn instances_on_node(instances: &Vec<InstanceState>, node_id: &str) -> (res: usize)
    ensures
        res == on_node_count(instances@, node_id@),
{
    let mut n: usize = 0;
    let mut i: usize = 0;
    while i < instances.len()
        invariant
            i <= instances@.len(),
            n == on_node_count(instances@.take(i as int), node_id@),
            n <= i,
        decreases instances@.len() - i,
    {
        proof {
            assert(instances@.take(i + 1).drop_last() =~= instances@.take(i as int));
        }
        if str_eq(instances[i].node_id.as_str(), node_id) {
            n = n + 1;
        }
        i = i + 1;
    }
    proof {
        assert(instances@.take(i as int) =~= instances@);
    }
    n
}

} // verus!
