//! What the operations dashboard shows of deployments, instances, nodes and
//! rollouts: sizes, ages, colors, labels and counts.

use vstd::prelude::*;
use crate::format::{f64_of, f64_value, one_decimal, push_one_decimal, round_half_even, round_half_even_u128};
use crate::sys::{epoch_secs, utc_datetime_text, utc_text};
use crate::text::{concat, dec, push_dec, push_str, to_owned_str};

verus! {

/// Lifecycle status of an instance.
#[derive(Clone, Copy, Debug, PartialEq, Eq, Structural)]
pub enum InstanceStatus {
    Running,
    Starting,
    Unhealthy,
    Stopping,
    Stopped,
}

/// Health of an instance.
#[derive(Clone, Copy, Debug, PartialEq, Eq, Structural)]
pub enum HealthStatus {
    Healthy,
    Unhealthy,
    Unknown,
}

/// How a deployment is triggered.
#[derive(Debug)]
pub enum TriggerConfig {
    Http { port: Option<u16> },
    Cron { schedule: String },
    Queue { topic: String },
}

/// A byte count as the dashboard shows it: `{x.y} GB` from a gigabyte on,
/// else `MB` and `KB` rounded to whole units (ties to even), else `B`.
pub open spec fn dashboard_bytes_text(bytes: nat) -> Seq<char> {
    if bytes >= 1073741824 {
        one_decimal(f64_value(bytes), 30) + " GB"@
    } else if bytes >= 1048576 {
        dec(round_half_even(bytes, 1048576)) + " MB"@
    } else if bytes >= 1024 {
        dec(round_half_even(bytes, 1024)) + " KB"@
    } else {
        dec(bytes) + " B"@
    }
}

/// Formats a byte count for the dashboard.
pub fn format_bytes(bytes: u64) -> (res: String)
    ensures
        res@ == dashboard_bytes_text(bytes as nat),
{
    let mut s = String::new();
    if bytes >= 1024 * 1024 * 1024 {
        let f = f64_of(bytes);
        push_one_decimal(&mut s, f, 30);
        push_str(&mut s, " GB");
    } else if bytes >= 1024 * 1024 {
        let q = round_half_even_u128(bytes as u128, 1024 * 1024);
        proof {
            assert(q <= bytes as u128);
        }
        push_dec(&mut s, q as u64);
        push_str(&mut s, " MB");
    } else if bytes >= 1024 {
        let q = round_half_even_u128(bytes as u128, 1024);
        proof {
            assert(q <= bytes as u128);
        }
        push_dec(&mut s, q as u64);
        push_str(&mut s, " KB");
    } else {
        push_dec(&mut s, bytes);
        push_str(&mut s, " B");
    }
    proof {
        assert(s@ =~= dashboard_bytes_text(bytes as nat));
    }
    s
}

/// How long ago `timestamp` was at time `now`: "never" for a zero
/// timestamp, else whole seconds, minutes, hours or days (`30s ago`,
/// `2m ago`, `2h ago`, `2d ago`); a timestamp in the future counts as zero
/// seconds ago.
pub open spec fn relative_time_text(timestamp: u64, now: u64) -> Seq<char> {
    if timestamp == 0 {
        "never"@
    } else {
        let delta: nat = if now >= timestamp {
            (now - timestamp) as nat
        } else {
            0
        };
        if delta < 60 {
            dec(delta) + "s ago"@
        } else if delta < 3600 {
            dec(delta / 60) + "m ago"@
        } else if delta < 86400 {
            dec(delta / 3600) + "h ago"@
        } else {
            dec(delta / 86400) + "d ago"@
        }
    }
}

/// How long ago `timestamp_secs` was at time `now`.
pub fn format_relative_time_at(timestamp_secs: u64, now: u64) -> (res: String)
    ensures
        res@ == relative_time_text(timestamp_secs, now),
{
    if timestamp_secs == 0 {
        return to_owned_str("never");
    }
    let delta = now.saturating_sub(timestamp_secs);
    let mut s = String::new();
    if delta < 60 {
        push_dec(&mut s, delta);
        push_str(&mut s, "s ago");
    } else if delta < 3600 {
        push_dec(&mut s, delta / 60);
        push_str(&mut s, "m ago");
    } else if delta < 86400 {
        push_dec(&mut s, delta / 3600);
        push_str(&mut s, "h ago");
    } else {
        push_dec(&mut s, delta / 86400);
        push_str(&mut s, "d ago");
    }
    proof {
        assert(s@ =~= relative_time_text(timestamp_secs, now));
    }
    s
}

/// How long ago `timestamp_secs` was, by the system clock.
pub fn format_relative_time(timestamp_secs: u64) -> (res: String)
    ensures
        exists|now: u64| res@ == relative_time_text(timestamp_secs, now),
        timestamp_secs == 0 ==> res@ == "never"@,
{
    let now = epoch_secs();
    format_relative_time_at(timestamp_secs, now)
}

/// A Unix timestamp as the dashboard shows it: its UTC date and time, or
/// `unknown` where it is out of range. The seconds are read as a signed
/// 64-bit number, as a cast does.
pub fn format_timestamp(timestamp_secs: u64) -> (res: String)
    ensures
        res@ == match utc_text((timestamp_secs as i64) as int) {
            Some(t) => t,
            None => "unknown"@,
        },
{
    match utc_datetime_text(timestamp_secs as i64) {
        Some(t) => t,
        None => to_owned_str("unknown"),
    }
}

/// The text color of an instance status.
pub open spec fn status_color_text(status: InstanceStatus) -> Seq<char> {
    match status {
        InstanceStatus::Running => "text-emerald-400"@,
        InstanceStatus::Starting => "text-sky-400"@,
        InstanceStatus::Unhealthy => "text-rose-400"@,
        InstanceStatus::Stopping => "text-amber-400"@,
        InstanceStatus::Stopped => "text-slate-500"@,
    }
}

/// The text color of an instance status.
pub fn status_color_for_instance(status: InstanceStatus) -> (res: &'static str)
    ensures
        res@ == status_color_text(status),
{
    match status {
        InstanceStatus::Running => "text-emerald-400",
        InstanceStatus::Starting => "text-sky-400",
        InstanceStatus::Unhealthy => "text-rose-400",
        InstanceStatus::Stopping => "text-amber-400",
        InstanceStatus::Stopped => "text-slate-500",
    }
}

/// The text color of a health status.
pub open spec fn health_color_text(health: HealthStatus) -> Seq<char> {
    match health {
        HealthStatus::Healthy => "text-emerald-400"@,
        HealthStatus::Unhealthy => "text-rose-400"@,
        HealthStatus::Unknown => "text-slate-400"@,
    }
}

/// The text color of a health status.
pub fn health_color(health: HealthStatus) -> (res: &'static str)
    ensures
        res@ == health_color_text(health),
{
    match health {
        HealthStatus::Healthy => "text-emerald-400",
        HealthStatus::Unhealthy => "text-rose-400",
        HealthStatus::Unknown => "text-slate-400",
    }
}

/// The dot color of an instance: a running instance by its health, any
/// other by its status.
pub open spec fn dot_color_text(status: InstanceStatus, health: HealthStatus) -> Seq<char> {
    match status {
        InstanceStatus::Running => match health {
            HealthStatus::Healthy => "bg-emerald-400"@,
            HealthStatus::Unhealthy => "bg-rose-400"@,
            HealthStatus::Unknown => "bg-amber-400"@,
        },
        InstanceStatus::Starting => "bg-sky-400"@,
        InstanceStatus::Unhealthy => "bg-rose-400"@,
        InstanceStatus::Stopping => "bg-amber-400"@,
        InstanceStatus::Stopped => "bg-slate-500"@,
    }
}

/// The dot color of an instance.
pub fn instance_status_color(status: InstanceStatus, health: HealthStatus) -> (res: &'static str)
    ensures
        res@ == dot_color_text(status, health),
{
    match status {
        InstanceStatus::Running => match health {
            HealthStatus::Healthy => "bg-emerald-400",
            HealthStatus::Unhealthy => "bg-rose-400",
            HealthStatus::Unknown => "bg-amber-400",
        },
        InstanceStatus::Starting => "bg-sky-400",
        InstanceStatus::Unhealthy => "bg-rose-400",
        InstanceStatus::Stopping => "bg-amber-400",
        InstanceStatus::Stopped => "bg-slate-500",
    }
}

/// How a trigger is shown, with its icon: `HTTP :<port>` (port 8080 when
/// none is set), `Cron <schedule>`, `Queue <topic>`.
pub open spec fn trigger_text(trigger: TriggerConfig) -> (Seq<char>, Seq<char>) {
    match trigger {
        TriggerConfig::Http { port } => (
            "HTTP :"@ + dec(
                match port {
                    Some(p) => p as nat,
                    None => 8080,
                },
            ),
            "HTTP"@,
        ),
        TriggerConfig::Cron { schedule } => ("Cron "@ + schedule@, "CRON"@),
        TriggerConfig::Queue { topic } => ("Queue "@ + topic@, "Q"@),
    }
}

/// How a trigger is shown, with its icon.
pub fn format_trigger(trigger: &TriggerConfig) -> (res: (String, &'static str))
    ensures
        (res.0@, res.1@) == trigger_text(*trigger),
{
    match trigger {
        TriggerConfig::Http { port } => {
            let p: u64 = match port {
                Some(p) => *p as u64,
                None => 8080,
            };
            let mut s = String::new();
            push_str(&mut s, "HTTP :");
            push_dec(&mut s, p);
            proof {
                assert(s@ =~= trigger_text(*trigger).0);
            }
            (s, "HTTP")
        },
        TriggerConfig::Cron { schedule } => (concat("Cron ", schedule.as_str()), "CRON"),
        TriggerConfig::Queue { topic } => (concat("Queue ", topic.as_str()), "Q"),
    }
}

/// A node's liveness as the dashboard judges it by the age of its last
/// heartbeat: Dead after 60 s, Draining after 30 s, else Ready; with the
/// status color and the heartbeat color.
pub open spec fn node_health_text(heartbeat_age: u64) -> (Seq<char>, Seq<char>, Seq<char>) {
    if heartbeat_age > 60 {
        ("Dead"@, "text-rose-400"@, "text-rose-400"@)
    } else if heartbeat_age > 30 {
        ("Draining"@, "text-amber-400"@, "text-amber-400"@)
    } else {
        ("Ready"@, "text-emerald-400"@, "text-slate-400"@)
    }
}

/// A node's dashboard status at time `now`: status, status color and
/// heartbeat color.
pub fn node_health(last_heartbeat: u64, now: u64) -> (res: (&'static str, &'static str, &'static str))
    ensures
        (res.0@, res.1@, res.2@) == node_health_text(if now >= last_heartbeat {
            (now - last_heartbeat) as u64
        } else {
            0
        }),
{
    let age = now.saturating_sub(last_heartbeat);
    if age > 60 {
        ("Dead", "text-rose-400", "text-rose-400")
    } else if age > 30 {
        ("Draining", "text-amber-400", "text-amber-400")
    } else {
        ("Ready", "text-emerald-400", "text-slate-400")
    }
}

/// Deployment strategy of a rollout.
#[derive(Clone, Copy, Debug, PartialEq, Eq, Structural)]
pub enum RolloutStrategy {
    Rolling,
    Canary,
    BlueGreen,
}

/// Phase of a rollout.
#[derive(Debug)]
pub enum RolloutPhase {
    Pending,
    RollingBatch { current: u32, total: u32 },
    CanaryObserving,
    CanaryPromoting,
    HealthGate,
    Paused,
    Completed,
    RolledBack { reason: String },
}

/// How a strategy is shown, with its badge color.
pub open spec fn strategy_text(s: RolloutStrategy) -> (Seq<char>, Seq<char>) {
    match s {
        RolloutStrategy::Rolling => ("Rolling"@, "bg-sky-500/20 text-sky-400"@),
        RolloutStrategy::Canary => ("Canary"@, "bg-amber-500/20 text-amber-400"@),
        RolloutStrategy::BlueGreen => ("Blue-Green"@, "bg-emerald-500/20 text-emerald-400"@),
    }
}

/// How a strategy is shown, with its badge color.
pub fn strategy_display(s: RolloutStrategy) -> (res: (&'static str, &'static str))
    ensures
        (res.0@, res.1@) == strategy_text(s),
{
    match s {
        RolloutStrategy::Rolling => ("Rolling", "bg-sky-500/20 text-sky-400"),
        RolloutStrategy::Canary => ("Canary", "bg-amber-500/20 text-amber-400"),
        RolloutStrategy::BlueGreen => ("Blue-Green", "bg-emerald-500/20 text-emerald-400"),
    }
}

/// The shown parts of a rollout phase that are not a percentage.
pub struct PhaseView {
    pub phase_display: String,
    pub phase_color: &'static str,
    pub progress_text: String,
    pub is_active: bool,
    pub can_pause: bool,
    pub can_resume: bool,
}

/// How a phase is shown: its name, its color and the progress text.
pub open spec fn phase_text(p: RolloutPhase) -> (Seq<char>, Seq<char>, Seq<char>) {
    match p {
        RolloutPhase::Pending => ("Pending"@, "text-slate-400"@, "Not started"@),
        RolloutPhase::RollingBatch { current, total } => (
            "Rolling "@ + dec(current as nat) + "/"@ + dec(total as nat),
            "text-sky-400"@,
            "Batch "@ + dec(current as nat) + "/"@ + dec(total as nat),
        ),
        RolloutPhase::CanaryObserving => ("Canary Observing"@, "text-amber-400"@, "Observing canary"@),
        RolloutPhase::CanaryPromoting => ("Canary Promoting"@, "text-emerald-400"@, "Promoting canary"@),
        RolloutPhase::HealthGate => ("Health Gate"@, "text-sky-400"@, "Checking health"@),
        RolloutPhase::Paused => ("Paused"@, "text-amber-400"@, "Paused by operator"@),
        RolloutPhase::Completed => ("Completed"@, "text-emerald-400"@, "Done"@),
        RolloutPhase::RolledBack { reason } => ("Rolled Back"@, "text-rose-400"@, reason@),
    }
}

/// A rollout is active until it completes or is rolled back.
pub open spec fn phase_active(p: RolloutPhase) -> bool {
    !(p is Completed || p is RolledBack)
}

/// The shown parts of a phase: an active rollout that is not paused can be
/// paused, and only a paused one resumed.
pub fn phase_view(p: &RolloutPhase) -> (res: PhaseView)
    ensures
        (res.phase_display@, res.phase_color@, res.progress_text@) == phase_text(*p),
        res.is_active == phase_active(*p),
        res.can_pause == (phase_active(*p) && !(p is Paused)),
        res.can_resume == (p is Paused),
{
    let (d, c, t): (String, &'static str, String) = match p {
        RolloutPhase::Pending => (to_owned_str("Pending"), "text-slate-400", to_owned_str("Not started")),
        RolloutPhase::RollingBatch { current, total } => {
            let mut d = String::new();
            push_str(&mut d, "Rolling ");
            push_dec(&mut d, *current as u64);
            push_str(&mut d, "/");
            push_dec(&mut d, *total as u64);
            let mut t = String::new();
            push_str(&mut t, "Batch ");
            push_dec(&mut t, *current as u64);
            push_str(&mut t, "/");
            push_dec(&mut t, *total as u64);
            proof {
                assert(d@ =~= phase_text(*p).0);
                assert(t@ =~= phase_text(*p).2);
            }
            (d, "text-sky-400", t)
        },
        RolloutPhase::CanaryObserving => (to_owned_str("Canary Observing"), "text-amber-400", to_owned_str("Observing canary")),
        RolloutPhase::CanaryPromoting => (to_owned_str("Canary Promoting"), "text-emerald-400", to_owned_str("Promoting canary")),
        RolloutPhase::HealthGate => (to_owned_str("Health Gate"), "text-sky-400", to_owned_str("Checking health")),
        RolloutPhase::Paused => (to_owned_str("Paused"), "text-amber-400", to_owned_str("Paused by operator")),
        RolloutPhase::Completed => (to_owned_str("Completed"), "text-emerald-400", to_owned_str("Done")),
        RolloutPhase::RolledBack { reason } => (to_owned_str("Rolled Back"), "text-rose-400", reason.clone()),
    };
    let is_active = match p {
        RolloutPhase::Completed => false,
        RolloutPhase::RolledBack { .. } => false,
        _ => true,
    };
    let paused = match p {
        RolloutPhase::Paused => true,
        _ => false,
    };
    PhaseView {
        phase_display: d,
        phase_color: c,
        progress_text: t,
        is_active,
        can_pause: is_active && !paused,
        can_resume: paused,
    }
}

/// How many instances are running, unhealthy (by status or health) and
/// stopped.
pub open spec fn instance_counts_spec(s: Seq<(InstanceStatus, HealthStatus)>) -> (nat, nat, nat)
    decreases s.len(),
{
    if s.len() == 0 {
        (0, 0, 0)
    } else {
        let (r, u, st) = instance_counts_spec(s.drop_last());
        let (status, health) = s.last();
        (
            r + if status == InstanceStatus::Running { 1nat } else { 0nat },
            u + if status == InstanceStatus::Unhealthy || health == HealthStatus::Unhealthy { 1nat } else { 0nat },
            st + if status == InstanceStatus::Stopped { 1nat } else { 0nat },
        )
    }
}

/// Counts of instances by state.
#[derive(Clone, Copy, Debug, PartialEq, Eq, Structural)]
pub struct InstanceCounts {
    pub running: usize,
    pub unhealthy: usize,
    pub stopped: usize,
    pub total: usize,
}

/// Counts the running, unhealthy and stopped instances.
pub fn count_instances(instances: &Vec<(InstanceStatus, HealthStatus)>) -> (res: InstanceCounts)
    ensures
        res.total == instances@.len(),
        (res.running as nat, res.unhealthy as nat, res.stopped as nat) == instance_counts_spec(instances@),
{
    let mut r: usize = 0;
    let mut u: usize = 0;
    let mut st: usize = 0;
    let mut i: usize = 0;
    while i < instances.len()
        invariant
            i <= instances@.len(),
            (r as nat, u as nat, st as nat) == instance_counts_spec(instances@.take(i as int)),
            r <= i && u <= i && st <= i,
        decreases instances@.len() - i,
    {
        let (status, health) = instances[i];
        proof {
            assert(instances@.take(i + 1).drop_last() =~= instances@.take(i as int));
        }
        if status == InstanceStatus::Running {
            r = r + 1;
        }
        if status == InstanceStatus::Unhealthy || health == HealthStatus::Unhealthy {
            u = u + 1;
        }
        if status == InstanceStatus::Stopped {
            st = st + 1;
        }
        i = i + 1;
    }
    proof {
        assert(instances@.take(i as int) =~= instances@);
    }
    InstanceCounts { running: r, unhealthy: u, stopped: st, total: instances.len() }
}

/// The name of an instance status, as `Debug` prints it.
pub open spec fn status_name_text(s: InstanceStatus) -> Seq<char> {
    match s {
        InstanceStatus::Running => "Running"@,
        InstanceStatus::Starting => "Starting"@,
        InstanceStatus::Unhealthy => "Unhealthy"@,
        InstanceStatus::Stopping => "Stopping"@,
        InstanceStatus::Stopped => "Stopped"@,
    }
}

/// The name of an instance status.
pub fn status_name(s: InstanceStatus) -> (res: &'static str)
    ensures
        res@ == status_name_text(s),
{
    match s {
        InstanceStatus::Running => "Running",
        InstanceStatus::Starting => "Starting",
        InstanceStatus::Unhealthy => "Unhealthy",
        InstanceStatus::Stopping => "Stopping",
        InstanceStatus::Stopped => "Stopped",
    }
}

/// The name of a health status, as `Debug` prints it.
pub open spec fn health_name_text(h: HealthStatus) -> Seq<char> {
    match h {
        HealthStatus::Healthy => "Healthy"@,
        HealthStatus::Unhealthy => "Unhealthy"@,
        HealthStatus::Unknown => "Unknown"@,
    }
}

/// The name of a health status.
pub fn health_name(h: HealthStatus) -> (res: &'static str)
    ensures
        res@ == health_name_text(h),
{
    match h {
        HealthStatus::Healthy => "Healthy",
        HealthStatus::Unhealthy => "Unhealthy",
        HealthStatus::Unknown => "Unknown",
    }
}

/// An instance as the state store records it.
#[derive(Debug)]
pub struct InstanceState {
    pub id: String,
    pub deployment_id: String,
    pub node_id: String,
    pub status: InstanceStatus,
    pub health: HealthStatus,
    pub restart_count: u32,
    pub memory_bytes: u64,
    pub started_at: u64,
    pub updated_at: u64,
}

/// An instance as the dashboard shows it.
#[derive(Debug)]
pub struct InstanceView {
    pub id: String,
    pub deployment_id: String,
    pub node_id: String,
    pub status: String,
    pub status_color: &'static str,
    pub health: String,
    pub health_color: &'static str,
    pub restart_count: u32,
    pub memory_display: String,
    pub memory_bytes: u64,
    pub uptime_display: String,
}

impl InstanceView {
    /// The view of an instance; its uptime is shown relative to the
    /// current time.
    pub fn from_state(state: &InstanceState) -> (res: Self)
        ensures
            res.id@ == state.id@,
            res.deployment_id@ == state.deployment_id@,
            res.node_id@ == state.node_id@,
            res.status@ == status_name_text(state.status),
            res.status_color@ == status_color_text(state.status),
            res.health@ == health_name_text(state.health),
            res.health_color@ == health_color_text(state.health),
            res.restart_count == state.restart_count,
            res.memory_display@ == dashboard_bytes_text(state.memory_bytes as nat),
            res.memory_bytes == state.memory_bytes,
            exists|now: u64| res.uptime_display@ == relative_time_text(state.started_at, now),
    {
        InstanceView {
            id: state.id.clone(),
            deployment_id: state.deployment_id.clone(),
            node_id: state.node_id.clone(),
            status: to_owned_str(status_name(state.status)),
            status_color: status_color_for_instance(state.status),
            health: to_owned_str(health_name(state.health)),
            health_color: health_color(state.health),
            restart_count: state.restart_count,
            memory_display: format_bytes(state.memory_bytes),
            memory_bytes: state.memory_bytes,
            uptime_display: format_relative_time(state.started_at),
        }
    }
}

/// A dot of a deployment's instance strip: its color and hover text.
#[derive(Debug)]
pub struct HealthDot {
    pub color: &'static str,
    pub title: String,
}

/// The hover text of an instance's dot: `{id} — {status}/{health}`.
pub open spec fn dot_title(id: Seq<char>, status: InstanceStatus, health: HealthStatus) -> Seq<char> {
    id + " \u{2014} "@ + status_name_text(status) + "/"@ + health_name_text(health)
}

/// The dot of an instance.
pub fn health_dot(id: &str, status: InstanceStatus, health: HealthStatus) -> (res: HealthDot)
    ensures
        res.color@ == dot_color_text(status, health),
        res.title@ == dot_title(id@, status, health),
{
    let mut t = String::new();
    push_str(&mut t, id);
    push_str(&mut t, " \u{2014} ");
    push_str(&mut t, status_name(status));
    push_str(&mut t, "/");
    push_str(&mut t, health_name(health));
    proof {
        assert(t@ =~= dot_title(id@, status, health));
    }
    HealthDot { color: instance_status_color(status, health), title: t }
}

/// Which runtime shims a deployment has enabled.
#[derive(Clone, Copy, Debug)]
pub struct ShimIcons {
    pub timezone: bool,
    pub dev_urandom: bool,
    pub dns: bool,
    pub signals: bool,
    pub database_proxy: bool,
}

/// A deployment's health check as the dashboard shows it.
#[derive(Debug)]
pub struct HealthConfigView {
    pub endpoint: String,
    pub interval: String,
    pub timeout: String,
    pub unhealthy_threshold: u32,
}

/// An alert on the overview page.
#[derive(Debug)]
pub struct AlertView {
    pub severity: &'static str,
    pub severity_color: &'static str,
    pub deployment: String,
    pub message: String,
}

/// The number of red dots (unhealthy instances) in a strip.
pub open spec fn red_dots(dots: Seq<HealthDot>) -> nat
    decreases dots.len(),
{
    if dots.len() == 0 {
        0
    } else {
        red_dots(dots.drop_last()) + if dots.last().color@ == "bg-rose-400"@ {
            1nat
        } else {
            0nat
        }
    }
}

/// The alert for a deployment with unhealthy instances: an error naming
/// how many; none when all dots are healthy.
pub fn unhealthy_alert(deployment_name: &str, dots: &Vec<HealthDot>) -> (res: Option<AlertView>)
    ensures
        red_dots(dots@) == 0 ==> res is None,
        red_dots(dots@) > 0 ==> (res matches Some(a) && a.severity@ == "Error"@
            && a.severity_color@ == "border-rose-400/50 bg-rose-500/10"@ && a.deployment@
            == deployment_name@ && a.message@ == dec(red_dots(dots@))
            + " unhealthy instance(s)"@),
{
    let mut count: u64 = 0;
    let mut i: usize = 0;
    while i < dots.len()
        invariant
            i <= dots@.len(),
            count == red_dots(dots@.take(i as int)),
            count <= i,
        decreases dots@.len() - i,
    {
        proof {
            assert(dots@.take(i + 1).drop_last() =~= dots@.take(i as int));
        }
        if crate::text::str_eq(dots[i].color, "bg-rose-400") {
            count = count + 1;
        }
        i = i + 1;
    }
    proof {
        assert(dots@.take(i as int) =~= dots@);
    }
    if count == 0 {
        return None;
    }
    let mut m = String::new();
    push_dec(&mut m, count);
    push_str(&mut m, " unhealthy instance(s)");
    Some(
        AlertView {
            severity: "Error",
            severity_color: "border-rose-400/50 bg-rose-500/10",
            deployment: to_owned_str(deployment_name),
            message: m,
        },
    )
}

/// The alert for a rollout that was rolled back: an error with its reason;
/// none for a rollout in any other phase.
pub fn rolled_back_alert(deployment_id: &str, phase: &PhaseView) -> (res: Option<AlertView>)
    ensures
        phase.phase_display@ != "Rolled Back"@ ==> res is None,
        phase.phase_display@ == "Rolled Back"@ ==> (res matches Some(a) && a.severity@ == "Error"@
            && a.severity_color@ == "border-rose-400/50 bg-rose-500/10"@ && a.deployment@
            == deployment_id@ && a.message@ == "Rollout rolled back: "@ + phase.progress_text@),
{
    if !crate::text::str_eq(phase.phase_display.as_str(), "Rolled Back") {
        return None;
    }
    Some(
        AlertView {
            severity: "Error",
            severity_color: "border-rose-400/50 bg-rose-500/10",
            deployment: to_owned_str(deployment_id),
            message: concat("Rollout rolled back: ", phase.progress_text.as_str()),
        },
    )
}

} // verus!
