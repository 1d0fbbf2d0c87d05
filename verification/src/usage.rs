//! Usage metering: per-team request and egress counters for the current
//! billing period.
//!
//! Each team's counters start with its first recorded use; a snapshot
//! reports them and starts a new period. Compute time is metered in
//! fractional seconds next to these counters, by the caller.

use vstd::prelude::*;
use crate::strmap::StrMap;
use crate::sys::epoch_secs;
use crate::text::to_owned_str;

verus! {

/// A team's counters for the current period.
#[derive(Clone, Copy, Debug, PartialEq, Eq, Structural)]
pub struct TeamCounters {
    pub period_start: u64,
    pub request_count: u64,
    pub egress_bytes: u64,
}

/// The counters a team has, none recorded yet counting as zero from
/// `start`.
pub open spec fn counters_or(m: Map<Seq<char>, TeamCounters>, team: Seq<char>, start: u64) -> TeamCounters {
    if m.contains_key(team) {
        m[team]
    } else {
        TeamCounters { period_start: start, request_count: 0, egress_bytes: 0 }
    }
}

/// The counters after one more request of `team`; a team's first use
/// starts its period at `start`.
pub open spec fn after_request(m: Map<Seq<char>, TeamCounters>, team: Seq<char>, start: u64) -> Map<Seq<char>, TeamCounters> {
    let c = counters_or(m, team, start);
    m.insert(team, TeamCounters { request_count: (c.request_count + 1) as u64, ..c })
}

/// The counters after `bytes` more egress of `team`.
pub open spec fn after_egress(m: Map<Seq<char>, TeamCounters>, team: Seq<char>, bytes: u64, start: u64) -> Map<Seq<char>, TeamCounters> {
    let c = counters_or(m, team, start);
    m.insert(team, TeamCounters { egress_bytes: (c.egress_bytes + bytes) as u64, ..c })
}

/// The counters after compute time of `team`: the team's period starts if
/// it had none (the seconds themselves are metered by the caller).
pub open spec fn after_compute(m: Map<Seq<char>, TeamCounters>, team: Seq<char>, start: u64) -> Map<Seq<char>, TeamCounters> {
    m.insert(team, counters_or(m, team, start))
}

/// The request count and egress bytes a team has on record: zero for a
/// team with no recorded use.
pub open spec fn usage_of(m: Map<Seq<char>, TeamCounters>, team: Seq<char>) -> (u64, u64) {
    if m.contains_key(team) {
        (m[team].request_count, m[team].egress_bytes)
    } else {
        (0, 0)
    }
}

/// A team's usage over a period.
#[derive(Debug)]
pub struct UsageCounts {
    pub team_id: String,
    pub period_start: u64,
    pub period_end: u64,
    pub egress_bytes: u64,
    pub storage_bytes: u64,
    pub request_count: u64,
}

/// Per-team usage counters.
pub struct UsageTracker {
    counters: StrMap<TeamCounters>,
}

impl UsageTracker {
    #[verifier::type_invariant]
    closed spec fn inv(self) -> bool {
        self.counters.wf()
    }

    /// The counters of each team with recorded use in its current period.
    pub closed spec fn teams(&self) -> Map<Seq<char>, TeamCounters> {
        self.counters@
    }

    /// A tracker with no counters.
    pub fn new() -> (res: Self)
        ensures
            res.teams() == Map::<Seq<char>, TeamCounters>::empty(),
    {
        UsageTracker { counters: StrMap::new() }
    }

    fn put(&mut self, team_id: &str, c: TeamCounters)
        ensures
            final(self).teams() == old(self).teams().insert(team_id@, c),
    {
        proof {
            use_type_invariant(&*self);
        }
        let mut m = StrMap::new();
        std::mem::swap(&mut m, &mut self.counters);
        m.insert(to_owned_str(team_id), c);
        self.counters = m;
    }

    fn current(&self, team_id: &str) -> (res: TeamCounters)
        ensures
            res == counters_or(self.teams(), team_id@, res.period_start),
            self.teams().contains_key(team_id@) ==> res == self.teams()[team_id@],
    {
        proof {
            use_type_invariant(self);
        }
        match self.counters.get(team_id) {
            Some(c) => *c,
            None => {
                let now = epoch_secs();
                let c = TeamCounters { period_start: now, request_count: 0, egress_bytes: 0 };
                assert(c == counters_or(self.teams(), team_id@, now));
                c
            },
        }
    }

    /// Records an HTTP request of a team's deployment. A team's first use
    /// starts its period at the current time.
    pub fn record_request(&mut self, team_id: &str, _deployment_id: &str, _latency_ms: u64)
        requires
            old(self).teams().contains_key(team_id@) ==> old(self).teams()[team_id@].request_count
                < u64::MAX,
        ensures
            final(self).teams() == after_request(
                old(self).teams(),
                team_id@,
                final(self).teams()[team_id@].period_start,
            ),
            usage_of(final(self).teams(), team_id@).0 == usage_of(old(self).teams(), team_id@).0 + 1,
            usage_of(final(self).teams(), team_id@).1 == usage_of(old(self).teams(), team_id@).1,
    {
        let c = self.current(team_id);
        let ghost start = c.period_start;
        self.put(team_id, TeamCounters { request_count: c.request_count + 1, ..c });
        proof {
            assert(self.teams() =~= after_request(old(self).teams(), team_id@, start));
        }
    }

    /// Records egress bytes of a team.
    pub fn record_egress(&mut self, team_id: &str, bytes: u64)
        requires
            old(self).teams().contains_key(team_id@) ==> old(self).teams()[team_id@].egress_bytes
                + bytes <= u64::MAX,
        ensures
            final(self).teams() == after_egress(
                old(self).teams(),
                team_id@,
                bytes,
                final(self).teams()[team_id@].period_start,
            ),
            usage_of(final(self).teams(), team_id@).1 == usage_of(old(self).teams(), team_id@).1
                + bytes,
            usage_of(final(self).teams(), team_id@).0 == usage_of(old(self).teams(), team_id@).0,
    {
        let c = self.current(team_id);
        let ghost start = c.period_start;
        self.put(team_id, TeamCounters { egress_bytes: c.egress_bytes + bytes, ..c });
        proof {
            assert(self.teams() =~= after_egress(old(self).teams(), team_id@, bytes, start));
        }
    }

    /// Notes compute time of a team: the team's period starts if it had none.
    pub fn record_compute(&mut self, team_id: &str)
        ensures
            final(self).teams() == after_compute(
                old(self).teams(),
                team_id@,
                final(self).teams()[team_id@].period_start,
            ),
    {
        let c = self.current(team_id);
        let ghost start = c.period_start;
        self.put(team_id, c);
        proof {
            assert(self.teams() =~= after_compute(old(self).teams(), team_id@, start));
        }
    }

    /// The usage of a team's current period up to now, without resetting
    /// it; a team without recorded use has an empty period that starts and
    /// ends now.
    pub fn peek(&self, team_id: &str) -> (res: UsageCounts)
        ensures
            res.team_id@ == team_id@,
            res.storage_bytes == 0,
            self.teams().contains_key(team_id@) ==> res.period_start
                == self.teams()[team_id@].period_start && res.request_count
                == self.teams()[team_id@].request_count && res.egress_bytes
                == self.teams()[team_id@].egress_bytes,
            !self.teams().contains_key(team_id@) ==> res.period_start == res.period_end
                && res.request_count == 0 && res.egress_bytes == 0,
            (res.request_count, res.egress_bytes) == usage_of(self.teams(), team_id@),
    {
        proof {
            use_type_invariant(self);
        }
        let now = epoch_secs();
        match self.counters.get(team_id) {
            Some(c) => UsageCounts {
                team_id: to_owned_str(team_id),
                period_start: c.period_start,
                period_end: now,
                egress_bytes: c.egress_bytes,
                storage_bytes: 0,
                request_count: c.request_count,
            },
            None => UsageCounts {
                team_id: to_owned_str(team_id),
                period_start: now,
                period_end: now,
                egress_bytes: 0,
                storage_bytes: 0,
                request_count: 0,
            },
        }
    }

    /// The usage of a team's current period, which ends: its counters are
    /// dropped so that its next use starts a new period.
    pub fn snapshot(&mut self, team_id: &str) -> (res: UsageCounts)
        ensures
            res.team_id@ == team_id@,
            res.storage_bytes == 0,
            old(self).teams().contains_key(team_id@) ==> res.period_start == old(
                self,
            ).teams()[team_id@].period_start && res.request_count == old(
                self,
            ).teams()[team_id@].request_count && res.egress_bytes == old(
                self,
            ).teams()[team_id@].egress_bytes,
            !old(self).teams().contains_key(team_id@) ==> res.period_start == res.period_end
                && res.request_count == 0 && res.egress_bytes == 0,
            final(self).teams() == old(self).teams().remove(team_id@),
            (res.request_count, res.egress_bytes) == usage_of(old(self).teams(), team_id@),
    {
        let res = self.peek(team_id);
        proof {
            use_type_invariant(&*self);
        }
        let mut m = StrMap::new();
        std::mem::swap(&mut m, &mut self.counters);
        m.remove(team_id);
        self.counters = m;
        res
    }
}

/// Teams are metered apart: recording a request, egress or compute time of
/// one team, or taking its snapshot, leaves every other team's counters as
/// they were.
pub proof fn law_teams_isolated(
    m: Map<Seq<char>, TeamCounters>,
    team: Seq<char>,
    other: Seq<char>,
    bytes: u64,
    start: u64,
)
    requires
        team != other,
    ensures
        counters_or(after_request(m, team, start), other, start) == counters_or(m, other, start),
        counters_or(after_egress(m, team, bytes, start), other, start) == counters_or(m, other, start),
        counters_or(after_compute(m, team, start), other, start) == counters_or(m, other, start),
        counters_or(m.remove(team), other, start) == counters_or(m, other, start),
{
}

/// Every request is counted once and every byte of egress once, within
/// the same period: recording keeps the period's start and adds exactly
/// what was recorded.
pub proof fn law_records_accumulate(
    m: Map<Seq<char>, TeamCounters>,
    team: Seq<char>,
    bytes: u64,
    start: u64,
)
    requires
        m.contains_key(team),
        m[team].request_count < u64::MAX,
        m[team].egress_bytes + bytes <= u64::MAX,
    ensures
        after_request(m, team, start)[team].request_count == m[team].request_count + 1,
        after_request(m, team, start)[team].period_start == m[team].period_start,
        after_egress(m, team, bytes, start)[team].egress_bytes == m[team].egress_bytes + bytes,
        after_egress(m, team, bytes, start)[team].period_start == m[team].period_start,
{
}

/// Recording adds exactly what was recorded, also for a team with no
/// counters yet (on a fresh tracker or right after a snapshot): one more
/// request, `bytes` more egress; neither changes the other count, and a
/// team's first use starts its period at `start`.
pub proof fn law_recording_adds_exactly(
    m: Map<Seq<char>, TeamCounters>,
    team: Seq<char>,
    bytes: u64,
    start: u64,
)
    requires
        m.contains_key(team) ==> m[team].request_count < u64::MAX && m[team].egress_bytes + bytes
            <= u64::MAX,
    ensures
        usage_of(after_request(m, team, start), team).0 == usage_of(m, team).0 + 1,
        usage_of(after_request(m, team, start), team).1 == usage_of(m, team).1,
        usage_of(after_egress(m, team, bytes, start), team).1 == usage_of(m, team).1 + bytes,
        usage_of(after_egress(m, team, bytes, start), team).0 == usage_of(m, team).0,
        usage_of(after_compute(m, team, start), team) == usage_of(m, team),
        !m.contains_key(team) ==> after_request(m, team, start)[team].period_start == start
            && after_egress(m, team, bytes, start)[team].period_start == start
            && after_compute(m, team, start)[team].period_start == start,
        !m.contains_key(team) ==> usage_of(after_egress(m, team, bytes, start), team) == (
            0u64,
            bytes,
        ),
{
}

/// A snapshot resets the team's counters: afterwards the team has no
/// recorded use, and its next request starts a new period with a count of
/// one.
pub proof fn law_snapshot_resets(m: Map<Seq<char>, TeamCounters>, team: Seq<char>, start: u64)
    ensures
        !m.remove(team).contains_key(team),
        after_request(m.remove(team), team, start)[team] == (TeamCounters {
            period_start: start,
            request_count: 1,
            egress_bytes: 0,
        }),
{
}

/// Peeking reads the counters without touching them (it borrows the
/// tracker immutably), so a following snapshot reports the same counts;
/// after a snapshot the team peeks as zero; and recording for one team
/// never changes what another team peeks.
pub proof fn law_peek_reads_counters(
    m: Map<Seq<char>, TeamCounters>,
    team: Seq<char>,
    other: Seq<char>,
    bytes: u64,
    start: u64,
)
    ensures
        usage_of(m.remove(team), team) == (0u64, 0u64),
        team != other ==> usage_of(after_request(m, team, start), other) == usage_of(m, other),
        team != other ==> usage_of(after_egress(m, team, bytes, start), other) == usage_of(m, other),
        team != other ==> usage_of(after_compute(m, team, start), other) == usage_of(m, other),
{
}

} // verus!
