//! The control plane's side of the cluster protocol: joining (with agent
//! token checks), heartbeats, leaving and listing the members.
//!
//! Cloud mode checks agent tokens against the agent token store and binds
//! each node to its token's namespace; self-hosted mode accepts every agent.

use vstd::prelude::*;
use crate::agent_tokens::AgentTokenStore;
use crate::cluster::{after_heartbeat, 
    describes, join_admission, labels_with_namespace, noop_validate_agent_token,
    protocol_status, to_protocol_status, JoinAdmission, Member, MembershipManager, NodeModel,
    NodeStatus,
};
use crate::strmap::StrMap;
use crate::sys::epoch_secs;
use crate::text::{hex_padded, to_owned_str};

verus! {

/// Checks the auth token an agent presents when it joins.
pub trait TokenValidator {
    /// The namespace a token binds an agent to, when the validator accepts
    /// the token.
    spec fn verdict(&self, raw_token: Seq<char>) -> Option<Seq<char>>;

    /// The token's id and namespace when the token is valid.
    fn validate_agent_token(&mut self, raw_token: &str) -> (res: Option<(String, String)>)
        ensures
            match old(self).verdict(raw_token@) {
                Some(ns) => res matches Some((_, n)) && n@ == ns,
                None => res is None,
            },
    ;
}

/// The validator of self-hosted clusters: every agent is accepted.
pub struct NoopTokenValidator;

impl TokenValidator for NoopTokenValidator {
    open spec fn verdict(&self, raw_token: Seq<char>) -> Option<Seq<char>> {
        Some(Seq::empty())
    }

    fn validate_agent_token(&mut self, raw_token: &str) -> (res: Option<(String, String)>)
        ensures
            res matches Some((id, ns)) && id@ == "unmanaged"@ && ns@.len() == 0,
    {
        noop_validate_agent_token(raw_token)
    }
}

impl TokenValidator for AgentTokenStore {
    /// A token is valid when it was issued and not revoked; it binds the
    /// agent to the token's namespace.
    open spec fn verdict(&self, raw_token: Seq<char>) -> Option<Seq<char>> {
        match self.token_for(raw_token) {
            Some(t) => if t.revoked {
                None
            } else {
                Some(t.namespace)
            },
            None => None,
        }
    }

    /// Its use is recorded.
    fn validate_agent_token(&mut self, raw_token: &str) -> (res: Option<(String, String)>)
        ensures
            final(self).ids() == old(self).ids(),
            old(self).token_for(raw_token@) is Some && !old(self).token_for(raw_token@).unwrap().revoked
                ==> (res matches Some((id, ns)) && id@ == old(self).token_for(raw_token@).unwrap().id
                && ns@ == old(self).token_for(raw_token@).unwrap().namespace),
            !(old(self).token_for(raw_token@) is Some && !old(self).token_for(
                raw_token@,
            ).unwrap().revoked) ==> res is None && final(self).tokens() == old(self).tokens(),
    {
        match self.validate(raw_token) {
            Some(v) => Some((v.token_id, v.namespace)),
            None => None,
        }
    }
}

/// A node's request to join.
pub struct JoinRequest {
    pub address: String,
    pub port: u32,
    pub labels: StrMap<String>,
    pub capacity_memory_bytes: u64,
    pub capacity_cpu_weight: u32,
    pub auth_token: String,
}

/// A member as the protocol reports it.
pub struct NodeMember {
    pub node_id: String,
    pub address: String,
    pub port: u32,
    pub status: NodeStatus,
    pub labels: StrMap<String>,
    pub capacity_memory_bytes: u64,
    pub capacity_cpu_weight: u32,
    pub used_memory_bytes: u64,
    pub used_cpu_weight: u32,
    pub last_heartbeat_epoch: u64,
}

/// The answer to a successful join.
pub struct JoinResponse {
    pub node_id: String,
    pub members: Vec<NodeMember>,
    pub heartbeat_interval_secs: u32,
    pub namespace: String,
}

/// A refused or failed request.
#[derive(Debug)]
pub enum ClusterError {
    /// The agent's token is missing, invalid or revoked.
    Unauthenticated(String),
    /// The control plane could not serve the request.
    Internal(String),
}

/// The label values of a map of labels.
pub open spec fn label_views(m: Map<Seq<char>, String>) -> Map<Seq<char>, Seq<char>> {
    m.map_values(|v: String| v@)
}

/// The labels a node is filed with: its own, and its namespace under
/// `namespace` when it has one.
pub open spec fn filed_labels(labels: Map<Seq<char>, Seq<char>>, namespace: Seq<char>) -> Map<Seq<char>, Seq<char>> {
    if namespace.len() == 0 {
        labels
    } else {
        labels.insert("namespace"@, namespace)
    }
}

/// `p` reports member `m` in the protocol's terms.
pub open spec fn reports(p: NodeMember, m: Member) -> bool {
    &&& p.node_id@ == m.node_id@
    &&& p.address@ == m.address@
    &&& p.port == m.port as u32
    &&& p.status == protocol_status(m.status)
    &&& p.labels@ == m.labels@
    &&& p.capacity_memory_bytes == m.capacity_memory_bytes
    &&& p.capacity_cpu_weight == m.capacity_cpu_weight
    &&& p.used_memory_bytes == m.used_memory_bytes
    &&& p.used_cpu_weight == m.used_cpu_weight
    &&& p.last_heartbeat_epoch == m.last_heartbeat
}

/// `ps` lists the nodes of `nodes`, each once, as they stand at time `now`.
pub open spec fn lists_nodes(ps: Seq<NodeMember>, nodes: Map<Seq<char>, NodeModel>, now: u64, timeout: u64) -> bool {
    &&& ps.len() == nodes.len()
    &&& forall|i: int|
        0 <= i < ps.len() ==> nodes.contains_key((#[trigger] ps[i]).node_id@) && exists|m: Member|
            describes(m, nodes[ps[i].node_id@], now, timeout) && reports(ps[i], m)
    &&& forall|k: Seq<char>| #[trigger]
        nodes.contains_key(k) ==> exists|i: int| 0 <= i < ps.len() && (#[trigger] ps[i]).node_id@ == k
    &&& forall|i: int, j: int|
        0 <= i < j < ps.len() ==> (#[trigger] ps[i]).node_id@ != (#[trigger] ps[j]).node_id@
}

/// A member in the protocol's terms.
pub fn node_member(m: &Member) -> (res: NodeMember)
    requires
        m.labels.wf(),
    ensures
        reports(res, *m),
        res.labels.wf(),
{
    NodeMember {
        node_id: m.node_id.clone(),
        address: m.address.clone(),
        port: m.port as u32,
        status: to_protocol_status(m.status),
        labels: m.labels.clone_strings(),
        capacity_memory_bytes: m.capacity_memory_bytes,
        capacity_cpu_weight: m.capacity_cpu_weight,
        used_memory_bytes: m.used_memory_bytes,
        used_cpu_weight: m.used_cpu_weight,
        last_heartbeat_epoch: m.last_heartbeat,
    }
}

/// The members of `membership` at time `now`, in the protocol's terms.
fn protocol_members(membership: &MembershipManager, now: u64) -> (res: Vec<NodeMember>)
    requires
        membership.seen_by(now),
    ensures
        lists_nodes(res@, membership.nodes(), now, membership.dead_timeout()),
{
    let members = membership.list_members(now);
    let ghost nodes = membership.nodes();
    let ghost timeout = membership.dead_timeout();
    let mut out: Vec<NodeMember> = Vec::new();
    let mut i: usize = 0;
    while i < members.len()
        invariant
            i <= members@.len(),
            out@.len() == i,
            forall|a: int|
                0 <= a < members@.len() ==> describes(
                    #[trigger] members@[a],
                    nodes[members@[a].node_id@],
                    now,
                    timeout,
                ),
            forall|a: int| 0 <= a < i ==> reports(#[trigger] out@[a], members@[a]),
        decreases members@.len() - i,
    {
        let p = node_member(&members[i]);
        out.push(p);
        i = i + 1;
    }
    proof {
        assert forall|a: int| 0 <= a < out@.len() implies nodes.contains_key(
            (#[trigger] out@[a]).node_id@,
        ) && exists|m: Member| describes(m, nodes[out@[a].node_id@], now, timeout) && reports(out@[a], m) by {
            assert(reports(out@[a], members@[a]));
            assert(describes(members@[a], nodes[members@[a].node_id@], now, timeout));
        }
        assert forall|k: Seq<char>| #[trigger] nodes.contains_key(k) implies exists|a: int|
            0 <= a < out@.len() && (#[trigger] out@[a]).node_id@ == k by {
            let a = choose|a: int| 0 <= a < members@.len() && (#[trigger] members@[a]).node_id@ == k;
            assert(reports(out@[a], members@[a]));
        }
        assert forall|a: int, b: int| 0 <= a < b < out@.len() implies (#[trigger] out@[a]).node_id@
            != (#[trigger] out@[b]).node_id@ by {
            assert(reports(out@[a], members@[a]));
            assert(reports(out@[b], members@[b]));
        }
    }
    out
}

/// How a join is admitted, given the presented token, whether the cluster
/// requires tokens and the validator's verdict on the token: the namespace
/// the node is bound to (none without a token), or the refusal's message.
pub open spec fn admission(token: Seq<char>, requires_auth: bool, verdict: Option<Seq<char>>) -> Result<
    Seq<char>,
    Seq<char>,
> {
    if token.len() > 0 {
        match verdict {
            Some(ns) => Ok(ns),
            None => Err("invalid or revoked agent token"@),
        }
    } else if requires_auth {
        Err("auth_token is required to join this cluster"@)
    } else {
        Ok(Seq::empty())
    }
}

/// A join answered with `r` took the membership from `before` to `after`
/// at time `now`: the node is filed under a fresh `node-` id with the
/// request's address, port and capacities, no usage, its labels and
/// namespace, and heard from now; the answer lists all members as they
/// stand after the join, with the heartbeat interval.
pub open spec fn join_recorded(
    before: Map<Seq<char>, NodeModel>,
    after: Map<Seq<char>, NodeModel>,
    timeout: u64,
    interval: u64,
    req: JoinRequest,
    r: JoinResponse,
    now: u64,
) -> bool {
    &&& exists|h: u32| r.node_id@ == "node-"@ + hex_padded(h as nat, 8)
    &&& after == before.insert(
        r.node_id@,
        NodeModel {
            id: r.node_id@,
            address: req.address@,
            port: req.port as u16,
            capacity_memory_bytes: req.capacity_memory_bytes,
            capacity_cpu_weight: req.capacity_cpu_weight,
            used_memory_bytes: 0,
            used_cpu_weight: 0,
            labels: after[r.node_id@].labels,
            last_heartbeat: now,
        },
    )
    &&& label_views(after[r.node_id@].labels) == filed_labels(label_views(req.labels@), r.namespace@)
    &&& lists_nodes(r.members@, after, now, timeout)
    &&& r.heartbeat_interval_secs == interval as u32
}

/// A join answered with `r` took the membership from `before` to `after`
/// at some time, as `join_recorded` states.
pub open spec fn recorded_at_some_time(
    before: Map<Seq<char>, NodeModel>,
    after: Map<Seq<char>, NodeModel>,
    timeout: u64,
    interval: u64,
    req: JoinRequest,
    r: JoinResponse,
) -> bool {
    exists|now: u64| #[trigger] join_recorded(before, after, timeout, interval, req, r, now)
}

/// The control plane's cluster service.
pub struct ClusterServer<V: TokenValidator> {
    membership: MembershipManager,
    token_validator: V,
    require_auth: bool,
}

impl ClusterServer<NoopTokenValidator> {
    /// A server that accepts every agent (self-hosted mode).
    pub fn new(membership: MembershipManager) -> (res: Self)
        ensures
            res.nodes() == membership.nodes(),
            res.dead_timeout() == membership.dead_timeout(),
            res.interval() == membership.interval(),
            !res.requires_auth(),
    {
        ClusterServer { membership, token_validator: NoopTokenValidator, require_auth: false }
    }
}

impl<V: TokenValidator> ClusterServer<V> {
    /// The cluster's nodes.
    pub closed spec fn nodes(&self) -> Map<Seq<char>, NodeModel> {
        self.membership.nodes()
    }

    /// Seconds without heartbeat after which a node is dead.
    pub closed spec fn dead_timeout(&self) -> u64 {
        self.membership.dead_timeout()
    }

    /// The heartbeat interval agents are told to use.
    pub closed spec fn interval(&self) -> u64 {
        self.membership.interval()
    }

    /// Whether agents must present a valid token to join.
    pub closed spec fn requires_auth(&self) -> bool {
        self.require_auth
    }

    /// The token validator.
    pub closed spec fn validator(&self) -> V {
        self.token_validator
    }

    /// A server that requires agents to present a token that `validator`
    /// accepts (cloud mode).
    pub fn with_auth(membership: MembershipManager, validator: V) -> (res: Self)
        ensures
            res.nodes() == membership.nodes(),
            res.dead_timeout() == membership.dead_timeout(),
            res.interval() == membership.interval(),
            res.requires_auth(),
    {
        ClusterServer { membership, token_validator: validator, require_auth: true }
    }

    /// The membership the server keeps.
    pub fn membership(&self) -> (res: &MembershipManager)
        ensures
            res.nodes() == self.nodes(),
            res.dead_timeout() == self.dead_timeout(),
            res.interval() == self.interval(),
    {
        &self.membership
    }

    /// The admission of a join: a presented token must be accepted by the
    /// validator and gives the node's namespace; without a token the node
    /// joins with no namespace, unless the cluster requires tokens.
    fn check_admission(&mut self, auth_token: &str) -> (res: Result<String, ClusterError>)
        ensures
            final(self).nodes() == old(self).nodes(),
            final(self).dead_timeout() == old(self).dead_timeout(),
            final(self).interval() == old(self).interval(),
            final(self).requires_auth() == old(self).requires_auth(),
            admission(auth_token@, old(self).requires_auth(), old(self).validator().verdict(auth_token@)) == match res {
                Ok(ns) => Ok(ns@),
                Err(ClusterError::Unauthenticated(m)) => Err(m@),
                Err(ClusterError::Internal(m)) => Err("internal"@ + m@),
            },
            !(res matches Err(ClusterError::Internal(_))),
    {
        match join_admission(auth_token, self.require_auth) {
            JoinAdmission::ValidateToken => {
                match self.token_validator.validate_agent_token(auth_token) {
                    Some((_token_id, ns)) => Ok(ns),
                    None => Err(
                        ClusterError::Unauthenticated(to_owned_str("invalid or revoked agent token")),
                    ),
                }
            },
            JoinAdmission::Rejected(m) => Err(ClusterError::Unauthenticated(m)),
            JoinAdmission::Unmanaged => Ok(String::new()),
        }
    }

    /// Files an admitted node, bound to `namespace`, at time `now`.
    fn join_admitted_at(&mut self, req: JoinRequest, namespace: String, now: u64) -> (r: JoinResponse)
        requires
            req.labels.wf(),
            old(self).nodes().dom().all(|k: Seq<char>| old(self).nodes()[k].last_heartbeat <= now),
        ensures
            final(self).dead_timeout() == old(self).dead_timeout(),
            final(self).interval() == old(self).interval(),
            final(self).requires_auth() == old(self).requires_auth(),
            r.namespace@ == namespace@,
            join_recorded(old(self).nodes(), final(self).nodes(), final(self).dead_timeout(), old(self).interval(), req, r, now),
    {
        let ghost req_labels = req.labels@;
        let labels = labels_with_namespace(req.labels, namespace.as_str());
        proof {
            assert(label_views(labels@) =~= filed_labels(label_views(req_labels), namespace@));
        }
        let ghost before = self.membership.nodes();
        let node_id = self.membership.join_at(
            req.address.as_str(),
            req.port as u16,
            labels,
            req.capacity_memory_bytes,
            req.capacity_cpu_weight,
            now,
        );
        proof {
            assert(self.membership.seen_by(now)) by {
                assert forall|k: Seq<char>| #[trigger]
                    self.membership.nodes().contains_key(k) implies self.membership.nodes()[k].last_heartbeat
                    <= now by {
                    if k != node_id@ {
                        assert(before.contains_key(k));
                        assert(before.dom().contains(k));
                    }
                }
            }
        }
        let members = protocol_members(&self.membership, now);
        JoinResponse {
            node_id,
            members,
            heartbeat_interval_secs: self.membership.heartbeat_interval_secs(),
            namespace,
        }
    }

    /// Handles a join at time `now`. A presented token must be accepted by
    /// the validator, and binds the node to the token's namespace, which is
    /// added to its labels; without a token the node joins with no
    /// namespace, unless the cluster requires tokens. The answer holds the
    /// node's id, all members as they stand after the join, and the
    /// heartbeat interval.
    pub fn join_at(&mut self, req: JoinRequest, now: u64) -> (res: Result<JoinResponse, ClusterError>)
        requires
            req.labels.wf(),
            old(self).nodes().dom().all(|k: Seq<char>| old(self).nodes()[k].last_heartbeat <= now),
        ensures
            final(self).dead_timeout() == old(self).dead_timeout(),
            final(self).interval() == old(self).interval(),
            final(self).requires_auth() == old(self).requires_auth(),
            match admission(req.auth_token@, old(self).requires_auth(), old(self).validator().verdict(req.auth_token@)) {
                Err(m) => res matches Err(ClusterError::Unauthenticated(e)) && e@ == m,
                Ok(ns) => res matches Ok(r) && r.namespace@ == ns,
            },
            match res {
                Err(_) => final(self).nodes() == old(self).nodes(),
                Ok(r) => join_recorded(old(self).nodes(), final(self).nodes(), final(self).dead_timeout(), old(self).interval(), req, r, now),
            },
    {
        let namespace = match self.check_admission(req.auth_token.as_str()) {
            Ok(ns) => ns,
            Err(e) => {
                return Err(e);
            },
        };
        Ok(self.join_admitted_at(req, namespace, now))
    }

    /// Handles a join now: the token is checked first, as `join_at` does;
    /// an admitted node fails (`Internal`), changing nothing, when the clock
    /// reads earlier than a node's last heartbeat, which cannot happen while
    /// no node has a heartbeat after the epoch.
    pub fn join(&mut self, req: JoinRequest) -> (res: Result<JoinResponse, ClusterError>)
        requires
            req.labels.wf(),
        ensures
            final(self).dead_timeout() == old(self).dead_timeout(),
            final(self).interval() == old(self).interval(),
            final(self).requires_auth() == old(self).requires_auth(),
            match admission(req.auth_token@, old(self).requires_auth(), old(self).validator().verdict(req.auth_token@)) {
                Err(m) => res matches Err(ClusterError::Unauthenticated(e)) && e@ == m,
                Ok(ns) => (res matches Ok(r) && r.namespace@ == ns) || res matches Err(
                    ClusterError::Internal(_),
                ),
            },
            res matches Err(ClusterError::Internal(m)) ==> m@ == "clock is behind the last heartbeat"@
                && exists|k: Seq<char>|
                #[trigger] old(self).nodes().contains_key(k) && old(self).nodes()[k].last_heartbeat > 0,
            (forall|k: Seq<char>| #[trigger]
                old(self).nodes().contains_key(k) ==> old(self).nodes()[k].last_heartbeat == 0) ==> !(res matches Err(
                ClusterError::Internal(_),
            )),
            match res {
                Err(_) => final(self).nodes() == old(self).nodes(),
                Ok(r) => recorded_at_some_time(old(self).nodes(), final(self).nodes(), final(self).dead_timeout(), old(self).interval(), req, r),
            },
    {
        let namespace = match self.check_admission(req.auth_token.as_str()) {
            Ok(ns) => ns,
            Err(e) => {
                assert(self.nodes() == old(self).nodes());
                return Err(e);
            },
        };
        let now = epoch_secs();
        if !self.membership.heard_from_all_by(now) {
            proof {
                let k = choose|k: Seq<char>|
                    !(self.membership.nodes().contains_key(k) ==> self.membership.nodes()[k].last_heartbeat
                        <= now);
                assert(self.nodes().contains_key(k) && self.nodes()[k].last_heartbeat > 0);
            }
            let m = to_owned_str("clock is behind the last heartbeat");
            assert(self.nodes() == old(self).nodes());
            return Err(ClusterError::Internal(m));
        }
        proof {
            assert(self.nodes().dom().all(|k: Seq<char>| self.nodes()[k].last_heartbeat <= now)) by {
                assert forall|k: Seq<char>| self.nodes().dom().contains(k) implies self.nodes()[k].last_heartbeat
                    <= now by {
                    assert(self.membership.nodes().contains_key(k));
                }
            }
        }
        let ghost req0 = req;
        let r = self.join_admitted_at(req, namespace, now);
        proof {
            assert(join_recorded(
                old(self).nodes(),
                self.nodes(),
                self.dead_timeout(),
                old(self).interval(),
                req0,
                r,
                now,
            ));
            assert(recorded_at_some_time(old(self).nodes(), self.nodes(), self.dead_timeout(), old(self).interval(), req0, r));
        }
        Ok(r)
    }

    /// Records a heartbeat now: the node keeps its address, port, labels and
    /// capacities, takes the new usage figures and was last heard from at
    /// the clock's reading; false, changing nothing, for an unknown node.
    pub fn heartbeat(&mut self, node_id: &str, used_memory_bytes: u64, used_cpu_weight: u32) -> (res: bool)
        ensures
            res == old(self).nodes().contains_key(node_id@),
            !res ==> final(self).nodes() == old(self).nodes(),
            res ==> final(self).nodes().dom() == old(self).nodes().dom(),
            res ==> final(self).nodes()[node_id@].used_memory_bytes == used_memory_bytes
                && final(self).nodes()[node_id@].used_cpu_weight == used_cpu_weight,
            res ==> exists|now: u64|
                #[trigger] after_heartbeat(old(self).nodes(), node_id@, used_memory_bytes, used_cpu_weight, now)
                    == final(self).nodes(),
            final(self).requires_auth() == old(self).requires_auth(),
            final(self).dead_timeout() == old(self).dead_timeout(),
            final(self).interval() == old(self).interval(),
    {
        self.membership.heartbeat(node_id, used_memory_bytes, used_cpu_weight)
    }

    /// Removes a node; returns whether it was there.
    pub fn leave(&mut self, node_id: &str) -> (res: bool)
        ensures
            res == old(self).nodes().contains_key(node_id@),
            final(self).nodes() == old(self).nodes().remove(node_id@),
            final(self).dead_timeout() == old(self).dead_timeout(),
            final(self).interval() == old(self).interval(),
            final(self).requires_auth() == old(self).requires_auth(),
    {
        self.membership.leave(node_id)
    }

    /// All members as they stand at time `now`.
    pub fn get_members_at(&self, now: u64) -> (res: Vec<NodeMember>)
        requires
            self.nodes().dom().all(|k: Seq<char>| self.nodes()[k].last_heartbeat <= now),
        ensures
            lists_nodes(res@, self.nodes(), now, self.dead_timeout()),
    {
        proof {
            assert(self.membership.seen_by(now)) by {
                assert forall|k: Seq<char>| #[trigger] self.membership.nodes().contains_key(k) implies self.membership.nodes()[k].last_heartbeat
                    <= now by {
                    assert(self.nodes().dom().contains(k));
                }
            }
        }
        protocol_members(&self.membership, now)
    }

    /// All members as they stand now; `Internal` when the clock reads
    /// earlier than a node's last heartbeat, which cannot happen while no
    /// node has a heartbeat after the epoch.
    pub fn get_members(&self) -> (res: Result<Vec<NodeMember>, ClusterError>)
        ensures
            res is Ok ==> exists|now: u64| #[trigger] lists_nodes(res->Ok_0@, self.nodes(), now, self.dead_timeout()),
            res matches Err(e) ==> (e matches ClusterError::Internal(m) && m@
                == "clock is behind the last heartbeat"@) && exists|k: Seq<char>|
                #[trigger] self.nodes().contains_key(k) && self.nodes()[k].last_heartbeat > 0,
            (forall|k: Seq<char>| #[trigger]
                self.nodes().contains_key(k) ==> self.nodes()[k].last_heartbeat == 0) ==> res is Ok,
    {
        let now = epoch_secs();
        if !self.membership.heard_from_all_by(now) {
            proof {
                let k = choose|k: Seq<char>|
                    !(self.membership.nodes().contains_key(k) ==> self.membership.nodes()[k].last_heartbeat
                        <= now);
                assert(self.nodes().contains_key(k) && self.nodes()[k].last_heartbeat > 0);
            }
            let m = to_owned_str("clock is behind the last heartbeat");
            return Err(ClusterError::Internal(m));
        }
        let ms = protocol_members(&self.membership, now);
        assert(lists_nodes(ms@, self.nodes(), now, self.dead_timeout()));
        assert(exists|n: u64| #[trigger] lists_nodes(ms@, self.nodes(), n, self.dead_timeout()));
        let res: Result<Vec<NodeMember>, ClusterError> = Ok(ms);
        assert(res->Ok_0@ == ms@);
        res
    }
}

/// In cloud mode a revoked agent token never lets a node join, and an unknown
/// one neither: the agent token store accepts exactly the issued tokens
/// that were not revoked, binding the agent to the token's namespace.
pub proof fn law_only_live_tokens_join(tokens: AgentTokenStore, raw: Seq<char>)
    ensures
        tokens.token_for(raw) is None ==> tokens.verdict(raw) is None,
        tokens.token_for(raw) matches Some(t) && t.revoked ==> tokens.verdict(raw) is None,
        tokens.token_for(raw) is Some && !tokens.token_for(raw).unwrap().revoked ==> tokens.verdict(
            raw,
        ) == Some(tokens.token_for(raw).unwrap().namespace),
{
}

/// In self-hosted mode every agent may join, with no namespace.
pub proof fn law_self_hosted_accepts_all(v: NoopTokenValidator, raw: Seq<char>)
    ensures
        v.verdict(raw) == Some(Seq::<char>::empty()),
{
}

/// A join is refused exactly when a presented token is not accepted, or
/// no token is presented to a cluster that requires one; a refused join
/// leaves the members as they were (see `join_at` and `join`).
pub proof fn law_join_refusals(token: Seq<char>, requires_auth: bool, verdict: Option<Seq<char>>)
    ensures
        admission(token, requires_auth, verdict) is Err <==> ((token.len() > 0 && verdict is None) || (
        token.len() == 0 && requires_auth)),
        admission(token, requires_auth, verdict) matches Ok(ns) ==> (token.len() == 0 ==> ns.len()
            == 0) && (token.len() > 0 ==> verdict == Some(ns)),
{
}

} // verus!
