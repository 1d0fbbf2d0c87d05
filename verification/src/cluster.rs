//! Cluster membership: node records, heartbeat-based liveness, the control
//! plane's join decision, and the agent's side of joining.
//!
//! A node is Ready while its last heartbeat is at most the dead timeout
//! old, and Dead after that; dead nodes can be reaped.

use vstd::prelude::*;
use crate::cluster_server::JoinRequest;
use crate::strmap::StrMap;
use crate::sys::epoch_secs;
use std::hash::{Hash, Hasher};
use crate::text::{concat, hex_padded, push_hex_padded, push_str, to_owned_str};

verus! {

/// A certificate and its private key, both PEM-encoded, as the cluster's
/// mutual TLS uses them.
#[derive(Clone, Debug)]
pub struct CertKeyPair {
    /// PEM-encoded certificate.
    pub cert_pem: String,
    /// PEM-encoded private key.
    pub key_pem: String,
}

/// Status of a node in the cluster.
#[derive(Clone, Copy, Debug, PartialEq, Eq, Structural)]
pub enum MemberStatus {
    Joining,
    Ready,
    Draining,
    Left,
    Dead,
}

/// Status of a node as the cluster protocol reports it.
#[derive(Clone, Copy, Debug, PartialEq, Eq, Structural)]
pub enum NodeStatus {
    Unknown,
    Joining,
    Ready,
    Draining,
    Left,
}

/// The protocol status of a member status; a dead node is reported as
/// Unknown.
pub open spec fn protocol_status(s: MemberStatus) -> NodeStatus {
    match s {
        MemberStatus::Joining => NodeStatus::Joining,
        MemberStatus::Ready => NodeStatus::Ready,
        MemberStatus::Draining => NodeStatus::Draining,
        MemberStatus::Left => NodeStatus::Left,
        MemberStatus::Dead => NodeStatus::Unknown,
    }
}

/// The protocol status of a member status.
pub fn to_protocol_status(s: MemberStatus) -> (res: NodeStatus)
    ensures
        res == protocol_status(s),
{
    match s {
        MemberStatus::Joining => NodeStatus::Joining,
        MemberStatus::Ready => NodeStatus::Ready,
        MemberStatus::Draining => NodeStatus::Draining,
        MemberStatus::Left => NodeStatus::Left,
        MemberStatus::Dead => NodeStatus::Unknown,
    }
}

/// A node is dead when more than `timeout` seconds have passed since its
/// last heartbeat.
pub open spec fn liveness(now: u64, last_heartbeat: u64, timeout: u64) -> MemberStatus {
    if now - last_heartbeat > timeout {
        MemberStatus::Dead
    } else {
        MemberStatus::Ready
    }
}

/// A node is Ready at the moment it is heard from, and once Dead it stays
/// Dead until it is heard from again: liveness only decays with time.
pub proof fn law_liveness_decays(last_heartbeat: u64, now: u64, later: u64, timeout: u64)
    requires
        last_heartbeat <= now <= later,
    ensures
        liveness(now, now, timeout) == MemberStatus::Ready,
        liveness(now, last_heartbeat, timeout) == MemberStatus::Dead ==> liveness(
            later,
            last_heartbeat,
            timeout,
        ) == MemberStatus::Dead,
        liveness(later, last_heartbeat, timeout) == MemberStatus::Ready ==> liveness(
            now,
            last_heartbeat,
            timeout,
        ) == MemberStatus::Ready,
{
}

/// Liveness follows the configured dead timeout, whatever it is: a node
/// is Dead exactly when more than `timeout` seconds have passed since its
/// last heartbeat, and Ready otherwise; a longer timeout never turns a
/// Ready node Dead.
pub proof fn law_liveness_follows_timeout(now: u64, last_heartbeat: u64, timeout: u64, longer: u64)
    requires
        last_heartbeat <= now,
        timeout <= longer,
    ensures
        liveness(now, last_heartbeat, timeout) == MemberStatus::Dead <==> now - last_heartbeat
            > timeout,
        liveness(now, last_heartbeat, timeout) == MemberStatus::Ready <==> now - last_heartbeat
            <= timeout,
        liveness(now, last_heartbeat, timeout) == MemberStatus::Ready ==> liveness(
            now,
            last_heartbeat,
            longer,
        ) == MemberStatus::Ready,
{
}

/// The status of a node at time `now`.
pub fn member_status(now: u64, last_heartbeat: u64, dead_timeout_secs: u64) -> (res: MemberStatus)
    requires
        last_heartbeat <= now,
    ensures
        res == liveness(now, last_heartbeat, dead_timeout_secs),
        res == MemberStatus::Dead <==> now - last_heartbeat > dead_timeout_secs,
        res == MemberStatus::Ready <==> now - last_heartbeat <= dead_timeout_secs,
{
    if now - last_heartbeat > dead_timeout_secs {
        MemberStatus::Dead
    } else {
        MemberStatus::Ready
    }
}

/// A node as the control plane records it.
pub struct NodeInfo {
    pub id: String,
    pub address: String,
    pub port: u16,
    pub capacity_memory_bytes: u64,
    pub capacity_cpu_weight: u32,
    pub used_memory_bytes: u64,
    pub used_cpu_weight: u32,
    pub labels: StrMap<String>,
    pub last_heartbeat: u64,
}

/// A node with its status.
pub struct Member {
    pub node_id: String,
    pub address: String,
    pub port: u16,
    pub status: MemberStatus,
    pub labels: StrMap<String>,
    pub capacity_memory_bytes: u64,
    pub capacity_cpu_weight: u32,
    pub used_memory_bytes: u64,
    pub used_cpu_weight: u32,
    pub last_heartbeat: u64,
}

/// Abstract value of a node record.
pub struct NodeModel {
    pub id: Seq<char>,
    pub address: Seq<char>,
    pub port: u16,
    pub capacity_memory_bytes: u64,
    pub capacity_cpu_weight: u32,
    pub used_memory_bytes: u64,
    pub used_cpu_weight: u32,
    pub labels: Map<Seq<char>, String>,
    pub last_heartbeat: u64,
}

impl View for NodeInfo {
    type V = NodeModel;

    open spec fn view(&self) -> NodeModel {
        NodeModel {
            id: self.id@,
            address: self.address@,
            port: self.port,
            capacity_memory_bytes: self.capacity_memory_bytes,
            capacity_cpu_weight: self.capacity_cpu_weight,
            used_memory_bytes: self.used_memory_bytes,
            used_cpu_weight: self.used_cpu_weight,
            labels: self.labels@,
            last_heartbeat: self.last_heartbeat,
        }
    }
}

/// The nodes after a heartbeat of `id` at time `now`: the node keeps its
/// address, port, labels and capacities, takes the new usage figures and
/// was last heard from at `now`.
pub open spec fn after_heartbeat(
    nodes: Map<Seq<char>, NodeModel>,
    id: Seq<char>,
    used_memory_bytes: u64,
    used_cpu_weight: u32,
    now: u64,
) -> Map<Seq<char>, NodeModel> {
    nodes.insert(id, NodeModel { used_memory_bytes, used_cpu_weight, last_heartbeat: now, ..nodes[id] })
}

impl NodeInfo {
    fn copy(&self) -> (res: Self)
        requires
            self.labels.wf(),
        ensures
            res@ == self@,
            res.labels.wf(),
    {
        NodeInfo {
            id: self.id.clone(),
            address: self.address.clone(),
            port: self.port,
            capacity_memory_bytes: self.capacity_memory_bytes,
            capacity_cpu_weight: self.capacity_cpu_weight,
            used_memory_bytes: self.used_memory_bytes,
            used_cpu_weight: self.used_cpu_weight,
            labels: self.labels.clone_strings(),
            last_heartbeat: self.last_heartbeat,
        }
    }
}

/// A hash of a node's address, port and join time.
///
/// Trusted: hashes the three values with `std`'s `DefaultHasher` and keeps
/// the low 32 bits. Nothing is stated of the result.
#[verifier::external_body]
fn node_hash(address: &str, port: u16, now: u64) -> u32 {
    let mut hasher = std::collections::hash_map::DefaultHasher::new();
    address.hash(&mut hasher);
    port.hash(&mut hasher);
    now.hash(&mut hasher);
    hasher.finish() as u32
}

/// A node id: `node-` and eight hex digits of a hash of the node's address,
/// port and join time.
pub fn generate_node_id(address: &str, port: u16, now: u64) -> (res: String)
    ensures
        exists|h: u32| res@ == "node-"@ + hex_padded(h as nat, 8),
{
    let h = node_hash(address, port, now);
    let mut s = String::new();
    push_str(&mut s, "node-");
    push_hex_padded(&mut s, h as u64, 8);
    proof {
        assert(s@ =~= "node-"@ + hex_padded(h as nat, 8));
    }
    s
}

/// `m` reports node `n` as it stands at time `now`.
pub open spec fn describes(m: Member, n: NodeModel, now: u64, timeout: u64) -> bool {
    &&& m.node_id@ == n.id
    &&& m.address@ == n.address
    &&& m.port == n.port
    &&& m.status == liveness(now, n.last_heartbeat, timeout)
    &&& m.labels.wf()
    &&& m.labels@ == n.labels
    &&& m.capacity_memory_bytes == n.capacity_memory_bytes
    &&& m.capacity_cpu_weight == n.capacity_cpu_weight
    &&& m.used_memory_bytes == n.used_memory_bytes
    &&& m.used_cpu_weight == n.used_cpu_weight
    &&& m.last_heartbeat == n.last_heartbeat
}

/// Tracks the nodes of the cluster.
pub struct MembershipManager {
    nodes: StrMap<NodeInfo>,
    dead_timeout_secs: u64,
    heartbeat_interval_secs: u64,
}

impl MembershipManager {
    #[verifier::type_invariant]
    closed spec fn inv(self) -> bool {
        &&& self.nodes.wf()
        &&& forall|i: int|
            0 <= i < self.nodes.key_seq().len() ==> (#[trigger] self.nodes.val_seq()[i]).labels.wf()
                && self.nodes.val_seq()[i]@.id == self.nodes.key_seq()[i]
    }

    /// The nodes, by id.
    pub closed spec fn nodes(&self) -> Map<Seq<char>, NodeModel> {
        self.nodes@.map_values(|n: NodeInfo| n@)
    }

    /// Seconds without heartbeat after which a node is dead.
    pub closed spec fn dead_timeout(&self) -> u64 {
        self.dead_timeout_secs
    }

    /// The heartbeat interval agents are told to use, in seconds.
    pub closed spec fn interval(&self) -> u64 {
        self.heartbeat_interval_secs
    }

    /// Every node has been heard from no later than `now`.
    pub open spec fn seen_by(&self, now: u64) -> bool {
        forall|k: Seq<char>| #[trigger]
            self.nodes().contains_key(k) ==> self.nodes()[k].last_heartbeat <= now
    }

    proof fn lemma_node(&self, i: int)
        requires
            self.inv(),
            0 <= i < self.nodes.key_seq().len(),
        ensures
            self.nodes().contains_key(self.nodes.key_seq()[i]),
            self.nodes()[self.nodes.key_seq()[i]] == self.nodes.val_seq()[i]@,
            self.nodes.val_seq()[i].labels.wf(),
    {
        self.nodes.lemma_at(i);
    }

    /// A manager with no nodes, a 30 s dead timeout and a 5 s heartbeat
    /// interval.
    pub fn new() -> (res: Self)
        ensures
            res.nodes() == Map::<Seq<char>, NodeModel>::empty(),
            res.dead_timeout() == 30,
            res.interval() == 5,
    {
        let res = MembershipManager {
            nodes: StrMap::new(),
            dead_timeout_secs: 30,
            heartbeat_interval_secs: 5,
        };
        proof {
            assert(res.nodes() =~= Map::<Seq<char>, NodeModel>::empty());
        }
        res
    }

    /// The same manager with another dead timeout.
    pub fn with_dead_timeout(self, secs: u64) -> (res: Self)
        ensures
            res.nodes() == self.nodes(),
            res.dead_timeout() == secs,
            res.interval() == self.interval(),
    {
        proof {
            use_type_invariant(&self);
        }
        MembershipManager { dead_timeout_secs: secs, ..self }
    }

    /// The same manager with another heartbeat interval.
    pub fn with_heartbeat_interval(self, secs: u64) -> (res: Self)
        ensures
            res.nodes() == self.nodes(),
            res.dead_timeout() == self.dead_timeout(),
            res.interval() == secs,
    {
        proof {
            use_type_invariant(&self);
        }
        MembershipManager { heartbeat_interval_secs: secs, ..self }
    }

    /// The heartbeat interval in seconds, truncated to 32 bits.
    pub fn heartbeat_interval_secs(&self) -> (res: u32)
        ensures
            res == self.interval() as u32,
    {
        self.heartbeat_interval_secs as u32
    }

    /// Registers a node that joins at time `now`, with no resources in use,
    /// and returns its id. A node already filed under that id is replaced.
    pub fn join_at(
        &mut self,
        address: &str,
        port: u16,
        labels: StrMap<String>,
        capacity_memory_bytes: u64,
        capacity_cpu_weight: u32,
        now: u64,
    ) -> (res: String)
        requires
            labels.wf(),
        ensures
            exists|h: u32| res@ == "node-"@ + hex_padded(h as nat, 8),
            final(self).dead_timeout() == old(self).dead_timeout(),
            final(self).interval() == old(self).interval(),
            final(self).nodes() == old(self).nodes().insert(
                res@,
                NodeModel {
                    id: res@,
                    address: address@,
                    port,
                    capacity_memory_bytes,
                    capacity_cpu_weight,
                    used_memory_bytes: 0,
                    used_cpu_weight: 0,
                    labels: labels@,
                    last_heartbeat: now,
                },
            ),
    {
        proof {
            use_type_invariant(&*self);
        }
        let node_id = generate_node_id(address, port, now);
        let node = NodeInfo {
            id: node_id.clone(),
            address: to_owned_str(address),
            port,
            capacity_memory_bytes,
            capacity_cpu_weight,
            used_memory_bytes: 0,
            used_cpu_weight: 0,
            labels,
            last_heartbeat: now,
        };
        let ghost nv = node@;
        let ghost old_nodes = self.nodes;
        let mut nodes = StrMap::new();
        std::mem::swap(&mut nodes, &mut self.nodes);
        nodes.insert(node_id.clone(), node);
        proof {
            old_nodes.lemma_wf();
            nodes.lemma_wf();
            assert forall|i: int| 0 <= i < nodes.key_seq().len() implies (
            #[trigger] nodes.val_seq()[i]).labels.wf() && nodes.val_seq()[i]@.id
                == nodes.key_seq()[i] by {
                if old_nodes@.contains_key(nv.id) {
                    if i != old_nodes.key_seq().index_of(nv.id) {
                        assert(nodes.val_seq()[i] == old_nodes.val_seq()[i]);
                    }
                } else if i < old_nodes.key_seq().len() {
                    assert(nodes.val_seq()[i] == old_nodes.val_seq()[i]);
                }
            }
        }
        self.nodes = nodes;
        proof {
            assert(self.nodes() =~= old(self).nodes().insert(nv.id, nv));
        }
        node_id
    }

    /// Registers a node joining now.
    pub fn join(
        &mut self,
        address: &str,
        port: u16,
        labels: StrMap<String>,
        capacity_memory_bytes: u64,
        capacity_cpu_weight: u32,
    ) -> (res: String)
        requires
            labels.wf(),
        ensures
            exists|h: u32| res@ == "node-"@ + hex_padded(h as nat, 8),
            final(self).dead_timeout() == old(self).dead_timeout(),
            final(self).interval() == old(self).interval(),
            exists|now: u64|
                final(self).nodes() == old(self).nodes().insert(
                    res@,
                    NodeModel {
                        id: res@,
                        address: address@,
                        port,
                        capacity_memory_bytes,
                        capacity_cpu_weight,
                        used_memory_bytes: 0,
                        used_cpu_weight: 0,
                        labels: labels@,
                        last_heartbeat: now,
                    },
                ),
    {
        let now = epoch_secs();
        self.join_at(address, port, labels, capacity_memory_bytes, capacity_cpu_weight, now)
    }

    /// Records a heartbeat of `node_id` at time `now` with its resource usage.
    /// Returns false, changing nothing, for an unknown node.
    pub fn heartbeat_at(&mut self, node_id: &str, used_memory_bytes: u64, used_cpu_weight: u32, now: u64) -> (res: bool)
        ensures
            res == old(self).nodes().contains_key(node_id@),
            final(self).dead_timeout() == old(self).dead_timeout(),
            final(self).interval() == old(self).interval(),
            !res ==> final(self).nodes() == old(self).nodes(),
            res ==> final(self).nodes() == after_heartbeat(
                old(self).nodes(),
                node_id@,
                used_memory_bytes,
                used_cpu_weight,
                now,
            ),
    {
        proof {
            use_type_invariant(&*self);
        }
        let i = match self.nodes.find(node_id) {
            Some(i) => i,
            None => {
                proof {
                    assert(!self.nodes@.contains_key(node_id@));
                }
                return false;
            },
        };
        proof {
            self.lemma_node(i as int);
        }
        let mut n = self.nodes.val_at(i).copy();
        n.used_memory_bytes = used_memory_bytes;
        n.used_cpu_weight = used_cpu_weight;
        n.last_heartbeat = now;
        let ghost nv = n@;
        let ghost old_nodes = self.nodes;
        let mut nodes = StrMap::new();
        std::mem::swap(&mut nodes, &mut self.nodes);
        nodes.set_at(i, n);
        proof {
            old_nodes.lemma_wf();
            nodes.lemma_wf();
            assert forall|j: int| 0 <= j < nodes.key_seq().len() implies (
            #[trigger] nodes.val_seq()[j]).labels.wf() && nodes.val_seq()[j]@.id
                == nodes.key_seq()[j] by {
                if j != i {
                    assert(nodes.val_seq()[j] == old_nodes.val_seq()[j]);
                }
            }
        }
        self.nodes = nodes;
        proof {
            assert(self.nodes() =~= old(self).nodes().insert(node_id@, nv));
        }
        true
    }

    /// Records a heartbeat of `node_id` now: the node keeps its address,
    /// port, labels and capacities, takes the new usage figures and was last
    /// heard from at the clock's reading.
    pub fn heartbeat(&mut self, node_id: &str, used_memory_bytes: u64, used_cpu_weight: u32) -> (res: bool)
        ensures
            res == old(self).nodes().contains_key(node_id@),
            final(self).dead_timeout() == old(self).dead_timeout(),
            final(self).interval() == old(self).interval(),
            !res ==> final(self).nodes() == old(self).nodes(),
            res ==> final(self).nodes().dom() == old(self).nodes().dom(),
            res ==> final(self).nodes()[node_id@].used_memory_bytes == used_memory_bytes
                && final(self).nodes()[node_id@].used_cpu_weight == used_cpu_weight,
            res ==> exists|now: u64|
                #[trigger] after_heartbeat(old(self).nodes(), node_id@, used_memory_bytes, used_cpu_weight, now)
                    == final(self).nodes(),
    {
        let now = epoch_secs();
        let r = self.heartbeat_at(node_id, used_memory_bytes, used_cpu_weight, now);
        proof {
            if r {
                assert(self.nodes().dom() =~= old(self).nodes().dom());
                assert(after_heartbeat(old(self).nodes(), node_id@, used_memory_bytes, used_cpu_weight, now)
                    == self.nodes());
            }
        }
        r
    }

    /// Removes a node; returns whether it was there.
    pub fn leave(&mut self, node_id: &str) -> (res: bool)
        ensures
            res == old(self).nodes().contains_key(node_id@),
            final(self).nodes() == old(self).nodes().remove(node_id@),
            final(self).dead_timeout() == old(self).dead_timeout(),
            final(self).interval() == old(self).interval(),
    {
        proof {
            use_type_invariant(&*self);
        }
        let ghost old_nodes = self.nodes;
        let mut nodes = StrMap::new();
        std::mem::swap(&mut nodes, &mut self.nodes);
        let removed = nodes.remove(node_id);
        proof {
            old_nodes.lemma_wf();
            nodes.lemma_wf();
            assert forall|i: int| 0 <= i < nodes.key_seq().len() implies (
            #[trigger] nodes.val_seq()[i]).labels.wf() && nodes.val_seq()[i]@.id
                == nodes.key_seq()[i] by {
                if removed is Some {
                    let r = old_nodes.key_seq().index_of(node_id@);
                    let i2 = if i < r {
                        i
                    } else {
                        i + 1
                    };
                    assert(nodes.val_seq()[i] == old_nodes.val_seq()[i2]);
                    assert(nodes.key_seq()[i] == old_nodes.key_seq()[i2]);
                }
            }
        }
        self.nodes = nodes;
        proof {
            assert(self.nodes() =~= old(self).nodes().remove(node_id@));
        }
        removed.is_some()
    }

    fn member_of(&self, n: &NodeInfo, now: u64) -> (res: Member)
        requires
            n.labels.wf(),
            n.last_heartbeat <= now,
        ensures
            res.node_id@ == n@.id,
            res.address@ == n@.address,
            res.port == n.port,
            res.status == liveness(now, n.last_heartbeat, self.dead_timeout()),
            res.labels@ == n.labels@,
            res.labels.wf(),
            res.capacity_memory_bytes == n.capacity_memory_bytes,
            res.capacity_cpu_weight == n.capacity_cpu_weight,
            res.used_memory_bytes == n.used_memory_bytes,
            res.used_cpu_weight == n.used_cpu_weight,
            res.last_heartbeat == n.last_heartbeat,
    {
        Member {
            node_id: n.id.clone(),
            address: n.address.clone(),
            port: n.port,
            status: member_status(now, n.last_heartbeat, self.dead_timeout_secs),
            labels: n.labels.clone_strings(),
            capacity_memory_bytes: n.capacity_memory_bytes,
            capacity_cpu_weight: n.capacity_cpu_weight,
            used_memory_bytes: n.used_memory_bytes,
            used_cpu_weight: n.used_cpu_weight,
            last_heartbeat: n.last_heartbeat,
        }
    }

    /// Whether every node has been heard from no later than `now`.
    pub fn heard_from_all_by(&self, now: u64) -> (res: bool)
        ensures
            res == self.seen_by(now),
    {
        proof {
            use_type_invariant(self);
            self.nodes.lemma_wf();
        }
        let mut i: usize = 0;
        while i < self.nodes.len()
            invariant
                self.inv(),
                i <= self.nodes.key_seq().len(),
                forall|a: int| 0 <= a < i ==> (#[trigger] self.nodes.val_seq()[a]).last_heartbeat <= now,
            decreases self.nodes.key_seq().len() - i,
        {
            if self.nodes.val_at(i).last_heartbeat > now {
                proof {
                    self.lemma_node(i as int);
                }
                return false;
            }
            i = i + 1;
        }
        proof {
            assert forall|k: Seq<char>| #[trigger] self.nodes().contains_key(k) implies self.nodes()[k].last_heartbeat
                <= now by {
                self.nodes.lemma_dom();
                assert(self.nodes@.dom().contains(k));
                let j = self.nodes.key_seq().index_of(k);
                self.lemma_node(j);
                assert(self.nodes.val_seq()[j].last_heartbeat <= now);
            }
        }
        true
    }

    /// The member `node_id` with its status at time `now`, if known.
    pub fn get_member(&self, node_id: &str, now: u64) -> (res: Option<Member>)
        requires
            self.seen_by(now),
        ensures
            match res {
                Some(m) => self.nodes().contains_key(node_id@) && m.node_id@ == node_id@
                    && m.address@ == self.nodes()[node_id@].address && m.port == self.nodes()[node_id@].port
                    && m.status == liveness(now, self.nodes()[node_id@].last_heartbeat, self.dead_timeout())
                    && m.labels@ == self.nodes()[node_id@].labels
                    && m.used_memory_bytes == self.nodes()[node_id@].used_memory_bytes
                    && m.used_cpu_weight == self.nodes()[node_id@].used_cpu_weight
                    && m.capacity_memory_bytes == self.nodes()[node_id@].capacity_memory_bytes
                    && m.capacity_cpu_weight == self.nodes()[node_id@].capacity_cpu_weight
                    && m.last_heartbeat == self.nodes()[node_id@].last_heartbeat,
                None => !self.nodes().contains_key(node_id@),
            },
    {
        proof {
            use_type_invariant(self);
        }
        match self.nodes.find(node_id) {
            None => {
                proof {
                    assert(!self.nodes@.contains_key(node_id@));
                }
                None
            },
            Some(i) => {
                proof {
                    self.lemma_node(i as int);
                    assert(self.nodes().contains_key(self.nodes.key_seq()[i as int]));
                }
                Some(self.member_of(self.nodes.val_at(i), now))
            },
        }
    }

    /// All members with their status at time `now`, in join order.
    pub fn list_members(&self, now: u64) -> (res: Vec<Member>)
        requires
            self.seen_by(now),
        ensures
            res@.len() == self.nodes().len(),
            forall|i: int|
                0 <= i < res@.len() ==> self.nodes().contains_key((#[trigger] res@[i]).node_id@)
                    && res@[i].status == liveness(
                    now,
                    self.nodes()[res@[i].node_id@].last_heartbeat,
                    self.dead_timeout(),
                ) && res@[i].last_heartbeat == self.nodes()[res@[i].node_id@].last_heartbeat,
            forall|k: Seq<char>| #[trigger]
                self.nodes().contains_key(k) ==> exists|i: int| 0 <= i < res@.len() && (#[trigger] res@[i]).node_id@ == k,
            forall|i: int, j: int|
                0 <= i < j < res@.len() ==> (#[trigger] res@[i]).node_id@ != (#[trigger] res@[j]).node_id@,
            forall|i: int|
                0 <= i < res@.len() ==> describes(
                    #[trigger] res@[i],
                    self.nodes()[res@[i].node_id@],
                    now,
                    self.dead_timeout(),
                ),
    {
        proof {
            use_type_invariant(self);
            self.nodes.lemma_wf();
            self.nodes.lemma_dom();
            assert(self.nodes().dom() =~= self.nodes@.dom());
        }
        let mut out: Vec<Member> = Vec::new();
        let n = self.nodes.len();
        let mut i: usize = 0;
        while i < n
            invariant
                self.inv(),
                self.seen_by(now),
                n == self.nodes.key_seq().len(),
                i <= n,
                out@.len() == i,
                forall|a: int|
                    0 <= a < i ==> (#[trigger] out@[a]).node_id@ == self.nodes.key_seq()[a]
                        && out@[a].status == liveness(now, self.nodes.val_seq()[a].last_heartbeat, self.dead_timeout())
                        && out@[a].last_heartbeat == self.nodes.val_seq()[a].last_heartbeat
                        && describes(out@[a], self.nodes.val_seq()[a]@, now, self.dead_timeout()),
            decreases n - i,
        {
            proof {
                self.lemma_node(i as int);
                assert(self.nodes.val_seq()[i as int].last_heartbeat <= now);
            }
            let m = self.member_of(self.nodes.val_at(i), now);
            out.push(m);
            i = i + 1;
        }
        proof {
            assert forall|a: int| 0 <= a < out@.len() implies self.nodes().contains_key(
                (#[trigger] out@[a]).node_id@,
            ) && out@[a].status == liveness(now, self.nodes()[out@[a].node_id@].last_heartbeat, self.dead_timeout())
                && out@[a].last_heartbeat == self.nodes()[out@[a].node_id@].last_heartbeat
                && describes(out@[a], self.nodes()[out@[a].node_id@], now, self.dead_timeout()) by {
                self.lemma_node(a);
            }
            assert forall|k: Seq<char>| #[trigger] self.nodes().contains_key(k) implies exists|a: int|
                0 <= a < out@.len() && (#[trigger] out@[a]).node_id@ == k by {
                let j = self.nodes.key_seq().index_of(k);
                assert(out@[j].node_id@ == k);
            }
        }
        out
    }

    /// Removes the nodes that are dead at time `now` and returns their ids.
    pub fn reap_dead_nodes(&mut self, now: u64) -> (res: Vec<String>)
        requires
            old(self).seen_by(now),
        ensures
            final(self).nodes() == old(self).nodes().restrict(
                old(self).nodes().dom().filter(
                    |k: Seq<char>|
                        liveness(now, old(self).nodes()[k].last_heartbeat, old(self).dead_timeout())
                            == MemberStatus::Ready,
                ),
            ),
            forall|i: int|
                0 <= i < res@.len() ==> old(self).nodes().contains_key((#[trigger] res@[i])@)
                    && liveness(now, old(self).nodes()[res@[i]@].last_heartbeat, old(self).dead_timeout())
                    == MemberStatus::Dead,
            forall|k: Seq<char>| #[trigger]
                old(self).nodes().contains_key(k) && liveness(
                    now,
                    old(self).nodes()[k].last_heartbeat,
                    old(self).dead_timeout(),
                ) == MemberStatus::Dead ==> exists|i: int| 0 <= i < res@.len() && (#[trigger] res@[i])@ == k,
            final(self).dead_timeout() == old(self).dead_timeout(),
            final(self).interval() == old(self).interval(),
    {
        let members = self.list_members(now);
        let ghost before = self.nodes();
        let ghost timeout = self.dead_timeout();
        let mut reaped: Vec<String> = Vec::new();
        let mut i: usize = 0;
        while i < members.len()
            invariant
                i <= members@.len(),
                timeout == self.dead_timeout(),
                self.interval() == old(self).interval(),
                before == old(self).nodes(),
                forall|a: int| 0 <= a < members@.len() ==> before.contains_key((#[trigger] members@[a]).node_id@)
                    && members@[a].status == liveness(now, before[members@[a].node_id@].last_heartbeat, timeout),
                forall|k: Seq<char>| #[trigger] before.contains_key(k) ==> exists|a: int|
                    0 <= a < members@.len() && (#[trigger] members@[a]).node_id@ == k,
                forall|a: int, b: int|
                    0 <= a < b < members@.len() ==> (#[trigger] members@[a]).node_id@ != (#[trigger] members@[b]).node_id@,
                self.nodes() == before.restrict(
                    before.dom().filter(
                        |k: Seq<char>|
                            !(exists|a: int| 0 <= a < i && (#[trigger] members@[a]).node_id@ == k
                                && members@[a].status == MemberStatus::Dead),
                    ),
                ),
                forall|r: int| 0 <= r < reaped@.len() ==> before.contains_key((#[trigger] reaped@[r])@)
                    && liveness(now, before[reaped@[r]@].last_heartbeat, timeout) == MemberStatus::Dead,
                forall|a: int| 0 <= a < i && (#[trigger] members@[a]).status == MemberStatus::Dead
                    ==> exists|r: int| 0 <= r < reaped@.len() && (#[trigger] reaped@[r])@ == members@[a].node_id@,
            decreases members@.len() - i,
        {
            let m = &members[i];
            let ghost prev = self.nodes();
            let ghost prev_reaped = reaped@;
            if m.status == MemberStatus::Dead {
                self.leave(m.node_id.as_str());
                reaped.push(m.node_id.clone());
                proof {
                    assert(reaped@[reaped@.len() - 1]@ == m.node_id@);
                }
            }
            proof {
                let target = before.restrict(
                    before.dom().filter(
                        |k: Seq<char>|
                            !(exists|a: int| 0 <= a < i + 1 && (#[trigger] members@[a]).node_id@ == k
                                && members@[a].status == MemberStatus::Dead),
                    ),
                );
                assert forall|k: Seq<char>| #[trigger] self.nodes().contains_key(k) == target.contains_key(k) by {
                    if k == m.node_id@ && m.status == MemberStatus::Dead {
                        assert(members@[i as int].node_id@ == k);
                    } else {
                        if exists|a: int| 0 <= a < i + 1 && (#[trigger] members@[a]).node_id@ == k
                            && members@[a].status == MemberStatus::Dead {
                            let a = choose|a: int| 0 <= a < i + 1 && (#[trigger] members@[a]).node_id@ == k
                                && members@[a].status == MemberStatus::Dead;
                            if a == i {
                                assert(false);
                            }
                        }
                    }
                }
                assert(self.nodes() =~= target);
                assert forall|a: int| 0 <= a < i + 1 && (#[trigger] members@[a]).status == MemberStatus::Dead
                    implies exists|r: int| 0 <= r < reaped@.len() && (#[trigger] reaped@[r])@ == members@[a].node_id@ by {
                    if a < i {
                        let r = choose|r: int| 0 <= r < prev_reaped.len() && (#[trigger] prev_reaped[r])@ == members@[a].node_id@;
                        assert(reaped@[r] == prev_reaped[r]);
                    } else {
                        assert(reaped@[reaped@.len() - 1]@ == m.node_id@);
                    }
                }
            }
            i = i + 1;
        }
        proof {
            let final_filter = before.dom().filter(
                |k: Seq<char>| liveness(now, before[k].last_heartbeat, timeout) == MemberStatus::Ready,
            );
            let loop_filter = before.dom().filter(
                |k: Seq<char>|
                    !(exists|a: int| 0 <= a < members@.len() && (#[trigger] members@[a]).node_id@ == k
                        && members@[a].status == MemberStatus::Dead),
            );
            assert forall|k: Seq<char>| #[trigger] final_filter.contains(k) == loop_filter.contains(k) by {
                if before.contains_key(k) {
                    let a = choose|a: int| 0 <= a < members@.len() && (#[trigger] members@[a]).node_id@ == k;
                    if exists|b: int| 0 <= b < members@.len() && (#[trigger] members@[b]).node_id@ == k
                        && members@[b].status == MemberStatus::Dead {
                        let b = choose|b: int| 0 <= b < members@.len() && (#[trigger] members@[b]).node_id@ == k
                            && members@[b].status == MemberStatus::Dead;
                        assert(members@[b].status == liveness(now, before[k].last_heartbeat, timeout));
                    } else {
                        assert(members@[a].status == liveness(now, before[k].last_heartbeat, timeout));
                    }
                }
            }
            assert(final_filter =~= loop_filter);
            assert forall|k: Seq<char>| #[trigger]
                before.contains_key(k) && liveness(now, before[k].last_heartbeat, timeout) == MemberStatus::Dead
                implies exists|r: int| 0 <= r < reaped@.len() && (#[trigger] reaped@[r])@ == k by {
                let a = choose|a: int| 0 <= a < members@.len() && (#[trigger] members@[a]).node_id@ == k;
                assert(members@[a].status == MemberStatus::Dead);
            }
        }
        reaped
    }

    /// How many nodes are alive at time `now`.
    pub fn ready_count(&self, now: u64) -> (res: usize)
        requires
            self.seen_by(now),
        ensures
            res == self.nodes().dom().filter(
                |k: Seq<char>| liveness(now, self.nodes()[k].last_heartbeat, self.dead_timeout()) == MemberStatus::Ready,
            ).len(),
    {
        let members = self.list_members(now);
        let ghost ready = |k: Seq<char>| liveness(now, self.nodes()[k].last_heartbeat, self.dead_timeout()) == MemberStatus::Ready;
        let mut count: usize = 0;
        let mut i: usize = 0;
        let ghost mut seen: Set<Seq<char>> = Set::empty();
        while i < members.len()
            invariant
                i <= members@.len(),
                members@.len() == self.nodes().len(),
                forall|a: int| 0 <= a < members@.len() ==> self.nodes().contains_key((#[trigger] members@[a]).node_id@)
                    && members@[a].status == liveness(now, self.nodes()[members@[a].node_id@].last_heartbeat, self.dead_timeout()),
                forall|a: int, b: int|
                    0 <= a < b < members@.len() ==> (#[trigger] members@[a]).node_id@ != (#[trigger] members@[b]).node_id@,
                forall|k: Seq<char>| #[trigger] self.nodes().contains_key(k) ==> exists|a: int|
                    0 <= a < members@.len() && (#[trigger] members@[a]).node_id@ == k,
                seen == Set::new(|k: Seq<char>| exists|a: int| 0 <= a < i && (#[trigger] members@[a]).node_id@ == k && members@[a].status == MemberStatus::Ready),
                seen.finite(),
                count == seen.len(),
                count <= i,
            decreases members@.len() - i,
        {
            let ghost prev = seen;
            if members[i].status == MemberStatus::Ready {
                proof {
                    let k = members@[i as int].node_id@;
                    assert(!prev.contains(k)) by {
                        if prev.contains(k) {
                            let a = choose|a: int| 0 <= a < i && (#[trigger] members@[a]).node_id@ == k && members@[a].status == MemberStatus::Ready;
                        }
                    }
                    seen = prev.insert(k);
                    assert(seen =~= Set::new(|k: Seq<char>| exists|a: int| 0 <= a < i + 1 && (#[trigger] members@[a]).node_id@ == k && members@[a].status == MemberStatus::Ready));
                }
                count = count + 1;
            } else {
                proof {
                    assert(seen =~= Set::new(|k: Seq<char>| exists|a: int| 0 <= a < i + 1 && (#[trigger] members@[a]).node_id@ == k && members@[a].status == MemberStatus::Ready));
                }
            }
            i = i + 1;
        }
        proof {
            assert(seen =~= self.nodes().dom().filter(ready)) by {
                assert forall|k: Seq<char>| seen.contains(k) implies #[trigger] self.nodes().dom().filter(ready).contains(k) by {
                    let a = choose|a: int| 0 <= a < members@.len() && (#[trigger] members@[a]).node_id@ == k && members@[a].status == MemberStatus::Ready;
                }
                assert forall|k: Seq<char>| #[trigger] self.nodes().dom().filter(ready).contains(k) implies seen.contains(k) by {
                    let a = choose|a: int| 0 <= a < members@.len() && (#[trigger] members@[a]).node_id@ == k;
                    assert(members@[a].status == MemberStatus::Ready);
                }
            }
        }
        count
    }
}


/// What the control plane does first with a join request.
#[derive(Debug)]
pub enum JoinAdmission {
    /// A token was presented: it must be validated.
    ValidateToken,
    /// No token and none required: the node joins without a namespace.
    Unmanaged,
    /// No token but one is required: the join is refused with this message.
    Rejected(String),
}

/// The first step of a join: a presented token is validated; without one,
/// the node is refused when the cluster requires authentication.
pub fn join_admission(auth_token: &str, require_auth: bool) -> (res: JoinAdmission)
    ensures
        auth_token@.len() > 0 ==> res is ValidateToken,
        auth_token@.len() == 0 && !require_auth ==> res is Unmanaged,
        auth_token@.len() == 0 && require_auth ==> (res matches JoinAdmission::Rejected(m)
            && m@ == "auth_token is required to join this cluster"@),
{
    if !auth_token.is_empty() {
        JoinAdmission::ValidateToken
    } else if require_auth {
        JoinAdmission::Rejected(to_owned_str("auth_token is required to join this cluster"))
    } else {
        JoinAdmission::Unmanaged
    }
}

/// The namespace a validated token binds the node to, or the refusal for an
/// invalid or revoked token. `validated` is what the token validator
/// answered: the token's id and namespace.
pub fn join_namespace(validated: Option<(String, String)>) -> (res: Result<String, String>)
    ensures
        match validated {
            Some((_, ns)) => res matches Ok(n) && n@ == ns@,
            None => res matches Err(m) && m@ == "invalid or revoked agent token"@,
        },
{
    match validated {
        Some((_, ns)) => Ok(ns),
        None => Err(to_owned_str("invalid or revoked agent token")),
    }
}

/// The validator of self-hosted clusters: every token is accepted, for no
/// namespace.
pub fn noop_validate_agent_token(raw_token: &str) -> (res: Option<(String, String)>)
    ensures
        res matches Some((id, ns)) && id@ == "unmanaged"@ && ns@.len() == 0,
{
    Some((to_owned_str("unmanaged"), String::new()))
}

/// The labels a joining node is filed with: its own, plus `namespace` under
/// the key "namespace" when it has one.
pub fn labels_with_namespace(labels: StrMap<String>, namespace: &str) -> (res: StrMap<String>)
    requires
        labels.wf(),
    ensures
        res.wf(),
        namespace@.len() == 0 ==> res@ == labels@,
        namespace@.len() > 0 ==> res@.dom() == labels@.dom().insert("namespace"@)
            && res@["namespace"@]@ == namespace@
            && forall|k: Seq<char>| #[trigger] labels@.contains_key(k) && k != "namespace"@ ==> res@[k] == labels@[k],
{
    let mut out = labels;
    if !namespace.is_empty() {
        out.insert(to_owned_str("namespace"), to_owned_str(namespace));
    }
    out
}

/// Configuration for the node agent.
pub struct AgentConfig {
    /// Address of the control plane's endpoint.
    pub control_plane_addr: String,
    /// This node's advertised address.
    pub address: String,
    /// This node's advertised port.
    pub port: u16,
    /// Labels for scheduling affinity.
    pub labels: StrMap<String>,
    /// Total memory capacity in bytes.
    pub capacity_memory_bytes: u64,
    /// Total CPU weight capacity.
    pub capacity_cpu_weight: u32,
}

/// The node agent's view of its cluster membership.
pub struct NodeAgent {
    config: AgentConfig,
    node_id: Option<String>,
    heartbeat_interval_secs: u64,
}

impl NodeAgent {
    /// The assigned node id, if joined.
    pub closed spec fn joined_as(&self) -> Option<Seq<char>> {
        match self.node_id {
            Some(id) => Some(id@),
            None => None,
        }
    }

    /// The heartbeat interval in seconds.
    pub closed spec fn interval(&self) -> u64 {
        self.heartbeat_interval_secs
    }

    /// The control plane address.
    pub closed spec fn control_plane(&self) -> Seq<char> {
        self.config.control_plane_addr@
    }

    /// The address the agent advertises.
    pub closed spec fn address(&self) -> Seq<char> {
        self.config.address@
    }

    /// The port the agent advertises.
    pub closed spec fn port(&self) -> u16 {
        self.config.port
    }

    /// The labels the agent advertises.
    pub closed spec fn labels(&self) -> Map<Seq<char>, String> {
        self.config.labels@
    }

    /// Whether the advertised labels are a well-formed map.
    pub closed spec fn labels_wf(&self) -> bool {
        self.config.labels.wf()
    }

    /// The memory capacity the agent advertises.
    pub closed spec fn capacity_memory_bytes(&self) -> u64 {
        self.config.capacity_memory_bytes
    }

    /// The CPU weight capacity the agent advertises.
    pub closed spec fn capacity_cpu_weight(&self) -> u32 {
        self.config.capacity_cpu_weight
    }

    /// A new agent: not joined, heartbeating every 5 seconds, advertising
    /// the configured address, port, labels and capacities.
    pub fn new(config: AgentConfig) -> (res: Self)
        ensures
            res.joined_as() is None,
            res.interval() == 5,
            res.control_plane() == config.control_plane_addr@,
            res.address() == config.address@,
            res.port() == config.port,
            res.labels() == config.labels@,
            res.labels_wf() == config.labels.wf(),
            res.capacity_memory_bytes() == config.capacity_memory_bytes,
            res.capacity_cpu_weight() == config.capacity_cpu_weight,
    {
        NodeAgent { config, node_id: None, heartbeat_interval_secs: 5 }
    }

    /// The assigned node id (None if not yet joined).
    pub fn node_id(&self) -> (res: Option<&str>)
        ensures
            match res {
                Some(id) => self.joined_as() == Some(id@),
                None => self.joined_as() is None,
            },
    {
        match &self.node_id {
            Some(id) => Some(id.as_str()),
            None => None,
        }
    }

    /// The URL the agent connects to: `http://` and the control plane
    /// address.
    pub fn control_plane_url(&self) -> (res: String)
        ensures
            res@ == "http://"@ + self.control_plane(),
    {
        concat("http://", self.config.control_plane_addr.as_str())
    }

    /// Records the control plane's answer to a join: the assigned node id
    /// and the heartbeat interval to use.
    pub fn record_join(&mut self, node_id: String, heartbeat_interval_secs: u32)
        ensures
            final(self).joined_as() == Some(node_id@),
            final(self).interval() == heartbeat_interval_secs,
            final(self).control_plane() == old(self).control_plane(),
            final(self).address() == old(self).address(),
            final(self).port() == old(self).port(),
            final(self).labels() == old(self).labels(),
            final(self).labels_wf() == old(self).labels_wf(),
            final(self).capacity_memory_bytes() == old(self).capacity_memory_bytes(),
            final(self).capacity_cpu_weight() == old(self).capacity_cpu_weight(),
    {
        self.node_id = Some(node_id);
        self.heartbeat_interval_secs = heartbeat_interval_secs as u64;
    }

    /// What the agent sends to join: its advertised address, port, labels
    /// and capacities, and no token.
    pub fn join_request(&self) -> (res: JoinRequest)
        requires
            self.labels_wf(),
        ensures
            res.address@ == self.address(),
            res.port == self.port() as u32,
            res.labels@ == self.labels(),
            res.labels.wf(),
            res.capacity_memory_bytes == self.capacity_memory_bytes(),
            res.capacity_cpu_weight == self.capacity_cpu_weight(),
            res.auth_token@.len() == 0,
    {
        let labels = self.config.labels.clone_strings();
        JoinRequest {
            address: self.config.address.clone(),
            port: self.config.port as u32,
            labels,
            capacity_memory_bytes: self.config.capacity_memory_bytes,
            capacity_cpu_weight: self.config.capacity_cpu_weight,
            auth_token: String::new(),
        }
    }

    /// The node id to leave or heartbeat with, or the error of an agent that
    /// has not joined yet.
    pub fn joined_node_id(&self) -> (res: Result<&str, String>)
        ensures
            match res {
                Ok(id) => self.joined_as() == Some(id@),
                Err(m) => self.joined_as() is None && m@ == "not joined — call join() first"@,
            },
    {
        match &self.node_id {
            Some(id) => Ok(id.as_str()),
            None => Err(to_owned_str("not joined — call join() first")),
        }
    }
}
} // verus!
