//! Agent tokens for bring-your-own-compute nodes.
//!
//! A customer issues a token (`wg_agent_<32 hex chars>`) for a namespace; an
//! agent presents it when joining the cluster and is bound to that
//! namespace. Only the token's SHA-256 hash is stored. A revoked token never
//! validates again.

use vstd::prelude::*;
use crate::strmap::StrMap;
use crate::sys::{epoch_secs, hash_secret, is_hex_id, key_digest, random_id_16, random_id_8};
use crate::text::{str_eq, to_owned_str};

verus! {

/// A registered agent token.
#[derive(Debug)]
pub struct AgentToken {
    pub id: String,
    pub namespace: String,
    pub name: String,
    pub revoked: bool,
    pub created_at: u64,
    pub last_used_at: Option<u64>,
}

/// Abstract value of an agent token.
pub struct AgentTokenModel {
    pub id: Seq<char>,
    pub namespace: Seq<char>,
    pub name: Seq<char>,
    pub revoked: bool,
    pub created_at: u64,
    pub last_used_at: Option<u64>,
}

impl View for AgentToken {
    type V = AgentTokenModel;

    open spec fn view(&self) -> AgentTokenModel {
        AgentTokenModel {
            id: self.id@,
            namespace: self.namespace@,
            name: self.name@,
            revoked: self.revoked,
            created_at: self.created_at,
            last_used_at: self.last_used_at,
        }
    }
}

impl Clone for AgentToken {
    fn clone(&self) -> (res: Self)
        ensures
            res@ == self@,
    {
        AgentToken {
            id: self.id.clone(),
            namespace: self.namespace.clone(),
            name: self.name.clone(),
            revoked: self.revoked,
            created_at: self.created_at,
            last_used_at: self.last_used_at,
        }
    }
}

/// Result of validating an agent token.
#[derive(Debug)]
pub struct ValidatedAgent {
    pub token_id: String,
    pub namespace: String,
}

/// The token with `revoked` and `last_used_at` replaced.
pub open spec fn token_with(t: AgentTokenModel, revoked: bool, last_used_at: Option<u64>) -> AgentTokenModel {
    AgentTokenModel {
        id: t.id,
        namespace: t.namespace,
        name: t.name,
        revoked,
        created_at: t.created_at,
        last_used_at,
    }
}

/// Store of agent tokens.
pub struct AgentTokenStore {
    tokens: StrMap<AgentToken>,
    hash_to_id: StrMap<String>,
}

impl AgentTokenStore {
    #[verifier::type_invariant]
    closed spec fn inv(self) -> bool {
        &&& self.tokens.wf()
        &&& self.hash_to_id.wf()
        &&& forall|i: int|
            0 <= i < self.tokens.key_seq().len() ==> (#[trigger] self.tokens.val_seq()[i])@.id
                == self.tokens.key_seq()[i]
    }

    /// The tokens by id.
    pub closed spec fn tokens(&self) -> Map<Seq<char>, AgentTokenModel> {
        self.tokens@.map_values(|t: AgentToken| t@)
    }

    /// The token id for each token hash.
    pub closed spec fn ids(&self) -> Map<Seq<char>, Seq<char>> {
        self.hash_to_id@.map_values(|s: String| s@)
    }

    /// The token that the raw token `raw` stands for, if any.
    pub open spec fn token_for(&self, raw: Seq<char>) -> Option<AgentTokenModel> {
        if self.ids().contains_key(key_digest(raw)) && self.tokens().contains_key(
            self.ids()[key_digest(raw)],
        ) {
            Some(self.tokens()[self.ids()[key_digest(raw)]])
        } else {
            None
        }
    }

    proof fn lemma_ids(&self)
        requires
            self.inv(),
        ensures
            forall|k: Seq<char>| #[trigger]
                self.tokens().contains_key(k) ==> self.tokens()[k].id == k,
    {
        assert forall|k: Seq<char>| #[trigger] self.tokens().contains_key(k) implies self.tokens()[k].id
            == k by {
            let j = self.tokens.key_seq().index_of(k);
            self.tokens.lemma_at(j);
        }
    }

    /// An empty store.
    pub fn new() -> (res: Self)
        ensures
            res.tokens() == Map::<Seq<char>, AgentTokenModel>::empty(),
            res.ids() == Map::<Seq<char>, Seq<char>>::empty(),
    {
        let res = AgentTokenStore { tokens: StrMap::new(), hash_to_id: StrMap::new() };
        proof {
            assert(res.tokens() =~= Map::<Seq<char>, AgentTokenModel>::empty());
            assert(res.ids() =~= Map::<Seq<char>, Seq<char>>::empty());
        }
        res
    }

    /// Issues a new token for `namespace`; returns the raw token (shown once)
    /// and the token's record. The raw token then stands for that record.
    pub fn issue(&mut self, namespace: &str, name: &str) -> (res: (String, AgentToken))
        ensures
            is_hex_id(res.0@, "wg_agent_"@, 16),
            res.0@.len() == 41,
            is_hex_id(res.1@.id, "agt_"@, 8),
            res.1@.namespace == namespace@,
            res.1@.name == name@,
            !res.1@.revoked,
            res.1@.last_used_at is None,
            final(self).tokens() == old(self).tokens().insert(res.1@.id, res.1@),
            final(self).ids() == old(self).ids().insert(key_digest(res.0@), res.1@.id),
            final(self).token_for(res.0@) == Some(res.1@),
    {
        proof {
            use_type_invariant(&*self);
            reveal_strlit("wg_agent_");
        }
        let raw = random_id_16("wg_agent_");
        let hash = hash_secret(raw.as_str());
        let id = random_id_8("agt_");
        let token = AgentToken {
            id: id.clone(),
            namespace: to_owned_str(namespace),
            name: to_owned_str(name),
            revoked: false,
            created_at: epoch_secs(),
            last_used_at: None,
        };
        let ghost tv = token@;
        let ghost hv = hash@;
        let out = token.clone();
        let ghost old_tokens = self.tokens;
        let mut tokens = StrMap::new();
        std::mem::swap(&mut tokens, &mut self.tokens);
        tokens.insert(id.clone(), token);
        proof {
            old_tokens.lemma_wf();
            tokens.lemma_wf();
            assert forall|i: int|
                0 <= i < tokens.key_seq().len() implies (#[trigger] tokens.val_seq()[i])@.id
                == tokens.key_seq()[i] by {
                if old_tokens@.contains_key(tv.id) {
                    if i != old_tokens.key_seq().index_of(tv.id) {
                        assert(tokens.val_seq()[i] == old_tokens.val_seq()[i]);
                    }
                } else if i < old_tokens.key_seq().len() {
                    assert(tokens.val_seq()[i] == old_tokens.val_seq()[i]);
                }
            }
        }
        self.tokens = tokens;
        let mut ids = StrMap::new();
        std::mem::swap(&mut ids, &mut self.hash_to_id);
        ids.insert(hash, id);
        self.hash_to_id = ids;
        proof {
            assert(self.tokens() =~= old(self).tokens().insert(tv.id, tv));
            assert(self.ids() =~= old(self).ids().insert(hv, tv.id));
        }
        (raw, out)
    }

    /// Validates a raw token: the token's id and namespace if it stands for a
    /// token that is not revoked, and then that token's last use is recorded.
    pub fn validate(&mut self, raw_token: &str) -> (res: Option<ValidatedAgent>)
        ensures
            final(self).ids() == old(self).ids(),
            old(self).token_for(raw_token@) is None ==> res is None && final(self).tokens() == old(
                self,
            ).tokens(),
            old(self).token_for(raw_token@) is Some && old(self).token_for(raw_token@).unwrap().revoked
                ==> res is None && final(self).tokens() == old(self).tokens(),
            old(self).token_for(raw_token@) is Some && !old(self).token_for(
                raw_token@,
            ).unwrap().revoked ==> ({
                let t = old(self).token_for(raw_token@).unwrap();
                res matches Some(v) && v.token_id@ == t.id && v.namespace@ == t.namespace
                    && final(self).tokens().contains_key(t.id) && final(self).tokens() == old(
                    self,
                ).tokens().insert(t.id, token_with(t, false, final(self).tokens()[t.id].last_used_at))
                    && final(self).tokens()[t.id].last_used_at is Some
            }),
    {
        proof {
            use_type_invariant(&*self);
            self.lemma_ids();
        }
        let hash = hash_secret(raw_token);
        let id = match self.hash_to_id.get(hash.as_str()) {
            Some(id) => id.clone(),
            None => {
                return None;
            },
        };
        let i = match self.tokens.find(id.as_str()) {
            Some(i) => i,
            None => {
                return None;
            },
        };
        proof {
            self.tokens.lemma_at(i as int);
        }
        let t = self.tokens.val_at(i);
        if t.revoked {
            return None;
        }
        let mut nt = t.clone();
        nt.last_used_at = Some(epoch_secs());
        let v = ValidatedAgent { token_id: t.id.clone(), namespace: t.namespace.clone() };
        let ghost nv = nt@;
        let ghost old_tokens = self.tokens;
        let mut tokens = StrMap::new();
        std::mem::swap(&mut tokens, &mut self.tokens);
        tokens.set_at(i, nt);
        proof {
            old_tokens.lemma_wf();
            tokens.lemma_wf();
            assert forall|j: int|
                0 <= j < tokens.key_seq().len() implies (#[trigger] tokens.val_seq()[j])@.id
                == tokens.key_seq()[j] by {
                if j != i {
                    assert(tokens.val_seq()[j] == old_tokens.val_seq()[j]);
                }
            }
        }
        self.tokens = tokens;
        proof {
            assert(self.tokens() =~= old(self).tokens().insert(id@, nv));
        }
        Some(v)
    }

    /// All tokens of `namespace`, each once.
    pub fn list(&self, namespace: &str) -> (res: Vec<AgentToken>)
        ensures
            forall|i: int|
                0 <= i < res@.len() ==> self.tokens().contains_key((#[trigger] res@[i])@.id)
                    && self.tokens()[res@[i]@.id] == res@[i]@ && res@[i]@.namespace == namespace@,
            forall|k: Seq<char>|
                #[trigger] self.tokens().contains_key(k) && self.tokens()[k].namespace
                    == namespace@ ==> exists|i: int| 0 <= i < res@.len() && (#[trigger] res@[i])@.id == k,
            forall|i: int, j: int|
                0 <= i < j < res@.len() ==> (#[trigger] res@[i])@.id != (#[trigger] res@[j])@.id,
    {
        proof {
            use_type_invariant(self);
            self.tokens.lemma_wf();
        }
        let mut out: Vec<AgentToken> = Vec::new();
        let ghost mut src: Seq<int> = Seq::empty();
        let n = self.tokens.len();
        let mut i: usize = 0;
        while i < n
            invariant
                self.inv(),
                n == self.tokens.key_seq().len(),
                i <= n,
                src.len() == out@.len(),
                forall|a: int| 0 <= a < src.len() ==> 0 <= #[trigger] src[a] < i,
                forall|a: int, b: int| 0 <= a < b < src.len() ==> #[trigger] src[a] < #[trigger] src[b],
                forall|a: int|
                    0 <= a < out@.len() ==> (#[trigger] out@[a])@ == self.tokens.val_seq()[src[a]]@
                        && out@[a]@.namespace == namespace@,
                forall|j: int|
                    0 <= j < i && (#[trigger] self.tokens.val_seq()[j])@.namespace == namespace@
                        ==> exists|a: int| 0 <= a < src.len() && src[a] == j,
            decreases n - i,
        {
            let t = self.tokens.val_at(i);
            let ghost prev_src = src;
            if str_eq(t.namespace.as_str(), namespace) {
                out.push(t.clone());
                proof {
                    src = src.push(i as int);
                    assert(src[src.len() - 1] == i);
                }
            }
            proof {
                assert forall|j: int|
                    0 <= j < i + 1 && (#[trigger] self.tokens.val_seq()[j])@.namespace
                        == namespace@ implies exists|a: int| 0 <= a < src.len() && src[a] == j by {
                    if j < i {
                        let a = choose|a: int| 0 <= a < prev_src.len() && prev_src[a] == j;
                        assert(src[a] == j);
                    } else {
                        assert(src[src.len() - 1] == j);
                    }
                }
            }
            i = i + 1;
        }
        proof {
            assert forall|a: int| 0 <= a < out@.len() implies self.tokens().contains_key(
                (#[trigger] out@[a])@.id,
            ) && self.tokens()[out@[a]@.id] == out@[a]@ && out@[a]@.namespace == namespace@ by {
                self.tokens.lemma_at(src[a]);
            }
            assert forall|k: Seq<char>| #[trigger]
                self.tokens().contains_key(k) && self.tokens()[k].namespace
                    == namespace@ implies exists|a: int| 0 <= a < out@.len() && (#[trigger] out@[a])@.id == k by {
                let j = self.tokens.key_seq().index_of(k);
                self.tokens.lemma_at(j);
                let a = choose|a: int| 0 <= a < src.len() && src[a] == j;
                assert(out@[a]@.id == k);
            }
            assert forall|a: int, b: int| 0 <= a < b < out@.len() implies (#[trigger] out@[a])@.id
                != (#[trigger] out@[b])@.id by {
                assert(src[a] < src[b]);
            }
        }
        out
    }

    /// Revokes the token `token_id` of `namespace`. Returns false, changing
    /// nothing, when there is no such token or it belongs to another
    /// namespace.
    pub fn revoke(&mut self, namespace: &str, token_id: &str) -> (res: bool)
        ensures
            final(self).ids() == old(self).ids(),
            res == (old(self).tokens().contains_key(token_id@) && old(self).tokens()[token_id@].namespace
                == namespace@),
            res ==> final(self).tokens() == old(self).tokens().insert(
                token_id@,
                token_with(
                    old(self).tokens()[token_id@],
                    true,
                    old(self).tokens()[token_id@].last_used_at,
                ),
            ),
            !res ==> final(self).tokens() == old(self).tokens(),
    {
        proof {
            use_type_invariant(&*self);
        }
        let i = match self.tokens.find(token_id) {
            Some(i) => i,
            None => {
                return false;
            },
        };
        proof {
            self.tokens.lemma_at(i as int);
        }
        let t = self.tokens.val_at(i);
        if !str_eq(t.namespace.as_str(), namespace) {
            return false;
        }
        let mut nt = t.clone();
        nt.revoked = true;
        let ghost nv = nt@;
        let ghost old_tokens = self.tokens;
        let mut tokens = StrMap::new();
        std::mem::swap(&mut tokens, &mut self.tokens);
        tokens.set_at(i, nt);
        proof {
            old_tokens.lemma_wf();
            tokens.lemma_wf();
            assert forall|j: int|
                0 <= j < tokens.key_seq().len() implies (#[trigger] tokens.val_seq()[j])@.id
                == tokens.key_seq()[j] by {
                if j != i {
                    assert(tokens.val_seq()[j] == old_tokens.val_seq()[j]);
                }
            }
        }
        self.tokens = tokens;
        proof {
            assert(self.tokens() =~= old(self).tokens().insert(token_id@, nv));
        }
        true
    }
}

/// Hashes a raw token for storage: hex of its SHA-256.
pub fn hash_token(raw: &str) -> (res: String)
    ensures
        res@ == key_digest(raw@),
        res@.len() == 64,
{
    hash_secret(raw)
}

} // verus!
