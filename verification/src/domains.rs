//! Custom domain management for cloud deployments.
//!
//! A custom domain (e.g. `app.example.com`) is mapped to a deployment. Each
//! domain starts Pending and is verified to Active; the user receives CNAME
//! instructions when adding it. Domains are stored under their trimmed,
//! lower-cased form, so lookups ignore case and surrounding white space.

use vstd::prelude::*;
use crate::strmap::StrMap;
use crate::sys::epoch_secs;
use crate::text::{
    concat, contains_seq, lowercase, push_str, str_contains, str_contains_char, str_eq,
    to_lowercase, to_owned_str, trim, trim_str,
};

verus! {

/// Status of a custom domain mapping.
#[derive(Clone, Copy, Debug, PartialEq, Eq, Structural)]
pub enum DomainStatus {
    Pending,
    Active,
    Failed,
}

impl DomainStatus {
    /// The lower-case name of the status.
    pub open spec fn name(self) -> Seq<char> {
        match self {
            DomainStatus::Pending => "pending"@,
            DomainStatus::Active => "active"@,
            DomainStatus::Failed => "failed"@,
        }
    }

    /// The lower-case name of the status ("pending", "active", "failed").
    pub fn to_string(&self) -> (res: String)
        ensures
            res@ == self.name(),
    {
        match self {
            DomainStatus::Pending => to_owned_str("pending"),
            DomainStatus::Active => to_owned_str("active"),
            DomainStatus::Failed => to_owned_str("failed"),
        }
    }
}

/// A mapping from a custom domain to a deployment.
#[derive(Debug)]
pub struct DomainMapping {
    pub domain: String,
    pub deployment_id: String,
    pub namespace: String,
    pub status: DomainStatus,
    pub created_at: u64,
    pub verified_at: Option<u64>,
}

/// Abstract value of a domain mapping.
pub struct DomainModel {
    pub domain: Seq<char>,
    pub deployment_id: Seq<char>,
    pub namespace: Seq<char>,
    pub status: DomainStatus,
    pub created_at: u64,
    pub verified_at: Option<u64>,
}

impl View for DomainMapping {
    type V = DomainModel;

    open spec fn view(&self) -> DomainModel {
        DomainModel {
            domain: self.domain@,
            deployment_id: self.deployment_id@,
            namespace: self.namespace@,
            status: self.status,
            created_at: self.created_at,
            verified_at: self.verified_at,
        }
    }
}

impl Clone for DomainMapping {
    fn clone(&self) -> (res: Self)
        ensures
            res@ == self@,
    {
        DomainMapping {
            domain: self.domain.clone(),
            deployment_id: self.deployment_id.clone(),
            namespace: self.namespace.clone(),
            status: self.status,
            created_at: self.created_at,
            verified_at: self.verified_at,
        }
    }
}

/// DNS instructions returned when a domain is added.
#[derive(Debug)]
pub struct DnsInstructions {
    pub record_type: String,
    pub name: String,
    pub target: String,
}

/// Response returned when adding a domain.
#[derive(Debug)]
pub struct AddDomainResponse {
    pub mapping: DomainMapping,
    pub dns: DnsInstructions,
}

/// Errors from domain operations.
#[derive(Debug)]
pub enum DomainError {
    InvalidDomain { reason: String },
    AlreadyExists { domain: String },
    NotFound { domain: String },
    VerificationFailed { domain: String },
    Storage(String),
}

/// The message of a domain error.
pub open spec fn domain_error_text(e: DomainError) -> Seq<char> {
    match e {
        DomainError::InvalidDomain { reason } => "invalid domain: "@ + reason@,
        DomainError::AlreadyExists { domain } => "domain already exists: "@ + domain@,
        DomainError::NotFound { domain } => "domain not found: "@ + domain@,
        DomainError::VerificationFailed { domain } => "verification failed for domain: "@
            + domain@,
        DomainError::Storage(msg) => "storage error: "@ + msg@,
    }
}

impl DomainError {
    /// The human-readable message.
    pub fn to_string(&self) -> (res: String)
        ensures
            res@ == domain_error_text(*self),
    {
        let mut s = String::new();
        match self {
            DomainError::InvalidDomain { reason } => {
                push_str(&mut s, "invalid domain: ");
                push_str(&mut s, reason.as_str());
            },
            DomainError::AlreadyExists { domain } => {
                push_str(&mut s, "domain already exists: ");
                push_str(&mut s, domain.as_str());
            },
            DomainError::NotFound { domain } => {
                push_str(&mut s, "domain not found: ");
                push_str(&mut s, domain.as_str());
            },
            DomainError::VerificationFailed { domain } => {
                push_str(&mut s, "verification failed for domain: ");
                push_str(&mut s, domain.as_str());
            },
            DomainError::Storage(msg) => {
                push_str(&mut s, "storage error: ");
                push_str(&mut s, msg.as_str());
            },
        }
        proof {
            assert(s@ =~= domain_error_text(*self));
        }
        s
    }
}

/// The first rule that a (trimmed) domain breaks, as the message given for it:
/// it must not be empty, must not contain a protocol prefix or a wildcard,
/// must contain a dot, and must not contain spaces or path separators.
pub open spec fn domain_problem(d: Seq<char>) -> Option<Seq<char>> {
    if d.len() == 0 {
        Some("domain must not be empty"@)
    } else if contains_seq(d, "://"@) {
        Some("domain must not contain protocol prefix (e.g. http://)"@)
    } else if d.contains('*') {
        Some("wildcard domains are not supported"@)
    } else if !d.contains('.') {
        Some("domain must contain at least one dot"@)
    } else if d.contains(' ') {
        Some("domain must not contain spaces"@)
    } else if d.contains('/') {
        Some("domain must not contain path separators"@)
    } else {
        None
    }
}

fn invalid(reason: &str) -> (res: DomainError)
    ensures
        res matches DomainError::InvalidDomain { reason: r } && r@ == reason@,
{
    DomainError::InvalidDomain { reason: to_owned_str(reason) }
}

/// Checks that `domain`, trimmed, is a plausible custom domain.
pub fn validate_domain(domain: &str) -> (res: Result<(), DomainError>)
    ensures
        res is Ok <==> domain_problem(trim(domain@)) is None,
        res is Err ==> (res matches Err(DomainError::InvalidDomain { reason }) && domain_problem(
            trim(domain@),
        ) == Some(reason@)),
{
    let d = trim_str(domain);
    let d = d.as_str();
    if d.is_empty() {
        return Err(invalid("domain must not be empty"));
    }
    if str_contains(d, "://") {
        return Err(invalid("domain must not contain protocol prefix (e.g. http://)"));
    }
    if str_contains_char(d, '*') {
        return Err(invalid("wildcard domains are not supported"));
    }
    if !str_contains_char(d, '.') {
        return Err(invalid("domain must contain at least one dot"));
    }
    if str_contains_char(d, ' ') {
        return Err(invalid("domain must not contain spaces"));
    }
    if str_contains_char(d, '/') {
        return Err(invalid("domain must not contain path separators"));
    }
    Ok(())
}

/// The CNAME target of a deployment: `<deployment_id>.edge.warpgrid.dev`.
pub fn cname_target(deployment_id: &str) -> (res: String)
    ensures
        res@ == deployment_id@ + ".edge.warpgrid.dev"@,
{
    concat(deployment_id, ".edge.warpgrid.dev")
}

/// The key a domain is stored under: trimmed, then lower-cased.
pub open spec fn domain_key(d: Seq<char>) -> Seq<char> {
    lowercase(trim(d))
}

fn normalize(domain: &str) -> (res: String)
    ensures
        res@ == domain_key(domain@),
{
    let t = trim_str(domain);
    to_lowercase(t.as_str())
}

/// A stored mapping is filed under its own domain, and it has a
/// verification time exactly when it is Active.
pub open spec fn mapping_valid(k: Seq<char>, m: DomainModel) -> bool {
    &&& m.domain == k
    &&& (m.status == DomainStatus::Active <==> m.verified_at is Some)
}

/// Every mapping of a store is valid.
pub open spec fn all_mappings_valid(m: Map<Seq<char>, DomainModel>) -> bool {
    forall|k: Seq<char>| #[trigger] m.contains_key(k) ==> mapping_valid(k, m[k])
}

/// The mapping with its status set to Active at time `at`.
pub open spec fn activated(m: DomainModel, at: u64) -> DomainModel {
    DomainModel {
        domain: m.domain,
        deployment_id: m.deployment_id,
        namespace: m.namespace,
        status: DomainStatus::Active,
        created_at: m.created_at,
        verified_at: Some(at),
    }
}

/// Domain store.
pub struct DomainStore {
    domains: StrMap<DomainMapping>,
}

impl View for DomainStore {
    type V = Map<Seq<char>, DomainModel>;

    closed spec fn view(&self) -> Map<Seq<char>, DomainModel> {
        self.domains@.map_values(|m: DomainMapping| m@)
    }
}

impl DomainStore {
    #[verifier::type_invariant]
    closed spec fn inv(self) -> bool {
        &&& self.domains.wf()
        &&& forall|i: int|
            0 <= i < self.domains.key_seq().len() ==> mapping_valid(
                self.domains.key_seq()[i],
                #[trigger] self.domains.val_seq()[i]@,
            )
    }

    proof fn lemma_valid(&self)
        requires
            self.inv(),
        ensures
            all_mappings_valid(self@),
    {
        assert forall|k: Seq<char>| #[trigger] self@.contains_key(k) implies mapping_valid(
            k,
            self@[k],
        ) by {
            let j = self.domains.key_seq().index_of(k);
            self.domains.lemma_at(j);
        }
    }

    /// An empty store.
    pub fn new() -> (res: Self)
        ensures
            res@ == Map::<Seq<char>, DomainModel>::empty(),
    {
        let res = DomainStore { domains: StrMap::new() };
        proof {
            assert(res@ =~= Map::<Seq<char>, DomainModel>::empty());
        }
        res
    }

    /// Adds a custom domain for a deployment of `namespace`, Pending, and
    /// returns it with the CNAME instructions.
    pub fn add_domain(&mut self, domain: &str, deployment_id: &str, namespace: &str) -> (res:
        Result<AddDomainResponse, DomainError>)
        ensures
            all_mappings_valid(final(self)@),
            domain_problem(trim(domain_key(domain@))) is Some ==> final(self)@ == old(self)@ && (
            res matches Err(DomainError::InvalidDomain { reason }) && domain_problem(
                trim(domain_key(domain@)),
            ) == Some(reason@)),
            domain_problem(trim(domain_key(domain@))) is None && old(self)@.contains_key(
                domain_key(domain@),
            ) ==> final(self)@ == old(self)@ && (
            res matches Err(DomainError::AlreadyExists { domain: e }) && e@ == domain_key(domain@)),
            domain_problem(trim(domain_key(domain@))) is None && !old(self)@.contains_key(
                domain_key(domain@),
            ) ==> (res matches Ok(r) && r.mapping@.domain == domain_key(domain@)
                && r.mapping@.deployment_id == deployment_id@ && r.mapping@.namespace
                == namespace@ && r.mapping@.status == DomainStatus::Pending
                && r.mapping@.verified_at is None && r.dns.record_type@ == "CNAME"@ && r.dns.name@
                == domain_key(domain@) && r.dns.target@ == deployment_id@ + ".edge.warpgrid.dev"@
                && final(self)@ == old(self)@.insert(domain_key(domain@), r.mapping@)),
    {
        proof {
            use_type_invariant(&*self);
            self.lemma_valid();
        }
        let key = normalize(domain);
        match validate_domain(key.as_str()) {
            Err(e) => {
                return Err(e);
            },
            Ok(()) => {},
        }
        if self.domains.contains_key(key.as_str()) {
            return Err(DomainError::AlreadyExists { domain: key });
        }
        let mapping = DomainMapping {
            domain: key.clone(),
            deployment_id: to_owned_str(deployment_id),
            namespace: to_owned_str(namespace),
            status: DomainStatus::Pending,
            created_at: epoch_secs(),
            verified_at: None,
        };
        let out = mapping.clone();
        let ghost old_domains = self.domains;
        let ghost kv = key@;
        let mut domains = StrMap::new();
        std::mem::swap(&mut domains, &mut self.domains);
        domains.insert(key.clone(), mapping);
        proof {
            old_domains.lemma_wf();
            domains.lemma_wf();
            assert forall|i: int| 0 <= i < domains.key_seq().len() implies mapping_valid(
                domains.key_seq()[i],
                #[trigger] domains.val_seq()[i]@,
            ) by {
                if i < old_domains.key_seq().len() {
                    assert(domains.val_seq()[i] == old_domains.val_seq()[i]);
                }
            }
        }
        self.domains = domains;
        proof {
            assert(self@ =~= old(self)@.insert(kv, out@));
            self.lemma_valid();
        }
        let dns = DnsInstructions {
            record_type: to_owned_str("CNAME"),
            name: key,
            target: cname_target(deployment_id),
        };
        Ok(AddDomainResponse { mapping: out, dns })
    }

    /// Removes a custom domain.
    pub fn remove_domain(&mut self, domain: &str) -> (res: Result<(), DomainError>)
        ensures
            all_mappings_valid(final(self)@),
            old(self)@.contains_key(domain_key(domain@)) ==> res is Ok && final(self)@ == old(
                self,
            )@.remove(domain_key(domain@)),
            !old(self)@.contains_key(domain_key(domain@)) ==> final(self)@ == old(self)@ && (
            res matches Err(DomainError::NotFound { domain: e }) && e@ == domain_key(domain@)),
    {
        proof {
            use_type_invariant(&*self);
            self.lemma_valid();
        }
        let key = normalize(domain);
        let ghost old_domains = self.domains;
        let mut domains = StrMap::new();
        std::mem::swap(&mut domains, &mut self.domains);
        let removed = domains.remove(key.as_str());
        proof {
            old_domains.lemma_wf();
            domains.lemma_wf();
            assert forall|i: int| 0 <= i < domains.key_seq().len() implies mapping_valid(
                domains.key_seq()[i],
                #[trigger] domains.val_seq()[i]@,
            ) by {
                if removed is Some {
                    let r = old_domains.key_seq().index_of(key@);
                    let i2 = if i < r {
                        i
                    } else {
                        i + 1
                    };
                    assert(domains.val_seq()[i] == old_domains.val_seq()[i2]);
                    assert(domains.key_seq()[i] == old_domains.key_seq()[i2]);
                }
            }
        }
        self.domains = domains;
        proof {
            assert(self@ =~= old(self)@.remove(key@));
            self.lemma_valid();
        }
        match removed {
            Some(_) => Ok(()),
            None => Err(DomainError::NotFound { domain: key }),
        }
    }

    /// The mapping of a domain, looked up by its normalized form.
    pub fn get_domain(&self, domain: &str) -> (res: Option<DomainMapping>)
        ensures
            match res {
                Some(m) => self@.contains_key(domain_key(domain@)) && m@ == self@[domain_key(
                    domain@,
                )],
                None => !self@.contains_key(domain_key(domain@)),
            },
    {
        proof {
            use_type_invariant(self);
        }
        let key = normalize(domain);
        match self.domains.get(key.as_str()) {
            Some(m) => Some(m.clone()),
            None => None,
        }
    }

    /// Marks a Pending domain as verified (Active). Only Pending domains can
    /// be verified.
    pub fn verify_domain(&mut self, domain: &str) -> (res: Result<DomainMapping, DomainError>)
        ensures
            all_mappings_valid(final(self)@),
            !old(self)@.contains_key(domain_key(domain@)) ==> final(self)@ == old(self)@ && (
            res matches Err(DomainError::NotFound { domain: e }) && e@ == domain_key(domain@)),
            old(self)@.contains_key(domain_key(domain@)) && old(self)@[domain_key(
                domain@,
            )].status != DomainStatus::Pending ==> final(self)@ == old(self)@ && (
            res matches Err(DomainError::VerificationFailed { domain: e }) && e@ == domain_key(
                domain@,
            )),
            old(self)@.contains_key(domain_key(domain@)) && old(self)@[domain_key(
                domain@,
            )].status == DomainStatus::Pending ==> (res matches Ok(m) && m@.verified_at is Some
                && m@ == activated(old(self)@[domain_key(domain@)], m@.verified_at.unwrap())
                && final(self)@ == old(self)@.insert(domain_key(domain@), m@)),
    {
        proof {
            use_type_invariant(&*self);
            self.lemma_valid();
        }
        let key = normalize(domain);
        let i = match self.domains.find(key.as_str()) {
            Some(i) => i,
            None => {
                return Err(DomainError::NotFound { domain: key });
            },
        };
        proof {
            self.domains.lemma_at(i as int);
        }
        let m = self.domains.val_at(i);
        if m.status != DomainStatus::Pending {
            return Err(DomainError::VerificationFailed { domain: key });
        }
        let mut nm = m.clone();
        nm.status = DomainStatus::Active;
        nm.verified_at = Some(epoch_secs());
        let out = nm.clone();
        let ghost old_domains = self.domains;
        let mut domains = StrMap::new();
        std::mem::swap(&mut domains, &mut self.domains);
        domains.set_at(i, nm);
        proof {
            old_domains.lemma_wf();
            domains.lemma_wf();
            assert forall|j: int| 0 <= j < domains.key_seq().len() implies mapping_valid(
                domains.key_seq()[j],
                #[trigger] domains.val_seq()[j]@,
            ) by {
                if j != i {
                    assert(domains.val_seq()[j] == old_domains.val_seq()[j]);
                }
            }
        }
        self.domains = domains;
        proof {
            assert(self@ =~= old(self)@.insert(key@, out@));
            self.lemma_valid();
        }
        Ok(out)
    }

    /// All mappings of `namespace`, each once.
    pub fn list_domains_for_namespace(&self, namespace: &str) -> (res: Vec<DomainMapping>)
        ensures
            forall|i: int|
                0 <= i < res@.len() ==> self@.contains_key((#[trigger] res@[i])@.domain)
                    && self@[res@[i]@.domain] == res@[i]@ && res@[i]@.namespace == namespace@,
            forall|k: Seq<char>|
                #[trigger] self@.contains_key(k) && self@[k].namespace == namespace@ ==> exists|
                    i: int,
                | 0 <= i < res@.len() && (#[trigger] res@[i])@.domain == k,
            forall|i: int, j: int|
                0 <= i < j < res@.len() ==> (#[trigger] res@[i])@.domain != (
                #[trigger] res@[j])@.domain,
    {
        proof {
            use_type_invariant(self);
            self.domains.lemma_wf();
        }
        let mut out: Vec<DomainMapping> = Vec::new();
        let ghost mut src: Seq<int> = Seq::empty();
        let n = self.domains.len();
        let mut i: usize = 0;
        while i < n
            invariant
                self.inv(),
                n == self.domains.key_seq().len(),
                i <= n,
                src.len() == out@.len(),
                forall|a: int| 0 <= a < src.len() ==> 0 <= #[trigger] src[a] < i,
                forall|a: int, b: int| 0 <= a < b < src.len() ==> #[trigger] src[a] < #[trigger] src[b],
                forall|a: int|
                    0 <= a < out@.len() ==> (#[trigger] out@[a])@ == self.domains.val_seq()[src[a]]@
                        && out@[a]@.namespace == namespace@,
                forall|j: int|
                    0 <= j < i && (#[trigger] self.domains.val_seq()[j])@.namespace == namespace@
                        ==> exists|a: int| 0 <= a < src.len() && src[a] == j,
            decreases n - i,
        {
            let m = self.domains.val_at(i);
            let ghost prev_src = src;
            if str_eq(m.namespace.as_str(), namespace) {
                out.push(m.clone());
                proof {
                    src = src.push(i as int);
                    assert(src[src.len() - 1] == i);
                }
            }
            proof {
                assert forall|j: int|
                    0 <= j < i + 1 && (#[trigger] self.domains.val_seq()[j])@.namespace
                        == namespace@ implies exists|a: int| 0 <= a < src.len() && src[a] == j by {
                    if j < i {
                        let a = choose|a: int| 0 <= a < prev_src.len() && prev_src[a] == j;
                        assert(src[a] == j);
                    } else {
                        assert(src[src.len() - 1] == j);
                    }
                }
            }
            i = i + 1;
        }
        proof {
            assert forall|a: int| 0 <= a < out@.len() implies self@.contains_key(
                (#[trigger] out@[a])@.domain,
            ) && self@[out@[a]@.domain] == out@[a]@ && out@[a]@.namespace == namespace@ by {
                self.domains.lemma_at(src[a]);
            }
            assert forall|k: Seq<char>| #[trigger]
                self@.contains_key(k) && self@[k].namespace == namespace@ implies exists|a: int|
                0 <= a < out@.len() && (#[trigger] out@[a])@.domain == k by {
                let j = self.domains.key_seq().index_of(k);
                self.domains.lemma_at(j);
                let a = choose|a: int| 0 <= a < src.len() && src[a] == j;
                assert(out@[a]@.domain == k);
            }
            assert forall|a: int, b: int| 0 <= a < b < out@.len() implies (
            #[trigger] out@[a])@.domain != (#[trigger] out@[b])@.domain by {
                assert(src[a] < src[b]);
            }
        }
        out
    }
}

/// A domain and any spelling of it that differs only in surrounding white
/// space refer to the same stored entry: the key does not change when it is
/// trimmed again.
pub proof fn law_key_ignores_padding(d: Seq<char>, pad_front: Seq<char>, pad_back: Seq<char>)
    requires
        forall|i: int| 0 <= i < pad_front.len() ==> crate::text::is_ws(#[trigger] pad_front[i]),
        forall|i: int| 0 <= i < pad_back.len() ==> crate::text::is_ws(#[trigger] pad_back[i]),
    ensures
        domain_key(pad_front + d + pad_back) == domain_key(d),
{
    crate::text::lemma_trim_padding(d, pad_front, pad_back);
}

} // verus!
