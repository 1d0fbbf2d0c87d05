//! API key authentication for the cloud platform.
//!
//! Keys have the form `wg_live_<32 hex chars>`. Only the SHA-256 hash of a
//! key is stored; the raw key is handed out once, at registration.

use vstd::prelude::*;
use crate::strmap::StrMap;
use crate::sys::{epoch_secs, hash_secret, is_hex_id, key_digest, random_id_16, random_id_8};
use crate::text::{ascii_lower, chars_of, string_of, to_ascii_lower, to_owned_str};

verus! {

/// Resource quotas per user.
#[derive(Clone, Copy, Debug, PartialEq, Eq, Structural)]
pub struct UserQuota {
    pub max_deployments: u32,
    pub max_instances_per_deployment: u32,
    pub max_wasm_size_bytes: u64,
    pub max_memory_per_instance_bytes: u64,
    pub max_request_rate: u32,
}

/// The beta quota: 3 deployments of at most 5 instances, 10 MB components,
/// 256 MB per instance, 100 requests per second.
pub open spec fn beta_quota() -> UserQuota {
    UserQuota {
        max_deployments: 3,
        max_instances_per_deployment: 5,
        max_wasm_size_bytes: 10485760,
        max_memory_per_instance_bytes: 268435456,
        max_request_rate: 100,
    }
}

impl Default for UserQuota {
    fn default() -> (res: Self)
        ensures
            res == beta_quota(),
    {
        UserQuota {
            max_deployments: 3,
            max_instances_per_deployment: 5,
            max_wasm_size_bytes: 10 * 1024 * 1024,
            max_memory_per_instance_bytes: 256 * 1024 * 1024,
            max_request_rate: 100,
        }
    }
}

/// A registered user.
#[derive(Debug)]
pub struct User {
    pub id: String,
    pub email: String,
    pub namespace: String,
    pub created_at: u64,
    pub quota: UserQuota,
}

/// Abstract value of a user.
pub struct UserModel {
    pub id: Seq<char>,
    pub email: Seq<char>,
    pub namespace: Seq<char>,
    pub created_at: u64,
    pub quota: UserQuota,
}

impl View for User {
    type V = UserModel;

    open spec fn view(&self) -> UserModel {
        UserModel {
            id: self.id@,
            email: self.email@,
            namespace: self.namespace@,
            created_at: self.created_at,
            quota: self.quota,
        }
    }
}

impl Clone for User {
    fn clone(&self) -> (res: Self)
        ensures
            res@ == self@,
    {
        User {
            id: self.id.clone(),
            email: self.email.clone(),
            namespace: self.namespace.clone(),
            created_at: self.created_at,
            quota: self.quota,
        }
    }
}

/// Whether a character is alphabetic or numeric in the Unicode sense.
pub uninterp spec fn alphanumeric(c: char) -> bool;

/// `char::is_alphanumeric`.
///
/// Trusted: calls `char::is_alphanumeric`, whose Unicode tables are named
/// `alphanumeric` and not spelled out; of an ASCII character it states what
/// std documents: exactly the letters and digits are alphanumeric.
#[verifier::external_body]
fn is_alphanumeric(c: char) -> (res: bool)
    ensures
        res == alphanumeric(c),
        (c as u32) < 128 ==> res == ((65 <= (c as u32) <= 90) || (97 <= (c as u32) <= 122) || (48
            <= (c as u32) <= 57)),
{
    c.is_alphanumeric()
}

/// The part of an e-mail address before its first `@` (all of it if none).
pub open spec fn local_part(email: Seq<char>) -> Seq<char> {
    if email.contains('@') {
        email.take(email.index_of_first('@').unwrap())
    } else {
        email
    }
}

/// `s` without leading and trailing `-`.
pub open spec fn trim_dashes(s: Seq<char>) -> Seq<char>
    decreases s.len(),
{
    if s.len() > 0 && s[0] == '-' {
        trim_dashes(s.drop_first())
    } else if s.len() > 0 && s.last() == '-' {
        trim_dashes(s.drop_last())
    } else {
        s
    }
}

/// One character of a namespace: an alphanumeric character with its ASCII
/// letters lower-cased, any other character as `-`.
pub open spec fn namespace_char(c: char) -> char {
    if alphanumeric(c) {
        ascii_lower(c)
    } else {
        '-'
    }
}

/// The local part with every character mapped by `namespace_char`.
pub open spec fn dashed(local: Seq<char>) -> Seq<char> {
    local.map_values(|c: char| namespace_char(c))
}

/// The namespace of an e-mail address: its local part with every character
/// that is not alphanumeric turned into `-` and every ASCII letter
/// lower-cased, without leading and trailing `-`.
pub open spec fn email_namespace(email: Seq<char>) -> Seq<char> {
    trim_dashes(dashed(local_part(email)))
}

/// Whether a character is an ASCII upper-case letter.
pub open spec fn ascii_upper(c: char) -> bool {
    'A' <= c && c <= 'Z'
}

/// What is left after trimming starts and ends with something other than
/// `-`.
pub proof fn lemma_trim_dashes_ends(s: Seq<char>)
    ensures
        trim_dashes(s).len() > 0 ==> trim_dashes(s)[0] != '-' && trim_dashes(s).last() != '-',
    decreases s.len(),
{
    if s.len() > 0 && s[0] == '-' {
        lemma_trim_dashes_ends(s.drop_first());
    } else if s.len() > 0 && s.last() == '-' {
        lemma_trim_dashes_ends(s.drop_last());
    }
}

/// Trimming keeps a contiguous part of the sequence.
pub proof fn lemma_trim_dashes_within(s: Seq<char>)
    ensures
        exists|a: int, b: int| 0 <= a <= b <= s.len() && trim_dashes(s) == s.subrange(a, b),
    decreases s.len(),
{
    if s.len() > 0 && s[0] == '-' {
        lemma_trim_dashes_within(s.drop_first());
        let (a, b) = choose|a: int, b: int|
            0 <= a <= b <= s.drop_first().len() && trim_dashes(s.drop_first())
                == s.drop_first().subrange(a, b);
        assert(s.drop_first().subrange(a, b) =~= s.subrange(a + 1, b + 1));
    } else if s.len() > 0 && s.last() == '-' {
        lemma_trim_dashes_within(s.drop_last());
        let (a, b) = choose|a: int, b: int|
            0 <= a <= b <= s.drop_last().len() && trim_dashes(s.drop_last())
                == s.drop_last().subrange(a, b);
        assert(s.drop_last().subrange(a, b) =~= s.subrange(a, b));
    } else {
        assert(s.subrange(0, s.len() as int) =~= s);
    }
}

/// A namespace made from an e-mail address neither starts nor ends with
/// `-`, holds no ASCII upper-case letter, and each of its characters is `-`
/// or an alphanumeric character of the local part with its ASCII letters
/// lower-cased.
pub proof fn law_namespace_shape(email: Seq<char>)
    ensures
        email_namespace(email).len() > 0 ==> email_namespace(email)[0] != '-'
            && email_namespace(email).last() != '-',
        forall|i: int|
            0 <= i < email_namespace(email).len() ==> !ascii_upper(
                #[trigger] email_namespace(email)[i],
            ),
        forall|i: int|
            0 <= i < email_namespace(email).len() ==> email_namespace(email)[i] == '-' || exists|
                j: int,
            |
                0 <= j < local_part(email).len() && alphanumeric(#[trigger] local_part(email)[j])
                    && email_namespace(email)[i] == ascii_lower(local_part(email)[j]),
{
    let d = dashed(local_part(email));
    lemma_trim_dashes_ends(d);
    lemma_trim_dashes_within(d);
    let (a, b) = choose|a: int, b: int| 0 <= a <= b <= d.len() && trim_dashes(d) == d.subrange(a, b);
    assert forall|i: int| 0 <= i < email_namespace(email).len() implies !ascii_upper(
        #[trigger] email_namespace(email)[i],
    ) && (email_namespace(email)[i] == '-' || exists|j: int|
        0 <= j < local_part(email).len() && alphanumeric(#[trigger] local_part(email)[j])
            && email_namespace(email)[i] == ascii_lower(local_part(email)[j])) by {
        assert(email_namespace(email)[i] == d[a + i]);
        let c = local_part(email)[a + i];
        if alphanumeric(c) {
            assert(!ascii_upper(ascii_lower(c)));
        }
    }
}

/// Converts an e-mail address to a namespace.
pub fn email_to_namespace(email: &str) -> (res: String)
    ensures
        res@ == email_namespace(email@),
        res@.len() > 0 ==> res@[0] != '-' && res@.last() != '-',
        forall|i: int| 0 <= i < res@.len() ==> !ascii_upper(#[trigger] res@[i]),
        forall|i: int| 0 <= i < res@.len() ==> alphanumeric(#[trigger] res@[i]) || res@[i] == '-',
{
    let cs = chars_of(email);
    let mut end: usize = 0;
    while end < cs.len() && cs[end] != '@'
        invariant
            end <= cs@.len(),
            forall|k: int| 0 <= k < end ==> cs@[k] != '@',
        decreases cs@.len() - end,
    {
        end = end + 1;
    }
    proof {
        if end < cs@.len() {
            cs@.index_of_first_ensures('@');
            assert(cs@.contains('@'));
            let f = cs@.index_of_first('@').unwrap();
            assert(f == end);
        } else {
            cs@.index_of_first_ensures('@');
            assert(cs@.take(end as int) =~= cs@);
        }
    }
    let ghost local = local_part(email@);
    let mut mapped: Vec<char> = Vec::new();
    let mut i: usize = 0;
    while i < end
        invariant
            end <= cs@.len(),
            local == cs@.take(end as int),
            i <= end,
            mapped@ == dashed(local.take(i as int)),
            forall|k: int|
                0 <= k < mapped@.len() ==> !ascii_upper(#[trigger] mapped@[k]) && (alphanumeric(
                    mapped@[k],
                ) || mapped@[k] == '-'),
        decreases end - i,
    {
        let c = cs[i];
        let m = if is_alphanumeric(c) {
            let l = to_ascii_lower(c);
            // The lowered letter is alphanumeric as well.
            let _ = is_alphanumeric(l);
            proof {
                assert(!ascii_upper(l));
            }
            l
        } else {
            '-'
        };
        mapped.push(m);
        proof {
            assert(local.take(i + 1) =~= local.take(i as int).push(c));
            assert(mapped@ =~= dashed(local.take(i + 1)));
        }
        i = i + 1;
    }
    proof {
        assert(local.take(end as int) =~= local);
    }
    let ghost full = mapped@;
    proof {
        assert(full.subrange(0, full.len() as int) =~= full);
    }
    let mut a: usize = 0;
    let mut b: usize = mapped.len();
    while a < b && (mapped[a] == '-' || mapped[b - 1] == '-')
        invariant
            a <= b <= mapped@.len(),
            full == mapped@,
            trim_dashes(full) == trim_dashes(mapped@.subrange(a as int, b as int)),
        decreases b - a,
    {
        let ghost sub = mapped@.subrange(a as int, b as int);
        if mapped[a] == '-' {
            proof {
                assert(sub.drop_first() =~= mapped@.subrange(a + 1, b as int));
            }
            a = a + 1;
        } else {
            proof {
                assert(sub.drop_last() =~= mapped@.subrange(a as int, b - 1));
            }
            b = b - 1;
        }
    }
    proof {
        let sub = mapped@.subrange(a as int, b as int);
        assert(trim_dashes(sub) == sub);
        lemma_trim_dashes_ends(full);
    }
    string_of(&mapped, a, b)
}

/// Auth store: users by key hash and by id.
pub struct AuthStore {
    keys: StrMap<User>,
    users: StrMap<User>,
}

impl AuthStore {
    #[verifier::type_invariant]
    closed spec fn inv(self) -> bool {
        self.keys.wf() && self.users.wf()
    }

    /// The users by the hash of their API key.
    pub closed spec fn by_key(&self) -> Map<Seq<char>, UserModel> {
        self.keys@.map_values(|u: User| u@)
    }

    /// The users by id.
    pub closed spec fn by_id(&self) -> Map<Seq<char>, UserModel> {
        self.users@.map_values(|u: User| u@)
    }

    /// The user that the raw key `raw` authenticates, if any.
    pub open spec fn user_for_key(&self, raw: Seq<char>) -> Option<UserModel> {
        if self.by_key().contains_key(key_digest(raw)) {
            Some(self.by_key()[key_digest(raw)])
        } else {
            None
        }
    }

    /// An empty store.
    pub fn new() -> (res: Self)
        ensures
            res.by_key() == Map::<Seq<char>, UserModel>::empty(),
            res.by_id() == Map::<Seq<char>, UserModel>::empty(),
    {
        let res = AuthStore { keys: StrMap::new(), users: StrMap::new() };
        proof {
            assert(res.by_key() =~= Map::<Seq<char>, UserModel>::empty());
            assert(res.by_id() =~= Map::<Seq<char>, UserModel>::empty());
        }
        res
    }

    /// Registers a new user and returns the raw API key (shown once) with
    /// the user. The key then authenticates the user.
    pub fn register(&mut self, email: &str) -> (res: (String, User))
        ensures
            is_hex_id(res.0@, "wg_live_"@, 16),
            res.0@.len() == 40,
            is_hex_id(res.1@.id, "usr_"@, 8),
            res.1@.email == email@,
            res.1@.namespace == email_namespace(email@),
            res.1@.quota == beta_quota(),
            final(self).by_key() == old(self).by_key().insert(key_digest(res.0@), res.1@),
            final(self).by_id() == old(self).by_id().insert(res.1@.id, res.1@),
            final(self).user_for_key(res.0@) == Some(res.1@),
    {
        proof {
            use_type_invariant(&*self);
            reveal_strlit("wg_live_");
        }
        let raw_key = random_id_16("wg_live_");
        let key_hash = hash_secret(raw_key.as_str());
        let user_id = random_id_8("usr_");
        let user = User {
            id: user_id.clone(),
            email: to_owned_str(email),
            namespace: email_to_namespace(email),
            created_at: epoch_secs(),
            quota: UserQuota::default(),
        };
        let ghost uv = user@;
        let ghost hv = key_hash@;
        let ghost iv = user_id@;
        let mut keys = StrMap::new();
        std::mem::swap(&mut keys, &mut self.keys);
        keys.insert(key_hash, user.clone());
        self.keys = keys;
        let mut users = StrMap::new();
        std::mem::swap(&mut users, &mut self.users);
        users.insert(user_id, user.clone());
        self.users = users;
        proof {
            assert(self.by_key() =~= old(self).by_key().insert(hv, uv));
            assert(self.by_id() =~= old(self).by_id().insert(iv, uv));
        }
        (raw_key, user)
    }

    /// Same as `register`.
    pub fn register_sync(&mut self, email: &str) -> (res: (String, User))
        ensures
            is_hex_id(res.0@, "wg_live_"@, 16),
            res.0@.len() == 40,
            is_hex_id(res.1@.id, "usr_"@, 8),
            res.1@.email == email@,
            res.1@.namespace == email_namespace(email@),
            res.1@.quota == beta_quota(),
            final(self).by_key() == old(self).by_key().insert(key_digest(res.0@), res.1@),
            final(self).by_id() == old(self).by_id().insert(res.1@.id, res.1@),
            final(self).user_for_key(res.0@) == Some(res.1@),
    {
        self.register(email)
    }

    /// The user that `raw_key` authenticates, if any.
    pub fn validate(&self, raw_key: &str) -> (res: Option<User>)
        ensures
            match res {
                Some(u) => self.user_for_key(raw_key@) == Some(u@),
                None => self.user_for_key(raw_key@) is None,
            },
    {
        proof {
            use_type_invariant(self);
        }
        let h = hash_secret(raw_key);
        match self.keys.get(h.as_str()) {
            Some(u) => Some(u.clone()),
            None => None,
        }
    }

    /// Same as `validate`.
    pub fn validate_sync(&self, raw_key: &str) -> (res: Option<User>)
        ensures
            match res {
                Some(u) => self.user_for_key(raw_key@) == Some(u@),
                None => self.user_for_key(raw_key@) is None,
            },
    {
        self.validate(raw_key)
    }

    /// The user with id `user_id`, if any.
    pub fn get_user(&self, user_id: &str) -> (res: Option<User>)
        ensures
            match res {
                Some(u) => self.by_id().contains_key(user_id@) && u@ == self.by_id()[user_id@],
                None => !self.by_id().contains_key(user_id@),
            },
    {
        proof {
            use_type_invariant(self);
        }
        match self.users.get(user_id) {
            Some(u) => Some(u.clone()),
            None => None,
        }
    }
}

/// The stored form of an API key: hex of its SHA-256.
pub fn hash_key(raw_key: &str) -> (res: String)
    ensures
        res@ == key_digest(raw_key@),
        res@.len() == 64,
{
    hash_secret(raw_key)
}

} // verus!
