//! Team accounts with role-based access control.
//!
//! Each team has exactly one owner, optional admins, and members; the
//! privilege order is Owner > Admin > Member. No operation can create a
//! second owner or take the owner out of the team or out of the owner role.

use vstd::prelude::*;
use crate::strmap::StrMap;
use crate::sys::{epoch_secs, is_hex_id, random_id_8};
use crate::text::{push_str, str_eq, to_owned_str};

verus! {

/// Role within a team, ordered by privilege level.
#[derive(Clone, Copy, Debug, PartialEq, Eq, Structural)]
pub enum TeamRole {
    Owner,
    Admin,
    Member,
}

impl TeamRole {
    /// Numeric privilege level (higher is more privileged).
    pub open spec fn level(self) -> u8 {
        match self {
            TeamRole::Owner => 3,
            TeamRole::Admin => 2,
            TeamRole::Member => 1,
        }
    }

    /// The lower-case name of the role.
    pub open spec fn name(self) -> Seq<char> {
        match self {
            TeamRole::Owner => "owner"@,
            TeamRole::Admin => "admin"@,
            TeamRole::Member => "member"@,
        }
    }

    /// Numeric privilege level (higher is more privileged).
    pub fn privilege_level(self) -> (res: u8)
        ensures
            res == self.level(),
    {
        match self {
            TeamRole::Owner => 3,
            TeamRole::Admin => 2,
            TeamRole::Member => 1,
        }
    }

    /// True if this role has at least the privilege of `required`.
    pub fn has_privilege(self, required: Self) -> (res: bool)
        ensures
            res == (self.level() >= required.level()),
    {
        self.privilege_level() >= required.privilege_level()
    }

    /// The lower-case name of the role ("owner", "admin", "member").
    pub fn to_string(&self) -> (res: String)
        ensures
            res@ == self.name(),
    {
        match self {
            TeamRole::Owner => to_owned_str("owner"),
            TeamRole::Admin => to_owned_str("admin"),
            TeamRole::Member => to_owned_str("member"),
        }
    }
}

/// The role a member actually gets when `r` is requested: nobody can be made
/// a second owner, so Owner becomes Admin.
pub open spec fn effective_role(r: TeamRole) -> TeamRole {
    if r == TeamRole::Owner {
        TeamRole::Admin
    } else {
        r
    }
}

/// A member within a team.
#[derive(Debug)]
pub struct TeamMember {
    pub user_id: String,
    pub role: TeamRole,
    pub joined_at: u64,
}

/// A team in the cloud platform.
#[derive(Debug)]
pub struct Team {
    pub id: String,
    pub name: String,
    pub owner_user_id: String,
    pub created_at: u64,
    pub members: Vec<TeamMember>,
}

/// Abstract value of a team member.
pub struct MemberModel {
    pub user_id: Seq<char>,
    pub role: TeamRole,
    pub joined_at: u64,
}

/// Abstract value of a team.
pub struct TeamModel {
    pub id: Seq<char>,
    pub name: Seq<char>,
    pub owner_user_id: Seq<char>,
    pub created_at: u64,
    pub members: Seq<MemberModel>,
}

impl View for TeamMember {
    type V = MemberModel;

    open spec fn view(&self) -> MemberModel {
        MemberModel { user_id: self.user_id@, role: self.role, joined_at: self.joined_at }
    }
}

impl View for Team {
    type V = TeamModel;

    open spec fn view(&self) -> TeamModel {
        TeamModel {
            id: self.id@,
            name: self.name@,
            owner_user_id: self.owner_user_id@,
            created_at: self.created_at,
            members: self.members@.map_values(|m: TeamMember| m@),
        }
    }
}

impl Clone for TeamMember {
    fn clone(&self) -> (res: Self)
        ensures
            res@ == self@,
    {
        TeamMember { user_id: self.user_id.clone(), role: self.role, joined_at: self.joined_at }
    }
}

fn clone_members(ms: &Vec<TeamMember>) -> (res: Vec<TeamMember>)
    ensures
        res@.map_values(|m: TeamMember| m@) == ms@.map_values(|m: TeamMember| m@),
{
    let mut out: Vec<TeamMember> = Vec::new();
    let mut i: usize = 0;
    while i < ms.len()
        invariant
            i <= ms@.len(),
            out@.len() == i,
            forall|j: int| 0 <= j < i ==> (#[trigger] out@[j])@ == ms@[j]@,
        decreases ms@.len() - i,
    {
        out.push(ms[i].clone());
        i = i + 1;
    }
    proof {
        assert(out@.map_values(|m: TeamMember| m@) =~= ms@.map_values(|m: TeamMember| m@));
    }
    out
}

impl Clone for Team {
    fn clone(&self) -> (res: Self)
        ensures
            res@ == self@,
    {
        Team {
            id: self.id.clone(),
            name: self.name.clone(),
            owner_user_id: self.owner_user_id.clone(),
            created_at: self.created_at,
            members: clone_members(&self.members),
        }
    }
}

/// `user` is one of the team's members.
pub open spec fn has_member(t: TeamModel, user: Seq<char>) -> bool {
    exists|i: int| 0 <= i < t.members.len() && (#[trigger] t.members[i]).user_id == user
}

/// `user` is a member whose role is at least `required`.
pub open spec fn grants(t: TeamModel, user: Seq<char>, required: TeamRole) -> bool {
    exists|i: int|
        0 <= i < t.members.len() && (#[trigger] t.members[i]).user_id == user
            && t.members[i].role.level() >= required.level()
}

/// A well-formed team: no user twice, the owner is a member with the Owner
/// role, and nobody else has that role.
pub open spec fn team_valid(t: TeamModel) -> bool {
    &&& forall|i: int, j: int|
        0 <= i < j < t.members.len() ==> (#[trigger] t.members[i]).user_id != (
        #[trigger] t.members[j]).user_id
    &&& exists|i: int|
        0 <= i < t.members.len() && (#[trigger] t.members[i]).user_id == t.owner_user_id
            && t.members[i].role == TeamRole::Owner
    &&& forall|i: int|
        0 <= i < t.members.len() && (#[trigger] t.members[i]).role == TeamRole::Owner
            ==> t.members[i].user_id == t.owner_user_id
}

/// Every team of a store is well-formed and filed under its own id.
pub open spec fn all_valid(m: Map<Seq<char>, TeamModel>) -> bool {
    forall|k: Seq<char>| #[trigger] m.contains_key(k) ==> m[k].id == k && team_valid(m[k])
}

/// The team with `members` replaced.
pub open spec fn with_members(t: TeamModel, members: Seq<MemberModel>) -> TeamModel {
    TeamModel {
        id: t.id,
        name: t.name,
        owner_user_id: t.owner_user_id,
        created_at: t.created_at,
        members,
    }
}

/// The members with `user`'s role set to `role`.
pub open spec fn set_role(ms: Seq<MemberModel>, user: Seq<char>, role: TeamRole) -> Seq<
    MemberModel,
> {
    ms.map_values(
        |m: MemberModel|
            if m.user_id == user {
                MemberModel { user_id: m.user_id, role, joined_at: m.joined_at }
            } else {
                m
            },
    )
}

/// The members without `user`.
pub open spec fn without_user(ms: Seq<MemberModel>, user: Seq<char>) -> Seq<MemberModel> {
    ms.filter(|m: MemberModel| m.user_id != user)
}

/// Errors from team operations.
#[derive(Debug)]
pub enum TeamError {
    TeamNotFound { team_id: String },
    UserNotMember { user_id: String },
    UserAlreadyMember { user_id: String },
    CannotRemoveOwner,
    CannotChangeOwnerRole,
    InsufficientPermission { required: String },
    Storage(String),
}

/// The message of a team error.
pub open spec fn team_error_text(e: TeamError) -> Seq<char> {
    match e {
        TeamError::TeamNotFound { team_id } => "team not found: "@ + team_id@,
        TeamError::UserNotMember { user_id } => "user is not a member: "@ + user_id@,
        TeamError::UserAlreadyMember { user_id } => "user is already a member: "@ + user_id@,
        TeamError::CannotRemoveOwner => "cannot remove the team owner"@,
        TeamError::CannotChangeOwnerRole => "cannot change the owner's role"@,
        TeamError::InsufficientPermission { required } => "insufficient permission, required: "@
            + required@,
        TeamError::Storage(msg) => "storage error: "@ + msg@,
    }
}

impl TeamError {
    /// The human-readable message.
    pub fn to_string(&self) -> (res: String)
        ensures
            res@ == team_error_text(*self),
    {
        let mut s = String::new();
        match self {
            TeamError::TeamNotFound { team_id } => {
                push_str(&mut s, "team not found: ");
                push_str(&mut s, team_id.as_str());
            },
            TeamError::UserNotMember { user_id } => {
                push_str(&mut s, "user is not a member: ");
                push_str(&mut s, user_id.as_str());
            },
            TeamError::UserAlreadyMember { user_id } => {
                push_str(&mut s, "user is already a member: ");
                push_str(&mut s, user_id.as_str());
            },
            TeamError::CannotRemoveOwner => {
                push_str(&mut s, "cannot remove the team owner");
            },
            TeamError::CannotChangeOwnerRole => {
                push_str(&mut s, "cannot change the owner's role");
            },
            TeamError::InsufficientPermission { required } => {
                push_str(&mut s, "insufficient permission, required: ");
                push_str(&mut s, required.as_str());
            },
            TeamError::Storage(msg) => {
                push_str(&mut s, "storage error: ");
                push_str(&mut s, msg.as_str());
            },
        }
        proof {
            assert(s@ =~= team_error_text(*self));
        }
        s
    }
}

/// The position of the first member with id `user`.
fn find_member(ms: &Vec<TeamMember>, user: &str) -> (res: Option<usize>)
    ensures
        match res {
            Some(i) => i < ms@.len() && ms@[i as int].user_id@ == user@ && forall|j: int|
                0 <= j < i ==> ms@[j].user_id@ != user@,
            None => forall|j: int| 0 <= j < ms@.len() ==> ms@[j].user_id@ != user@,
        },
{
    let mut i: usize = 0;
    while i < ms.len()
        invariant
            i <= ms@.len(),
            forall|j: int| 0 <= j < i ==> ms@[j].user_id@ != user@,
        decreases ms@.len() - i,
    {
        if str_eq(ms[i].user_id.as_str(), user) {
            return Some(i);
        }
        i = i + 1;
    }
    None
}

/// Team store.
pub struct TeamStore {
    teams: StrMap<Team>,
}

impl View for TeamStore {
    type V = Map<Seq<char>, TeamModel>;

    closed spec fn view(&self) -> Map<Seq<char>, TeamModel> {
        self.teams@.map_values(|t: Team| t@)
    }
}

impl TeamStore {
    #[verifier::type_invariant]
    closed spec fn inv(self) -> bool {
        &&& self.teams.wf()
        &&& forall|i: int|
            0 <= i < self.teams.key_seq().len() ==> (#[trigger] self.teams.val_seq()[i])@.id
                == self.teams.key_seq()[i] && team_valid(self.teams.val_seq()[i]@)
    }

    proof fn lemma_valid(&self)
        requires
            self.inv(),
        ensures
            all_valid(self@),
    {
        assert forall|k: Seq<char>| #[trigger] self@.contains_key(k) implies self@[k].id == k
            && team_valid(self@[k]) by {
            let j = self.teams.key_seq().index_of(k);
            self.teams.lemma_at(j);
        }
    }

    /// An empty store.
    pub fn new() -> (res: Self)
        ensures
            res@ == Map::<Seq<char>, TeamModel>::empty(),
    {
        let res = TeamStore { teams: StrMap::new() };
        proof {
            assert(res@ =~= Map::<Seq<char>, TeamModel>::empty());
        }
        res
    }

    /// Creates a team; the creator becomes its owner and only member.
    ///
    /// The id is `team_` and the hex of eight random bytes. A team already
    /// filed under the same id is replaced.
    pub fn create_team(&mut self, name: &str, owner_user_id: &str) -> (res: Team)
        ensures
            is_hex_id(res@.id, "team_"@, 8),
            res@.name == name@,
            res@.owner_user_id == owner_user_id@,
            res@.members == seq![
                MemberModel {
                    user_id: owner_user_id@,
                    role: TeamRole::Owner,
                    joined_at: res@.created_at,
                },
            ],
            final(self)@ == old(self)@.insert(res@.id, res@),
            all_valid(final(self)@),
    {
        proof {
            use_type_invariant(&*self);
        }
        let team_id = random_id_8("team_");
        let now = epoch_secs();
        let mut members: Vec<TeamMember> = Vec::new();
        members.push(
            TeamMember { user_id: to_owned_str(owner_user_id), role: TeamRole::Owner, joined_at: now },
        );
        let team = Team {
            id: team_id.clone(),
            name: to_owned_str(name),
            owner_user_id: to_owned_str(owner_user_id),
            created_at: now,
            members,
        };
        let out = team.clone();
        proof {
            assert(team@.members =~= seq![
                MemberModel { user_id: owner_user_id@, role: TeamRole::Owner, joined_at: now },
            ]);
            assert(team_valid(team@)) by {
                assert(team@.members[0].user_id == team@.owner_user_id);
            }
        }
        let ghost old_teams = self.teams;
        let mut teams = StrMap::new();
        std::mem::swap(&mut teams, &mut self.teams);
        teams.insert(team_id, team);
        proof {
            old_teams.lemma_wf();
            teams.lemma_wf();
            assert forall|i: int|
                0 <= i < teams.key_seq().len() implies (#[trigger] teams.val_seq()[i])@.id
                == teams.key_seq()[i] && team_valid(teams.val_seq()[i]@) by {
                if old_teams@.contains_key(out@.id) {
                    old_teams.lemma_at(i);
                    if i != old_teams.key_seq().index_of(out@.id) {
                        assert(teams.val_seq()[i] == old_teams.val_seq()[i]);
                    }
                } else {
                    if i < old_teams.key_seq().len() {
                        assert(teams.val_seq()[i] == old_teams.val_seq()[i]);
                    }
                }
            }
        }
        self.teams = teams;
        proof {
            assert(self@ =~= old(self)@.insert(out@.id, out@));
            self.lemma_valid();
        }
        out
    }

    /// The team with id `team_id`, if any.
    pub fn get_team(&self, team_id: &str) -> (res: Option<Team>)
        ensures
            match res {
                Some(t) => self@.contains_key(team_id@) && t@ == self@[team_id@],
                None => !self@.contains_key(team_id@),
            },
    {
        proof {
            use_type_invariant(self);
        }
        match self.teams.get(team_id) {
            Some(t) => Some(t.clone()),
            None => None,
        }
    }

    /// All teams that `user_id` belongs to, each once.
    pub fn list_teams_for_user(&self, user_id: &str) -> (res: Vec<Team>)
        ensures
            forall|i: int|
                0 <= i < res@.len() ==> self@.contains_key((#[trigger] res@[i])@.id)
                    && self@[res@[i]@.id] == res@[i]@ && has_member(res@[i]@, user_id@),
            forall|k: Seq<char>|
                #[trigger] self@.contains_key(k) && has_member(self@[k], user_id@) ==> exists|
                    i: int,
                | 0 <= i < res@.len() && (#[trigger] res@[i])@.id == k,
            forall|i: int, j: int|
                0 <= i < j < res@.len() ==> (#[trigger] res@[i])@.id != (#[trigger] res@[j])@.id,
    {
        proof {
            use_type_invariant(self);
            self.teams.lemma_wf();
        }
        let mut out: Vec<Team> = Vec::new();
        let ghost mut src: Seq<int> = Seq::empty();
        let n = self.teams.len();
        let mut i: usize = 0;
        while i < n
            invariant
                self.inv(),
                n == self.teams.key_seq().len(),
                i <= n,
                src.len() == out@.len(),
                forall|a: int| 0 <= a < src.len() ==> 0 <= #[trigger] src[a] < i,
                forall|a: int, b: int| 0 <= a < b < src.len() ==> #[trigger] src[a] < #[trigger] src[b],
                forall|a: int|
                    0 <= a < out@.len() ==> (#[trigger] out@[a])@ == self.teams.val_seq()[src[a]]@
                        && has_member(out@[a]@, user_id@),
                forall|j: int|
                    0 <= j < i && has_member(#[trigger] self.teams.val_seq()[j]@, user_id@)
                        ==> exists|a: int| 0 <= a < src.len() && src[a] == j,
            decreases n - i,
        {
            let t = self.teams.val_at(i);
            let ghost prev_src = src;
            match find_member(&t.members, user_id) {
                Some(mi) => {
                    proof {
                        assert(t@.members[mi as int].user_id == user_id@);
                    }
                    out.push(t.clone());
                    proof {
                        src = src.push(i as int);
                        assert(src[src.len() - 1] == i);
                    }
                },
                None => {
                    proof {
                        assert forall|x: int| 0 <= x < t@.members.len() implies (
                        #[trigger] t@.members[x]).user_id != user_id@ by {
                            assert(t@.members[x] == t.members@[x]@);
                        }
                        assert(!has_member(self.teams.val_seq()[i as int]@, user_id@));
                    }
                },
            }
            proof {
                assert forall|j: int|
                    0 <= j < i + 1 && has_member(
                        #[trigger] self.teams.val_seq()[j]@,
                        user_id@,
                    ) implies exists|a: int| 0 <= a < src.len() && src[a] == j by {
                    if j < i {
                        let a = choose|a: int| 0 <= a < prev_src.len() && prev_src[a] == j;
                        assert(src[a] == j);
                    } else {
                        assert(src[src.len() - 1] == j);
                    }
                }
            }
            i = i + 1;
        }
        proof {
            assert forall|a: int| 0 <= a < out@.len() implies self@.contains_key(
                (#[trigger] out@[a])@.id,
            ) && self@[out@[a]@.id] == out@[a]@ && has_member(out@[a]@, user_id@) by {
                self.teams.lemma_at(src[a]);
            }
            assert forall|k: Seq<char>| #[trigger]
                self@.contains_key(k) && has_member(self@[k], user_id@) implies exists|a: int|
                0 <= a < out@.len() && (#[trigger] out@[a])@.id == k by {
                let j = self.teams.key_seq().index_of(k);
                self.teams.lemma_at(j);
                assert(has_member(self.teams.val_seq()[j]@, user_id@));
                let a = choose|a: int| 0 <= a < src.len() && src[a] == j;
                assert(out@[a]@.id == k);
            }
            assert forall|a: int, b: int| 0 <= a < b < out@.len() implies (#[trigger] out@[a])@.id
                != (#[trigger] out@[b])@.id by {
                assert(src[a] < src[b]);
                assert(self.teams.val_seq()[src[a]]@.id == self.teams.key_seq()[src[a]]);
                assert(self.teams.val_seq()[src[b]]@.id == self.teams.key_seq()[src[b]]);
            }
        }
        out
    }
}


/// The members without `user`: no user twice, every one taken from `ms`,
/// every other member kept, and exactly as many as before when `user` was
/// not among them.
proof fn lemma_without_user(ms: Seq<MemberModel>, user: Seq<char>)
    requires
        forall|i: int, j: int|
            0 <= i < j < ms.len() ==> (#[trigger] ms[i]).user_id != (#[trigger] ms[j]).user_id,
    ensures
        forall|i: int, j: int|
            0 <= i < j < without_user(ms, user).len() ==> (#[trigger] without_user(
                ms,
                user,
            )[i]).user_id != (#[trigger] without_user(ms, user)[j]).user_id,
        forall|i: int|
            0 <= i < without_user(ms, user).len() ==> ms.contains(
                #[trigger] without_user(ms, user)[i],
            ) && without_user(ms, user)[i].user_id != user,
        forall|i: int|
            0 <= i < ms.len() && (#[trigger] ms[i]).user_id != user ==> without_user(
                ms,
                user,
            ).contains(ms[i]),
        without_user(ms, user).len() == ms.len() <==> forall|i: int|
            0 <= i < ms.len() ==> (#[trigger] ms[i]).user_id != user,
        without_user(ms, user).len() <= ms.len(),
    decreases ms.len(),
{
    reveal(Seq::filter);
    let f = without_user(ms, user);
    if ms.len() > 0 {
        let init = ms.drop_last();
        let x = ms.last();
        let fi = without_user(init, user);
        lemma_without_user(init, user);
        assert(f == if x.user_id != user {
            fi.push(x)
        } else {
            fi
        });
        assert forall|i: int| 0 <= i < fi.len() implies #[trigger] ms.contains(fi[i]) by {
            assert(init.contains(fi[i]));
            let k = choose|k: int| 0 <= k < init.len() && init[k] == fi[i];
            assert(ms[k] == fi[i]);
        }
        assert forall|i: int| 0 <= i < f.len() implies ms.contains(#[trigger] f[i]) && f[i].user_id
            != user by {
            if i < fi.len() {
                assert(f[i] == fi[i]);
                assert(ms.contains(fi[i]));
            } else {
                assert(ms[ms.len() - 1] == f[i]);
            }
        }
        assert forall|i: int, j: int| 0 <= i < j < f.len() implies (#[trigger] f[i]).user_id != (
        #[trigger] f[j]).user_id by {
            if j < fi.len() {
                assert(f[i] == fi[i] && f[j] == fi[j]);
            } else {
                assert(f[j] == x);
                assert(f[i] == fi[i]);
                assert(init.contains(fi[i]));
                let k = choose|k: int| 0 <= k < init.len() && init[k] == fi[i];
                assert(ms[k] == init[k]);
                assert(ms[ms.len() - 1] == x);
            }
        }
        assert forall|i: int| 0 <= i < ms.len() && (#[trigger] ms[i]).user_id != user implies f.contains(
            ms[i],
        ) by {
            if i < ms.len() - 1 {
                assert(init[i] == ms[i]);
                assert(fi.contains(ms[i]));
                let k = choose|k: int| 0 <= k < fi.len() && fi[k] == ms[i];
                assert(f[k] == ms[i]);
            } else {
                assert(f[f.len() - 1] == ms[i]);
            }
        }
        if forall|i: int| 0 <= i < ms.len() ==> (#[trigger] ms[i]).user_id != user {
            assert forall|i: int| 0 <= i < init.len() implies (#[trigger] init[i]).user_id
                != user by {
                assert(init[i] == ms[i]);
            }
            assert(x.user_id != user);
        } else {
            let i = choose|i: int| 0 <= i < ms.len() && (#[trigger] ms[i]).user_id == user;
            if i < ms.len() - 1 {
                assert(init[i] == ms[i]);
            }
        }
    } else {
        assert(f.len() == 0);
    }
}

impl TeamStore {
    /// Files `t` at position `i`, under its own id.
    fn put_at(&mut self, i: usize, t: Team)
        requires
            i < old(self).teams.key_seq().len(),
            t@.id == old(self).teams.key_seq()[i as int],
            team_valid(t@),
        ensures
            final(self)@ == old(self)@.insert(t@.id, t@),
            all_valid(final(self)@),
    {
        proof {
            use_type_invariant(&*self);
        }
        let ghost tv = t@;
        let ghost old_teams = self.teams;
        let mut teams = StrMap::new();
        std::mem::swap(&mut teams, &mut self.teams);
        teams.set_at(i, t);
        proof {
            old_teams.lemma_wf();
            teams.lemma_wf();
            assert forall|j: int|
                0 <= j < teams.key_seq().len() implies (#[trigger] teams.val_seq()[j])@.id
                == teams.key_seq()[j] && team_valid(teams.val_seq()[j]@) by {
                if j != i {
                    assert(teams.val_seq()[j] == old_teams.val_seq()[j]);
                }
            }
        }
        self.teams = teams;
        proof {
            assert(self@ =~= old(self)@.insert(tv.id, tv));
            self.lemma_valid();
        }
    }

    /// Adds `user_id` to the team with the given role; a requested Owner role
    /// is given as Admin.
    pub fn add_member(&mut self, team_id: &str, user_id: &str, role: TeamRole) -> (res: Result<
        Team,
        TeamError,
    >)
        ensures
            all_valid(final(self)@),
            !old(self)@.contains_key(team_id@) ==> final(self)@ == old(self)@ && (
            res matches Err(TeamError::TeamNotFound { team_id: e }) && e@ == team_id@),
            old(self)@.contains_key(team_id@) && has_member(old(self)@[team_id@], user_id@)
                ==> final(self)@ == old(self)@ && (
            res matches Err(TeamError::UserAlreadyMember { user_id: e }) && e@ == user_id@),
            old(self)@.contains_key(team_id@) && !has_member(old(self)@[team_id@], user_id@)
                ==> (res matches Ok(t) && t@ == with_members(
                old(self)@[team_id@],
                old(self)@[team_id@].members.push(
                    MemberModel {
                        user_id: user_id@,
                        role: effective_role(role),
                        joined_at: t@.members.last().joined_at,
                    },
                ),
            ) && final(self)@ == old(self)@.insert(team_id@, t@)),
            res is Ok ==> grants(final(self)@[team_id@], user_id@, TeamRole::Member),
    {
        proof {
            use_type_invariant(&*self);
            self.lemma_valid();
        }
        let actual = if role == TeamRole::Owner {
            TeamRole::Admin
        } else {
            role
        };
        let i = match self.teams.find(team_id) {
            Some(i) => i,
            None => {
                return Err(TeamError::TeamNotFound { team_id: to_owned_str(team_id) });
            },
        };
        proof {
            self.teams.lemma_at(i as int);
        }
        let t = self.teams.val_at(i);
        match find_member(&t.members, user_id) {
            Some(j) => {
                proof {
                    assert(t@.members[j as int].user_id == user_id@);
                }
                return Err(TeamError::UserAlreadyMember { user_id: to_owned_str(user_id) });
            },
            None => {},
        }
        let ghost tv = t@;
        proof {
            assert forall|x: int| 0 <= x < tv.members.len() implies (#[trigger] tv.members[x]).user_id
                != user_id@ by {
                assert(tv.members[x] == t.members@[x]@);
            }
        }
        let mut nt = t.clone();
        let now = epoch_secs();
        nt.members.push(TeamMember { user_id: to_owned_str(user_id), role: actual, joined_at: now });
        let ghost nm = MemberModel { user_id: user_id@, role: actual, joined_at: now };
        proof {
            assert(nt@.members =~= tv.members.push(nm));
            assert(nt@ == with_members(tv, tv.members.push(nm)));
            let ms = nt@.members;
            assert forall|a: int, b: int| 0 <= a < b < ms.len() implies (#[trigger] ms[a]).user_id
                != (#[trigger] ms[b]).user_id by {
                if b == ms.len() - 1 {
                    assert(ms[a] == tv.members[a]);
                } else {
                    assert(ms[a] == tv.members[a] && ms[b] == tv.members[b]);
                }
            }
            let w = choose|x: int|
                0 <= x < tv.members.len() && (#[trigger] tv.members[x]).user_id == tv.owner_user_id
                    && tv.members[x].role == TeamRole::Owner;
            assert(ms[w] == tv.members[w]);
            assert forall|x: int|
                0 <= x < ms.len() && (#[trigger] ms[x]).role == TeamRole::Owner implies ms[x].user_id
                == tv.owner_user_id by {
                if x < tv.members.len() {
                    assert(ms[x] == tv.members[x]);
                }
            }
            assert(team_valid(nt@));
            assert(ms[ms.len() - 1] == nm);
        }
        let out = nt.clone();
        self.put_at(i, nt);
        proof {
            assert(out@.members[out@.members.len() - 1] == nm);
        }
        Ok(out)
    }

    /// Removes `user_id` from the team. The owner cannot be removed.
    pub fn remove_member(&mut self, team_id: &str, user_id: &str) -> (res: Result<
        Team,
        TeamError,
    >)
        ensures
            all_valid(final(self)@),
            !old(self)@.contains_key(team_id@) ==> final(self)@ == old(self)@ && (
            res matches Err(TeamError::TeamNotFound { team_id: e }) && e@ == team_id@),
            old(self)@.contains_key(team_id@) && old(self)@[team_id@].owner_user_id == user_id@
                ==> final(self)@ == old(self)@ && res matches Err(TeamError::CannotRemoveOwner),
            old(self)@.contains_key(team_id@) && old(self)@[team_id@].owner_user_id != user_id@
                && !has_member(old(self)@[team_id@], user_id@) ==> final(self)@ == old(self)@ && (
            res matches Err(TeamError::UserNotMember { user_id: e }) && e@ == user_id@),
            old(self)@.contains_key(team_id@) && old(self)@[team_id@].owner_user_id != user_id@
                && has_member(old(self)@[team_id@], user_id@) ==> (res matches Ok(t) && t@
                == with_members(
                old(self)@[team_id@],
                without_user(old(self)@[team_id@].members, user_id@),
            ) && final(self)@ == old(self)@.insert(team_id@, t@)),
            res is Ok ==> !has_member(final(self)@[team_id@], user_id@),
    {
        proof {
            use_type_invariant(&*self);
            self.lemma_valid();
        }
        let i = match self.teams.find(team_id) {
            Some(i) => i,
            None => {
                return Err(TeamError::TeamNotFound { team_id: to_owned_str(team_id) });
            },
        };
        proof {
            self.teams.lemma_at(i as int);
        }
        let t = self.teams.val_at(i);
        let ghost tv = t@;
        if str_eq(t.owner_user_id.as_str(), user_id) {
            return Err(TeamError::CannotRemoveOwner);
        }
        let mut kept: Vec<TeamMember> = Vec::new();
        let mut j: usize = 0;
        while j < t.members.len()
            invariant
                j <= t.members@.len(),
                tv == t@,
                kept@.map_values(|m: TeamMember| m@) == without_user(
                    tv.members.take(j as int),
                    user_id@,
                ),
            decreases t.members@.len() - j,
        {
            let m = &t.members[j];
            proof {
                assert(tv.members.take(j + 1) =~= tv.members.take(j as int).push(tv.members[j as int]));
                tv.members.take(j as int).lemma_filter_push(
                    tv.members[j as int],
                    |m: MemberModel| m.user_id != user_id@,
                );
            }
            if !str_eq(m.user_id.as_str(), user_id) {
                let ghost before = kept@;
                kept.push(m.clone());
                proof {
                    assert(kept@.map_values(|m: TeamMember| m@) =~= before.map_values(
                        |m: TeamMember| m@,
                    ).push(m@));
                }
            }
            j = j + 1;
        }
        proof {
            assert(tv.members.take(tv.members.len() as int) =~= tv.members);
            lemma_without_user(tv.members, user_id@);
        }
        if kept.len() == t.members.len() {
            proof {
                assert(!has_member(tv, user_id@));
            }
            return Err(TeamError::UserNotMember { user_id: to_owned_str(user_id) });
        }
        let nt = Team {
            id: t.id.clone(),
            name: t.name.clone(),
            owner_user_id: t.owner_user_id.clone(),
            created_at: t.created_at,
            members: kept,
        };
        proof {
            let ms = nt@.members;
            let w = choose|x: int|
                0 <= x < tv.members.len() && (#[trigger] tv.members[x]).user_id == tv.owner_user_id
                    && tv.members[x].role == TeamRole::Owner;
            assert(without_user(tv.members, user_id@).contains(tv.members[w]));
            assert forall|x: int|
                0 <= x < ms.len() && (#[trigger] ms[x]).role == TeamRole::Owner implies ms[x].user_id
                == tv.owner_user_id by {
                assert(tv.members.contains(ms[x]));
            }
            assert(team_valid(nt@));
            assert(has_member(tv, user_id@));
            assert forall|x: int| 0 <= x < ms.len() implies (#[trigger] ms[x]).user_id != user_id@ by {
                assert(ms[x] == without_user(tv.members, user_id@)[x]);
            }
        }
        let out = nt.clone();
        self.put_at(i, nt);
        Ok(out)
    }

    /// Changes the role of `user_id`; a requested Owner role is given as
    /// Admin. The owner's own role cannot be changed.
    pub fn update_role(&mut self, team_id: &str, user_id: &str, role: TeamRole) -> (res: Result<
        Team,
        TeamError,
    >)
        ensures
            all_valid(final(self)@),
            !old(self)@.contains_key(team_id@) ==> final(self)@ == old(self)@ && (
            res matches Err(TeamError::TeamNotFound { team_id: e }) && e@ == team_id@),
            old(self)@.contains_key(team_id@) && old(self)@[team_id@].owner_user_id == user_id@
                ==> final(self)@ == old(self)@ && res matches Err(TeamError::CannotChangeOwnerRole),
            old(self)@.contains_key(team_id@) && old(self)@[team_id@].owner_user_id != user_id@
                && !has_member(old(self)@[team_id@], user_id@) ==> final(self)@ == old(self)@ && (
            res matches Err(TeamError::UserNotMember { user_id: e }) && e@ == user_id@),
            old(self)@.contains_key(team_id@) && old(self)@[team_id@].owner_user_id != user_id@
                && has_member(old(self)@[team_id@], user_id@) ==> (res matches Ok(t) && t@
                == with_members(
                old(self)@[team_id@],
                set_role(old(self)@[team_id@].members, user_id@, effective_role(role)),
            ) && final(self)@ == old(self)@.insert(team_id@, t@)),
    {
        proof {
            use_type_invariant(&*self);
            self.lemma_valid();
        }
        let actual = if role == TeamRole::Owner {
            TeamRole::Admin
        } else {
            role
        };
        let i = match self.teams.find(team_id) {
            Some(i) => i,
            None => {
                return Err(TeamError::TeamNotFound { team_id: to_owned_str(team_id) });
            },
        };
        proof {
            self.teams.lemma_at(i as int);
        }
        let t = self.teams.val_at(i);
        let ghost tv = t@;
        if str_eq(t.owner_user_id.as_str(), user_id) {
            return Err(TeamError::CannotChangeOwnerRole);
        }
        let j = match find_member(&t.members, user_id) {
            Some(j) => j,
            None => {
                proof {
                    assert forall|x: int| 0 <= x < tv.members.len() implies (
                    #[trigger] tv.members[x]).user_id != user_id@ by {
                        assert(tv.members[x] == t.members@[x]@);
                    }
                }
                return Err(TeamError::UserNotMember { user_id: to_owned_str(user_id) });
            },
        };
        let mut nt = t.clone();
        let nm = TeamMember {
            user_id: t.members[j].user_id.clone(),
            role: actual,
            joined_at: t.members[j].joined_at,
        };
        nt.members.set(j, nm);
        proof {
            let ms = nt@.members;
            let target = set_role(tv.members, user_id@, actual);
            assert(tv.members[j as int].user_id == user_id@);
            assert forall|x: int| 0 <= x < ms.len() implies #[trigger] ms[x] == target[x] by {
                if x != j {
                    assert(ms[x] == tv.members[x]);
                    assert(tv.members[x].user_id != tv.members[j as int].user_id);
                }
            }
            assert(ms =~= target);
            assert forall|a: int, b: int| 0 <= a < b < ms.len() implies (#[trigger] ms[a]).user_id
                != (#[trigger] ms[b]).user_id by {
                assert(ms[a].user_id == tv.members[a].user_id);
                assert(ms[b].user_id == tv.members[b].user_id);
            }
            let w = choose|x: int|
                0 <= x < tv.members.len() && (#[trigger] tv.members[x]).user_id == tv.owner_user_id
                    && tv.members[x].role == TeamRole::Owner;
            assert(ms[w] == tv.members[w]);
            assert forall|x: int|
                0 <= x < ms.len() && (#[trigger] ms[x]).role == TeamRole::Owner implies ms[x].user_id
                == tv.owner_user_id by {
                if x != j {
                    assert(ms[x] == tv.members[x]);
                }
            }
            assert(team_valid(nt@));
        }
        let out = nt.clone();
        self.put_at(i, nt);
        Ok(out)
    }

    /// Whether `user_id` is a member of the team with at least `required_role`.
    pub fn check_permission(&self, team_id: &str, user_id: &str, required_role: TeamRole) -> (res:
        bool)
        ensures
            res == (self@.contains_key(team_id@) && grants(
                self@[team_id@],
                user_id@,
                required_role,
            )),
    {
        proof {
            use_type_invariant(self);
            self.lemma_valid();
        }
        match self.teams.get(team_id) {
            None => false,
            Some(t) => {
                let ghost tv = t@;
                match find_member(&t.members, user_id) {
                    None => {
                        proof {
                            assert forall|x: int| 0 <= x < tv.members.len() implies (
                            #[trigger] tv.members[x]).user_id != user_id@ by {
                                assert(tv.members[x] == t.members@[x]@);
                            }
                        }
                        false
                    },
                    Some(j) => {
                        proof {
                            assert(tv.members[j as int] == t.members@[j as int]@);
                            assert forall|x: int|
                                0 <= x < tv.members.len() && (#[trigger] tv.members[x]).user_id
                                    == user_id@ implies x == j by {
                                if x != j {
                                    assert(tv.members[x].user_id != tv.members[j as int].user_id);
                                }
                            }
                        }
                        t.members[j].role.has_privilege(required_role)
                    },
                }
            },
        }
    }
}

/// The privilege order: reflexive, transitive and total; Owner has every
/// privilege, a plain Member only its own, and two roles with the same
/// privilege are the same role.
pub proof fn law_privilege_order(a: TeamRole, b: TeamRole, c: TeamRole)
    ensures
        a.level() >= a.level(),
        a.level() >= b.level() && b.level() >= c.level() ==> a.level() >= c.level(),
        a.level() >= b.level() || b.level() >= a.level(),
        TeamRole::Owner.level() >= a.level(),
        TeamRole::Member.level() >= a.level() ==> a == TeamRole::Member,
        a.level() == b.level() ==> a == b,
{
}

/// In every team of a store that the operations keep, the owner has every
/// privilege and nobody else has the owner's.
pub proof fn law_owner_unique(
    m: Map<Seq<char>, TeamModel>,
    team_id: Seq<char>,
    user: Seq<char>,
    required: TeamRole,
)
    requires
        all_valid(m),
        m.contains_key(team_id),
    ensures
        grants(m[team_id], m[team_id].owner_user_id, required),
        grants(m[team_id], user, TeamRole::Owner) ==> user == m[team_id].owner_user_id,
{
    let t = m[team_id];
    let w = choose|x: int|
        0 <= x < t.members.len() && (#[trigger] t.members[x]).user_id == t.owner_user_id
            && t.members[x].role == TeamRole::Owner;
    assert(t.members[w].role.level() >= required.level());
}

} // verus!
