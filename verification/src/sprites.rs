//! Sprites — lightweight Linux workspaces — and the transitions of their
//! lifecycle that the API allows.
//!
//! A new sprite is Creating. A Paused or Sleeping sprite can be woken (it
//! then runs again); a Running or Paused one can be put to sleep (it then
//! gives up its node) or checkpointed; commands run only in a Running one.
//! Any other request is refused with 409 and leaves the sprite as it was.

use vstd::prelude::*;
use crate::cloud_api::ApiError;
use crate::text::{dec, push_dec, push_str, to_owned_str};

verus! {

/// Where a sprite is in its lifecycle.
#[derive(Clone, Copy, Debug, PartialEq, Eq, Structural)]
pub enum SpriteStatus {
    Creating,
    Running,
    Paused,
    Sleeping,
}

/// A sprite as the state store records it.
#[derive(Debug)]
pub struct SpriteSpec {
    pub id: String,
    pub owner: String,
    pub name: String,
    pub image_version: String,
    pub storage_url: String,
    pub checkpoint_id: Option<String>,
    pub status: SpriteStatus,
    pub node_id: Option<String>,
    pub created_at: u64,
    pub last_active_at: u64,
}

/// The name of a status, as `Debug` prints it.
pub open spec fn status_text(s: SpriteStatus) -> Seq<char> {
    match s {
        SpriteStatus::Creating => "Creating"@,
        SpriteStatus::Running => "Running"@,
        SpriteStatus::Paused => "Paused"@,
        SpriteStatus::Sleeping => "Sleeping"@,
    }
}

fn status_name(s: SpriteStatus) -> (res: &'static str)
    ensures
        res@ == status_text(s),
{
    match s {
        SpriteStatus::Creating => "Creating",
        SpriteStatus::Running => "Running",
        SpriteStatus::Paused => "Paused",
        SpriteStatus::Sleeping => "Sleeping",
    }
}

/// The refusal of a transition: `cannot {action} sprite in {status} state`.
pub open spec fn refusal_text(action: Seq<char>, s: SpriteStatus) -> Seq<char> {
    "cannot "@ + action + " sprite in "@ + status_text(s) + " state"@
}

fn refusal(action: &str, s: SpriteStatus) -> (res: ApiError)
    ensures
        res.status == 409,
        res.message@ == refusal_text(action@, s),
{
    let mut m = String::new();
    push_str(&mut m, "cannot ");
    push_str(&mut m, action);
    push_str(&mut m, " sprite in ");
    push_str(&mut m, status_name(s));
    push_str(&mut m, " state");
    proof {
        assert(m@ =~= refusal_text(action@, s));
    }
    ApiError { status: 409, message: m }
}

/// The id of a sprite created at time `now`: `sprite-{now}`.
pub open spec fn sprite_id_text(now: u64) -> Seq<char> {
    "sprite-"@ + dec(now as nat)
}

/// A sprite created at time `now` for `owner`: Creating, from the latest
/// image, with no storage, checkpoint or node yet.
pub fn new_sprite(owner: &str, name: &str, now: u64) -> (res: SpriteSpec)
    ensures
        res.id@ == sprite_id_text(now),
        res.owner@ == owner@,
        res.name@ == name@,
        res.image_version@ == "latest"@,
        res.storage_url@.len() == 0,
        res.checkpoint_id is None,
        res.status == SpriteStatus::Creating,
        res.node_id is None,
        res.created_at == now,
        res.last_active_at == now,
{
    let mut id = String::new();
    push_str(&mut id, "sprite-");
    push_dec(&mut id, now);
    SpriteSpec {
        id,
        owner: to_owned_str(owner),
        name: to_owned_str(name),
        image_version: to_owned_str("latest"),
        storage_url: String::new(),
        checkpoint_id: None,
        status: SpriteStatus::Creating,
        node_id: None,
        created_at: now,
        last_active_at: now,
    }
}

/// Whether a sprite in status `s` can be woken.
pub open spec fn can_wake(s: SpriteStatus) -> bool {
    s == SpriteStatus::Paused || s == SpriteStatus::Sleeping
}

/// Whether a sprite in status `s` can be put to sleep or checkpointed.
pub open spec fn can_sleep(s: SpriteStatus) -> bool {
    s == SpriteStatus::Running || s == SpriteStatus::Paused
}

/// Wakes a sprite at time `now`: a Paused or Sleeping sprite runs again and
/// was last active now; any other is refused, unchanged.
pub fn wake(spec: &mut SpriteSpec, now: u64) -> (res: Result<(), ApiError>)
    ensures
        can_wake(old(spec).status) ==> res is Ok && final(spec).status == SpriteStatus::Running
            && final(spec).last_active_at == now && final(spec).id == old(spec).id
            && final(spec).owner == old(spec).owner && final(spec).name == old(spec).name
            && final(spec).node_id == old(spec).node_id && final(spec).checkpoint_id == old(
            spec,
        ).checkpoint_id && final(spec).created_at == old(spec).created_at,
        !can_wake(old(spec).status) ==> *final(spec) == *old(spec) && (res matches Err(e)
            && e.status == 409 && e.message@ == refusal_text("wake"@, old(spec).status)),
{
    if spec.status != SpriteStatus::Paused && spec.status != SpriteStatus::Sleeping {
        return Err(refusal("wake", spec.status));
    }
    spec.status = SpriteStatus::Running;
    spec.last_active_at = now;
    Ok(())
}

/// Puts a sprite to sleep: a Running or Paused sprite sleeps and gives up
/// its node; any other is refused, unchanged.
pub fn sleep(spec: &mut SpriteSpec) -> (res: Result<(), ApiError>)
    ensures
        can_sleep(old(spec).status) ==> res is Ok && final(spec).status == SpriteStatus::Sleeping
            && final(spec).node_id is None && final(spec).id == old(spec).id && final(spec).owner
            == old(spec).owner && final(spec).name == old(spec).name && final(spec).last_active_at
            == old(spec).last_active_at && final(spec).checkpoint_id == old(spec).checkpoint_id
            && final(spec).created_at == old(spec).created_at,
        !can_sleep(old(spec).status) ==> *final(spec) == *old(spec) && (res matches Err(e)
            && e.status == 409 && e.message@ == refusal_text("sleep"@, old(spec).status)),
{
    if spec.status != SpriteStatus::Running && spec.status != SpriteStatus::Paused {
        return Err(refusal("sleep", spec.status));
    }
    spec.status = SpriteStatus::Sleeping;
    spec.node_id = None;
    Ok(())
}

/// Whether a checkpoint of the sprite may start: only a Running or Paused
/// sprite can be checkpointed.
pub fn check_checkpoint(spec: &SpriteSpec) -> (res: Result<(), ApiError>)
    ensures
        can_sleep(spec.status) ==> res is Ok,
        !can_sleep(spec.status) ==> (res matches Err(e) && e.status == 409 && e.message@
            == refusal_text("checkpoint"@, spec.status)),
{
    if spec.status != SpriteStatus::Running && spec.status != SpriteStatus::Paused {
        return Err(refusal("checkpoint", spec.status));
    }
    Ok(())
}

/// Whether a command may run in the sprite: only in a Running one.
pub fn check_exec(spec: &SpriteSpec) -> (res: Result<(), ApiError>)
    ensures
        spec.status == SpriteStatus::Running ==> res is Ok,
        spec.status != SpriteStatus::Running ==> (res matches Err(e) && e.status == 409
            && e.message@ == "cannot exec in sprite with "@ + status_text(spec.status)
            + " status"@),
{
    if spec.status != SpriteStatus::Running {
        let mut m = String::new();
        push_str(&mut m, "cannot exec in sprite with ");
        push_str(&mut m, status_name(spec.status));
        push_str(&mut m, " status");
        proof {
            assert(m@ =~= "cannot exec in sprite with "@ + status_text(spec.status) + " status"@);
        }
        return Err(ApiError { status: 409, message: m });
    }
    Ok(())
}

/// The lifecycle's transitions as the API applies them: `wake` runs a
/// Paused or Sleeping sprite, `sleep` puts a Running or Paused one to sleep;
/// other requests leave the status as it is.
pub open spec fn after_wake(s: SpriteStatus) -> SpriteStatus {
    if can_wake(s) {
        SpriteStatus::Running
    } else {
        s
    }
}

/// See `after_wake`.
pub open spec fn after_sleep(s: SpriteStatus) -> SpriteStatus {
    if can_sleep(s) {
        SpriteStatus::Sleeping
    } else {
        s
    }
}

/// A sprite can always be brought back: sleeping a Running or Paused sprite
/// and waking it again leaves it Running; a sprite being created can be
/// neither woken nor put to sleep; waking twice is the same as once.
pub proof fn law_sprite_lifecycle(s: SpriteStatus)
    ensures
        can_sleep(s) ==> after_wake(after_sleep(s)) == SpriteStatus::Running,
        s == SpriteStatus::Creating ==> after_wake(s) == s && after_sleep(s) == s,
        after_wake(after_wake(s)) == after_wake(s),
        after_sleep(after_sleep(s)) == after_sleep(s),
{
}

} // verus!
