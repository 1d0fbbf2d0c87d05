use warpgrid::sprites::{check_checkpoint, check_exec, new_sprite, sleep, wake, SpriteSpec, SpriteStatus};

fn test_sprite_spec(id: &str, owner: &str) -> SpriteSpec {
    SpriteSpec {
        id: id.to_string(),
        owner: owner.to_string(),
        name: format!("{id}-workspace"),
        image_version: "latest".to_string(),
        storage_url: String::new(),
        checkpoint_id: None,
        status: SpriteStatus::Running,
        node_id: Some("node-1".to_string()),
        created_at: 1000,
        last_active_at: 1000,
    }
}

#[test]
fn create_and_get_sprite() {
    let spec = new_sprite("alice", "dev-workspace", 1234);
    assert_eq!(spec.id, "sprite-1234");
    assert_eq!(spec.owner, "alice");
    assert_eq!(spec.name, "dev-workspace");
    assert_eq!(spec.image_version, "latest");
    assert_eq!(spec.status, SpriteStatus::Creating);
    assert!(spec.node_id.is_none());
    assert!(spec.checkpoint_id.is_none());
    assert_eq!(spec.created_at, 1234);
    assert_eq!(spec.last_active_at, 1234);
}

#[test]
fn wake_paused_sprite() {
    let mut spec = test_sprite_spec("s1", "alice");
    spec.status = SpriteStatus::Paused;
    assert!(wake(&mut spec, 2000).is_ok());
    assert_eq!(spec.status, SpriteStatus::Running);
    assert_eq!(spec.last_active_at, 2000);
}

#[test]
fn sleep_running_sprite() {
    let mut spec = test_sprite_spec("s1", "alice");
    assert!(sleep(&mut spec).is_ok());
    assert_eq!(spec.status, SpriteStatus::Sleeping);
    assert!(spec.node_id.is_none());
}

#[test]
fn wake_running_sprite_fails() {
    let mut spec = test_sprite_spec("s1", "alice");
    let err = wake(&mut spec, 2000).unwrap_err();
    assert_eq!(err.status, 409);
    assert_eq!(err.message, "cannot wake sprite in Running state");
    assert_eq!(spec.status, SpriteStatus::Running);
    assert_eq!(spec.last_active_at, 1000);
}

#[test]
fn wake_sleeping_sprite() {
    let mut spec = test_sprite_spec("s1", "alice");
    spec.status = SpriteStatus::Sleeping;
    spec.node_id = None;
    assert!(wake(&mut spec, 3000).is_ok());
    assert_eq!(spec.status, SpriteStatus::Running);
}

#[test]
fn sleep_creating_sprite_fails() {
    let mut spec = new_sprite("bob", "ws", 5);
    let err = sleep(&mut spec).unwrap_err();
    assert_eq!(err.status, 409);
    assert_eq!(err.message, "cannot sleep sprite in Creating state");
    assert_eq!(spec.status, SpriteStatus::Creating);
}

#[test]
fn sleep_then_wake_runs_again() {
    let mut spec = test_sprite_spec("s1", "alice");
    sleep(&mut spec).unwrap();
    wake(&mut spec, 4000).unwrap();
    assert_eq!(spec.status, SpriteStatus::Running);
    assert!(spec.node_id.is_none());
}

#[test]
fn checkpoint_rules() {
    let mut spec = test_sprite_spec("s1", "alice");
    assert!(check_checkpoint(&spec).is_ok());
    spec.status = SpriteStatus::Paused;
    assert!(check_checkpoint(&spec).is_ok());
    spec.status = SpriteStatus::Sleeping;
    let err = check_checkpoint(&spec).unwrap_err();
    assert_eq!(err.status, 409);
    assert_eq!(err.message, "cannot checkpoint sprite in Sleeping state");
}

#[test]
fn exec_rules() {
    let mut spec = test_sprite_spec("s1", "alice");
    assert!(check_exec(&spec).is_ok());
    spec.status = SpriteStatus::Paused;
    let err = check_exec(&spec).unwrap_err();
    assert_eq!(err.status, 409);
    assert_eq!(err.message, "cannot exec in sprite with Paused status");
}
