use warpgrid::teams::{TeamError, TeamRole, TeamStore};

#[test]
fn role_display_formats() {
    assert_eq!(TeamRole::Owner.to_string(), "owner");
    assert_eq!(TeamRole::Admin.to_string(), "admin");
    assert_eq!(TeamRole::Member.to_string(), "member");
}

#[test]
fn create_team_sets_owner() {
    let mut store = TeamStore::new();
    let team = store.create_team("Acme", "usr_alice");

    assert!(team.id.starts_with("team_"));
    assert_eq!(team.id.len(), 5 + 16);
    assert_eq!(team.name, "Acme");
    assert_eq!(team.owner_user_id, "usr_alice");
    assert_eq!(team.members.len(), 1);
    assert_eq!(team.members[0].user_id, "usr_alice");
    assert_eq!(team.members[0].role, TeamRole::Owner);
}

#[test]
fn add_member_and_list() {
    let mut store = TeamStore::new();
    let team = store.create_team("Acme", "usr_alice");

    let updated = store.add_member(&team.id, "usr_bob", TeamRole::Member).unwrap();
    assert_eq!(updated.members.len(), 2);

    let bob = updated.members.iter().find(|m| m.user_id == "usr_bob").unwrap();
    assert_eq!(bob.role, TeamRole::Member);

    let bob_teams = store.list_teams_for_user("usr_bob");
    assert_eq!(bob_teams.len(), 1);
    assert_eq!(bob_teams[0].id, team.id);
}

#[test]
fn add_duplicate_member_fails() {
    let mut store = TeamStore::new();
    let team = store.create_team("Acme", "usr_alice");

    store.add_member(&team.id, "usr_bob", TeamRole::Member).unwrap();

    let err = store.add_member(&team.id, "usr_bob", TeamRole::Admin).unwrap_err();
    assert!(matches!(err, TeamError::UserAlreadyMember { .. }));
}

#[test]
fn permission_hierarchy() {
    let mut store = TeamStore::new();
    let team = store.create_team("Acme", "usr_owner");

    store.add_member(&team.id, "usr_admin", TeamRole::Admin).unwrap();
    store.add_member(&team.id, "usr_member", TeamRole::Member).unwrap();

    assert!(store.check_permission(&team.id, "usr_owner", TeamRole::Owner));
    assert!(store.check_permission(&team.id, "usr_owner", TeamRole::Admin));
    assert!(store.check_permission(&team.id, "usr_owner", TeamRole::Member));

    assert!(!store.check_permission(&team.id, "usr_admin", TeamRole::Owner));
    assert!(store.check_permission(&team.id, "usr_admin", TeamRole::Admin));
    assert!(store.check_permission(&team.id, "usr_admin", TeamRole::Member));

    assert!(!store.check_permission(&team.id, "usr_member", TeamRole::Owner));
    assert!(!store.check_permission(&team.id, "usr_member", TeamRole::Admin));
    assert!(store.check_permission(&team.id, "usr_member", TeamRole::Member));
}

#[test]
fn remove_member_works() {
    let mut store = TeamStore::new();
    let team = store.create_team("Acme", "usr_alice");

    store.add_member(&team.id, "usr_bob", TeamRole::Member).unwrap();

    let updated = store.remove_member(&team.id, "usr_bob").unwrap();
    assert_eq!(updated.members.len(), 1);
    assert_eq!(updated.members[0].user_id, "usr_alice");
}

#[test]
fn cannot_remove_owner() {
    let mut store = TeamStore::new();
    let team = store.create_team("Acme", "usr_alice");

    let err = store.remove_member(&team.id, "usr_alice").unwrap_err();
    assert!(matches!(err, TeamError::CannotRemoveOwner));
}

#[test]
fn remove_nonexistent_member_fails() {
    let mut store = TeamStore::new();
    let team = store.create_team("Acme", "usr_alice");

    let err = store.remove_member(&team.id, "usr_ghost").unwrap_err();
    assert!(matches!(err, TeamError::UserNotMember { .. }));
}

#[test]
fn update_role_works() {
    let mut store = TeamStore::new();
    let team = store.create_team("Acme", "usr_alice");

    store.add_member(&team.id, "usr_bob", TeamRole::Member).unwrap();

    let updated = store.update_role(&team.id, "usr_bob", TeamRole::Admin).unwrap();

    let bob = updated.members.iter().find(|m| m.user_id == "usr_bob").unwrap();
    assert_eq!(bob.role, TeamRole::Admin);
}

#[test]
fn cannot_change_owner_role() {
    let mut store = TeamStore::new();
    let team = store.create_team("Acme", "usr_alice");

    let err = store.update_role(&team.id, "usr_alice", TeamRole::Member).unwrap_err();
    assert!(matches!(err, TeamError::CannotChangeOwnerRole));
}

#[test]
fn nonexistent_team_returns_none() {
    let store = TeamStore::new();
    assert!(store.get_team("team_nonexistent").is_none());
}

#[test]
fn permission_check_on_nonexistent_team_returns_false() {
    let store = TeamStore::new();
    assert!(!store.check_permission("team_nope", "usr_alice", TeamRole::Member));
}

#[test]
fn permission_check_for_non_member_returns_false() {
    let mut store = TeamStore::new();
    let team = store.create_team("Acme", "usr_alice");
    assert!(!store.check_permission(&team.id, "usr_stranger", TeamRole::Member));
}

#[test]
fn adding_owner_role_downgrades_to_admin() {
    let mut store = TeamStore::new();
    let team = store.create_team("Acme", "usr_alice");

    let updated = store.add_member(&team.id, "usr_bob", TeamRole::Owner).unwrap();

    let bob = updated.members.iter().find(|m| m.user_id == "usr_bob").unwrap();
    assert_eq!(bob.role, TeamRole::Admin);
}

#[test]
fn update_role_to_owner_gives_admin() {
    let mut store = TeamStore::new();
    let team = store.create_team("Acme", "usr_alice");
    store.add_member(&team.id, "usr_bob", TeamRole::Member).unwrap();
    let updated = store.update_role(&team.id, "usr_bob", TeamRole::Owner).unwrap();
    let owners = updated.members.iter().filter(|m| m.role == TeamRole::Owner).count();
    assert_eq!(owners, 1);
    assert!(!store.check_permission(&team.id, "usr_bob", TeamRole::Owner));
    assert!(store.check_permission(&team.id, "usr_bob", TeamRole::Admin));
}

#[test]
fn operations_on_missing_team_report_it() {
    let mut store = TeamStore::new();
    let err = store.add_member("team_x", "usr_bob", TeamRole::Member).unwrap_err();
    assert!(matches!(err, TeamError::TeamNotFound { ref team_id } if team_id == "team_x"));
    assert_eq!(err.to_string(), "team not found: team_x");
    let err = store.remove_member("team_x", "usr_bob").unwrap_err();
    assert!(matches!(err, TeamError::TeamNotFound { .. }));
    let err = store.update_role("team_x", "usr_bob", TeamRole::Admin).unwrap_err();
    assert!(matches!(err, TeamError::TeamNotFound { .. }));
}

#[test]
fn team_error_messages() {
    assert_eq!(
        TeamError::UserNotMember { user_id: "u".to_string() }.to_string(),
        "user is not a member: u"
    );
    assert_eq!(
        TeamError::UserAlreadyMember { user_id: "u".to_string() }.to_string(),
        "user is already a member: u"
    );
    assert_eq!(TeamError::CannotRemoveOwner.to_string(), "cannot remove the team owner");
    assert_eq!(TeamError::CannotChangeOwnerRole.to_string(), "cannot change the owner's role");
    assert_eq!(
        TeamError::InsufficientPermission { required: "admin".to_string() }.to_string(),
        "insufficient permission, required: admin"
    );
    assert_eq!(TeamError::Storage("x".to_string()).to_string(), "storage error: x");
}

#[test]
fn privilege_levels_and_order() {
    assert_eq!(TeamRole::Owner.privilege_level(), 3);
    assert_eq!(TeamRole::Admin.privilege_level(), 2);
    assert_eq!(TeamRole::Member.privilege_level(), 1);
    assert!(TeamRole::Owner.has_privilege(TeamRole::Admin));
    assert!(!TeamRole::Member.has_privilege(TeamRole::Admin));
    assert!(TeamRole::Admin.has_privilege(TeamRole::Admin));
}

#[test]
fn teams_listed_once_each() {
    let mut store = TeamStore::new();
    let a = store.create_team("A", "usr_alice");
    let b = store.create_team("B", "usr_bob");
    store.add_member(&b.id, "usr_alice", TeamRole::Member).unwrap();
    let mut ids: Vec<String> = store.list_teams_for_user("usr_alice").into_iter().map(|t| t.id).collect();
    ids.sort();
    let mut want = vec![a.id.clone(), b.id.clone()];
    want.sort();
    assert_eq!(ids, want);
    assert!(store.list_teams_for_user("usr_nobody").is_empty());
    assert_eq!(store.get_team(&a.id).unwrap().name, "A");
}
