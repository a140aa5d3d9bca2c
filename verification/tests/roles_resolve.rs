//! The bootstrapped role set and the resolution engine.

use roomkit::permissions::{PermissionName, PermissionState};
use roomkit::resolve::{resolve, resolve_all, resolve_timeout};
use roomkit::roles::{bootstrap_default_roles, NewRole, Role};
use roomkit::store::Store;

/// Persist a set of role values and hand the stored rows back.
fn stored_roles(values: Vec<NewRole>) -> Vec<Role> {
    let mut store = Store::new();
    for v in values {
        v.create(&mut store).expect("role should persist");
    }
    store.roles.clone()
}

#[test]
fn bootstrap_produces_five_roles_in_position_order() {
    let roles = bootstrap_default_roles(7);
    assert_eq!(roles.len(), 5);
    assert_eq!(roles[0].name, "Owner");
    assert_eq!(roles[0].position, 0);
    assert_eq!(roles[1].name, "Administrator");
    assert_eq!(roles[1].position, 1);
    assert_eq!(roles[2].name, "Stranger");
    assert_eq!(roles[2].position, 1001);
    assert_eq!(roles[3].name, "Anonymous");
    assert_eq!(roles[3].position, 1002);
    assert_eq!(roles[4].name, "Everyone");
    assert_eq!(roles[4].position, 1003);
    for r in &roles {
        assert_eq!(r.room_id, 7);
        assert!(r.is_default);
    }
}

#[test]
fn bootstrap_is_deterministic() {
    let a = bootstrap_default_roles(3);
    let b = bootstrap_default_roles(3);
    assert_eq!(a, b);
}

#[test]
fn owner_is_fully_allowed_and_admin_inherits_room_delete() {
    let owner = NewRole::owner(1);
    assert_eq!(owner.room_delete, PermissionState::Allowed);
    assert_eq!(owner.message_create, PermissionState::Allowed);
    assert_eq!(owner.user_ban, PermissionState::Allowed);
    assert_eq!(owner.message_timeout, 0);

    let admin = NewRole::administator(1);
    assert_eq!(admin.room_delete, PermissionState::Unset);
    assert_eq!(admin.room_view, PermissionState::Allowed);
    assert_eq!(admin.user_ban, PermissionState::Allowed);
    assert_eq!(admin.message_timeout, 0);
}

#[test]
fn stranger_and_anonymous_inherit() {
    let stranger = NewRole::stranger(1);
    assert_eq!(stranger.ping_everyone, PermissionState::Allowed);
    assert_eq!(stranger.video_create, PermissionState::Allowed);
    assert_eq!(stranger.room_delete, PermissionState::Unset);
    assert_eq!(stranger.message_create, PermissionState::Unset);
    assert_eq!(stranger.message_timeout, 0);

    let anon = NewRole::anonymous(1);
    assert_eq!(anon.room_view, PermissionState::Unset);
    assert_eq!(anon.message_create, PermissionState::Unset);
    assert_eq!(anon.message_timeout, -1);
}

#[test]
fn everyone_is_the_deny_floor() {
    let everyone = NewRole::everyone(1);
    assert_eq!(everyone.room_delete, PermissionState::Forbidden);
    assert_eq!(everyone.password_bypass, PermissionState::Forbidden);
    assert_eq!(everyone.role_create, PermissionState::Forbidden);
    assert_eq!(everyone.room_view, PermissionState::Allowed);
    assert_eq!(everyone.message_create, PermissionState::Allowed);
    assert_eq!(everyone.message_timeout, 1);
}

#[test]
fn resolve_never_returns_unset() {
    let roles = stored_roles(vec![NewRole::anonymous(1), NewRole::stranger(1)]);
    // both roles leave room_delete unset, so the answer is the default
    let v = resolve(&roles, PermissionName::RoomDelete);
    assert!(v == PermissionState::Allowed || v == PermissionState::Forbidden);
}

#[test]
fn resolve_defaults_to_forbidden_when_everything_is_unset() {
    let roles = stored_roles(vec![NewRole::anonymous(1)]);
    assert_eq!(resolve(&roles, PermissionName::RoomView), PermissionState::Forbidden);
    assert_eq!(resolve(&roles, PermissionName::UserBan), PermissionState::Forbidden);
}

#[test]
fn resolve_takes_the_lowest_position_decided_value() {
    // [{position: 1, flag: Forbidden}, {position: 0, flag: Allowed}]
    // resolves to Allowed, whatever the order of the input
    let mut low = NewRole::default();
    low.position = 1;
    low.room_view = PermissionState::Forbidden;
    let mut high = NewRole::default();
    high.position = 0;
    high.room_view = PermissionState::Allowed;
    let roles = stored_roles(vec![low, high]);
    assert_eq!(resolve(&roles, PermissionName::RoomView), PermissionState::Allowed);
}

#[test]
fn administrator_falls_through_to_everyones_deny() {
    // Administrator leaves room_delete unset; Everyone explicitly
    // forbids it, so the effective answer is Forbidden
    let roles = stored_roles(vec![NewRole::administator(1), NewRole::everyone(1)]);
    assert_eq!(resolve(&roles, PermissionName::RoomDelete), PermissionState::Forbidden);
    // while an allowed flag of the Administrator still wins
    assert_eq!(resolve(&roles, PermissionName::RoomView), PermissionState::Allowed);
}

#[test]
fn position_tie_breaks_by_role_id() {
    // equal positions: the role created first holds the lower id and
    // wins the tie
    let mut first = NewRole::default();
    first.position = 5;
    first.emote_view = PermissionState::Allowed;
    let mut second = NewRole::default();
    second.position = 5;
    second.emote_view = PermissionState::Forbidden;
    let roles = stored_roles(vec![first, second]);
    assert_eq!(resolve(&roles, PermissionName::EmoteView), PermissionState::Allowed);
}

#[test]
fn timeout_takes_the_first_explicit_value_by_position() {
    // Stranger (position 1001) carries 0, Everyone (position 1003)
    // carries 1: the effective timeout is 0
    let roles = stored_roles(vec![NewRole::stranger(1), NewRole::everyone(1)]);
    assert_eq!(resolve_timeout(&roles), 0);
}

#[test]
fn timeout_defaults_to_zero_when_every_role_inherits() {
    let roles = stored_roles(vec![NewRole::anonymous(1), NewRole::anonymous(1)]);
    assert_eq!(resolve_timeout(&roles), 0);
    assert_eq!(resolve_timeout(&Vec::new()), 0);
}

#[test]
fn timeout_of_the_everyone_role_alone_is_one_second() {
    let roles = stored_roles(vec![NewRole::everyone(1)]);
    assert_eq!(resolve_timeout(&roles), 1);
}

#[test]
fn resolve_all_matches_per_flag_resolution() {
    let roles = stored_roles(vec![NewRole::stranger(1), NewRole::everyone(1)]);
    let effective = resolve_all(&roles);
    assert_eq!(effective.room_view, resolve(&roles, PermissionName::RoomView));
    assert_eq!(effective.room_delete, resolve(&roles, PermissionName::RoomDelete));
    assert_eq!(effective.ping_everyone, PermissionState::Allowed);
    assert_eq!(effective.room_delete, PermissionState::Forbidden);
    assert_eq!(effective.message_timeout, 0);
}

#[test]
fn permission_state_integer_codec() {
    assert_eq!(PermissionState::from_i32(-1), Ok(PermissionState::Unset));
    assert_eq!(PermissionState::from_i32(0), Ok(PermissionState::Forbidden));
    assert_eq!(PermissionState::from_i32(1), Ok(PermissionState::Allowed));
    // an out-of-catalog value is malformed and is rejected at
    // deserialization time, never read as Unset
    assert_eq!(PermissionState::from_i32(7), Err(roomkit::store::DbError::MalformedRole));
    assert_eq!(PermissionState::from_i32(-2), Err(roomkit::store::DbError::MalformedRole));
    assert_eq!(PermissionState::Unset.to_i32(), -1);
    assert_eq!(PermissionState::Forbidden.to_i32(), 0);
    assert_eq!(PermissionState::Allowed.to_i32(), 1);
    assert_eq!(PermissionState::default(), PermissionState::Unset);
}

#[test]
fn malformed_role_is_rejected_at_creation() {
    let mut store = Store::new();
    let mut bad = NewRole::default();
    bad.message_timeout = -2;
    let before = store.roles.len();
    assert_eq!(bad.create(&mut store), Err(roomkit::store::DbError::MalformedRole));
    assert_eq!(store.roles.len(), before);
}

#[test]
fn stored_roles_carry_the_clock_and_fresh_ids() {
    let mut store = Store::new();
    store.clock = 42;
    let a = NewRole::owner(1).create(&mut store).unwrap();
    let b = NewRole::everyone(1).create(&mut store).unwrap();
    assert_eq!(a.created_at, 42);
    assert_ne!(a.id, b.id);
    let fetched = Role::by_id(a.id, &store).unwrap();
    assert_eq!(fetched, a);
    let first = Role::list_by_room_id(1, &store).unwrap();
    assert_eq!(first, a);
    assert!(Role::by_id(999, &store).is_err());
}

#[test]
fn user_role_links_demand_an_existing_role() {
    let mut store = Store::new();
    let missing = roomkit::roles::NewUserRole { role_id: 1, user_id: 2 };
    assert_eq!(missing.create(&mut store), Err(roomkit::store::DbError::ConstraintViolation));
    let role = NewRole::owner(1).create(&mut store).unwrap();
    let link = roomkit::roles::NewUserRole { role_id: role.id, user_id: 2 }
        .create(&mut store)
        .unwrap();
    assert_eq!(link.role_id, role.id);
    assert_eq!(link.user_id, 2);
    let fetched = roomkit::roles::UserRole::by_id(link.id, &store).unwrap();
    assert_eq!(fetched, link);
}

#[test]
fn role_update_rewrites_by_identifier() {
    let mut store = Store::new();
    let role = NewRole::stranger(1).create(&mut store).unwrap();

    let mut renamed = role.clone();
    renamed.name = "Guest".to_string();
    renamed.position = 900;
    assert_eq!(renamed.update(&mut store).unwrap(), renamed);
    assert_eq!(store.roles[0].name, "Guest");
    assert_eq!(store.roles[0].position, 900);

    let mut malformed = renamed.clone();
    malformed.message_timeout = -2;
    assert_eq!(malformed.update(&mut store), Err(roomkit::store::DbError::MalformedRole));
    assert_eq!(store.roles[0].message_timeout, renamed.message_timeout);

    let mut missing = renamed;
    missing.id = 999;
    assert_eq!(missing.update(&mut store), Err(roomkit::store::DbError::NotFound));
}

#[test]
fn user_role_update_demands_an_existing_role() {
    let mut store = Store::new();
    let role_a = NewRole::owner(1).create(&mut store).unwrap();
    let role_b = NewRole::everyone(1).create(&mut store).unwrap();
    let link = roomkit::roles::NewUserRole { role_id: role_a.id, user_id: 7 }
        .create(&mut store)
        .unwrap();

    let mut moved = link.clone();
    moved.role_id = role_b.id;
    assert_eq!(moved.update(&mut store).unwrap(), moved);
    assert_eq!(store.user_roles[0].role_id, role_b.id);

    let mut dangling = moved.clone();
    dangling.role_id = 999;
    assert_eq!(dangling.update(&mut store), Err(roomkit::store::DbError::ConstraintViolation));

    let mut missing = moved;
    missing.id = 999;
    assert_eq!(missing.update(&mut store), Err(roomkit::store::DbError::NotFound));
}
