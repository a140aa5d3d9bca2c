//! Input validation and the account flows, exercised against the real
//! hashing and pattern-matching crates.

use roomkit::asserts::{
    valid_email, valid_nickname, valid_password, valid_room_name, valid_room_path, valid_username,
};
use roomkit::auth::{sign_in, sign_in_discord_user, sign_up, AuthError, AuthForm};
use roomkit::store::{DbError, Store};
use roomkit::users::{NewUser, User};

fn form(username: &str, password: &str) -> AuthForm {
    AuthForm { username: username.to_string(), password: password.to_string() }
}

#[test]
fn username_must_be_word_characters_in_range() {
    assert!(valid_username("alice_01"));
    assert!(valid_username("abc"));
    assert!(!valid_username("ab"));
    assert!(!valid_username("a".repeat(25).as_str()));
    assert!(!valid_username("alice!"));
    assert!(!valid_username("al ice"));
    assert!(!valid_username(""));
}

#[test]
fn password_must_be_in_range() {
    assert!(valid_password("12345678"));
    assert!(valid_password(&"x".repeat(64)));
    assert!(!valid_password("1234567"));
    assert!(!valid_password(&"x".repeat(65)));
}

#[test]
fn nickname_and_room_rules() {
    assert!(valid_nickname("a"));
    assert!(!valid_nickname(""));
    assert!(!valid_nickname(&"a".repeat(25)));
    assert!(valid_room_name("movie night"));
    assert!(!valid_room_name("ab"));
    assert!(valid_room_path("movie_night"));
    assert!(!valid_room_path("movie night"));
}

#[test]
fn email_must_be_address_characters_in_range() {
    assert!(valid_email("someone@example.org".to_string()));
    assert!(valid_email("a@b.c".to_string()));
    assert!(valid_email("o'brien+tag@example.org".to_string()));
    assert!(!valid_email("".to_string()));
    assert!(!valid_email("a@".to_string()));
    assert!(!valid_email("with space@example.org".to_string()));
    assert!(!valid_email(format!("{}@example.org", "a".repeat(320))));
}

#[test]
fn sign_up_validates_and_hashes() {
    let mut store = Store::new();
    let user = sign_up(&mut store, &form("alice_01", "hunter2hunter2")).unwrap();
    assert_eq!(user.username, "alice_01");
    let stored_hash = user.password.clone().expect("a hash must be stored");
    assert_ne!(stored_hash, "hunter2hunter2");
    assert!(stored_hash.starts_with("$2"));
    assert_eq!(store.users.len(), 1);
}

#[test]
fn sign_up_rejects_bad_input_and_duplicates() {
    let mut store = Store::new();
    assert_eq!(
        sign_up(&mut store, &form("a!", "hunter2hunter2")),
        Err(AuthError::InvalidUsername)
    );
    assert_eq!(sign_up(&mut store, &form("alice_01", "short")), Err(AuthError::InvalidPassword));
    assert_eq!(store.users.len(), 0);

    sign_up(&mut store, &form("alice_01", "hunter2hunter2")).unwrap();
    assert_eq!(
        sign_up(&mut store, &form("alice_01", "anotherpassword")),
        Err(AuthError::UserExists)
    );
    assert_eq!(store.users.len(), 1);
}

#[test]
fn sign_in_round_trip() {
    let mut store = Store::new();
    let registered = sign_up(&mut store, &form("alice_01", "hunter2hunter2")).unwrap();

    let back = sign_in(&store, &form("alice_01", "hunter2hunter2")).unwrap();
    assert_eq!(back.id, registered.id);

    assert_eq!(
        sign_in(&store, &form("alice_01", "wrongpassword")),
        Err(AuthError::WrongPassword)
    );
    assert_eq!(
        sign_in(&store, &form("nobody99", "hunter2hunter2")),
        Err(AuthError::UserNotFound)
    );
}

#[test]
fn sign_in_demands_a_stored_hash() {
    let mut store = Store::new();
    let mut payload = NewUser::default();
    payload.username = "passwordless".to_string();
    payload.create(&mut store).unwrap();
    assert_eq!(
        sign_in(&store, &form("passwordless", "whatever123")),
        Err(AuthError::Passwordless)
    );
}

#[test]
fn third_party_sign_in_registers_once() {
    let mut store = Store::new();
    let first = sign_in_discord_user(&mut store, "12345678901".to_string(), "Alice".to_string())
        .unwrap();
    assert_eq!(first.username, "12345678901");
    assert_eq!(first.nickname, Some("Alice".to_string()));
    assert_eq!(first.discord_id, Some("12345678901".to_string()));
    assert_eq!(store.users.len(), 1);

    // the identity is linked now: signing in again returns the same
    // account and writes nothing
    let again = sign_in_discord_user(&mut store, "12345678901".to_string(), "Alice".to_string())
        .unwrap();
    assert_eq!(again.id, first.id);
    assert_eq!(store.users.len(), 1);
}

#[test]
fn user_creation_enforces_unique_names_and_identities() {
    let mut store = Store::new();
    let mut a = NewUser::default();
    a.username = "alice".to_string();
    a.discord_id = Some("111".to_string());
    let alice = a.create(&mut store).unwrap();

    let mut dup_name = NewUser::default();
    dup_name.username = "alice".to_string();
    assert_eq!(dup_name.create(&mut store), Err(DbError::ConstraintViolation));

    let mut dup_discord = NewUser::default();
    dup_discord.username = "bob".to_string();
    dup_discord.discord_id = Some("111".to_string());
    assert_eq!(dup_discord.create(&mut store), Err(DbError::ConstraintViolation));

    assert_eq!(store.users.len(), 1);
    assert_eq!(User::by_name("alice".to_string(), &store).unwrap(), alice);
    assert_eq!(User::by_id(alice.id.clone(), &store).unwrap(), alice);
    assert_eq!(User::by_discord_id("111".to_string(), &store).unwrap(), alice);
    assert_eq!(User::by_discord_id("222".to_string(), &store), Err(DbError::NotFound));
}

#[test]
fn deleting_rows_removes_only_the_matching_row() {
    let mut store = Store::new();
    let mut a = NewUser::default();
    a.username = "alice".to_string();
    let alice = a.create(&mut store).unwrap();
    let mut b = NewUser::default();
    b.username = "bobby".to_string();
    let bob = b.create(&mut store).unwrap();

    assert_eq!(alice.delete(&mut store), Ok(1));
    assert_eq!(store.users.len(), 1);
    assert_eq!(store.users[0], bob);
    assert_eq!(alice.delete(&mut store), Ok(0));

    let role = roomkit::roles::NewRole::owner(1).create(&mut store).unwrap();
    let link = roomkit::roles::NewUserRole { role_id: role.id, user_id: 5 }
        .create(&mut store)
        .unwrap();
    assert_eq!(link.delete(&mut store), Ok(1));
    assert_eq!(store.user_roles.len(), 0);
    assert_eq!(role.delete(&mut store), Ok(1));
    assert_eq!(store.roles.len(), 0);
    assert_eq!(role.delete(&mut store), Ok(0));
}

#[test]
fn user_update_enforces_uniqueness_against_other_rows() {
    let mut store = Store::new();
    let mut a = NewUser::default();
    a.username = "alice".to_string();
    a.discord_id = Some("111".to_string());
    let alice = a.create(&mut store).unwrap();
    let mut b = NewUser::default();
    b.username = "bobby".to_string();
    let bob = b.create(&mut store).unwrap();

    // rewriting a row to its own name is fine
    let mut renamed = alice.clone();
    renamed.nickname = Some("Al".to_string());
    assert_eq!(renamed.update(&mut store).unwrap(), renamed);
    assert_eq!(store.users[0].nickname, Some("Al".to_string()));

    // taking another row's name or identity is not
    let mut clash_name = bob.clone();
    clash_name.username = "alice".to_string();
    assert_eq!(clash_name.update(&mut store), Err(DbError::ConstraintViolation));
    let mut clash_discord = bob.clone();
    clash_discord.discord_id = Some("111".to_string());
    assert_eq!(clash_discord.update(&mut store), Err(DbError::ConstraintViolation));

    let mut missing = bob;
    missing.id = "nope".to_string();
    assert_eq!(missing.update(&mut store), Err(DbError::NotFound));
}
