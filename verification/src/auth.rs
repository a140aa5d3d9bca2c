//! Account flows: registration, password sign-in, and third-party
//! sign-in. The decisions are verified here; password hashing itself is
//! the one outside computation, reached through trusted wrappers.

use vstd::prelude::*;

use crate::asserts::{spec_valid_password, spec_valid_username, valid_password, valid_username};
use crate::store::{DbError, Store};
use crate::users::{NewUser, User};

verus! {

/// The credentials a caller submits.
#[derive(Debug)]
pub struct AuthForm {
    pub username: String,
    pub password: String,
}

/// The redirect payload of a third-party sign-in.
#[derive(Debug)]
pub struct DiscordRedirect {
    pub code: String,
}

/// Why an account flow was refused.
#[derive(Debug, Copy, Clone, PartialEq, Eq, Structural)]
pub enum AuthError {
    /// The username does not meet the format rule.
    InvalidUsername,
    /// The password does not meet the length rule.
    InvalidPassword,
    /// A user with this name already exists.
    UserExists,
    /// No user with this name exists.
    UserNotFound,
    /// The account uses passwordless authentication.
    Passwordless,
    /// The submitted password does not match the stored hash.
    WrongPassword,
    /// The hashing backend failed: a malformed stored hash, or no
    /// operating-system randomness for a fresh salt.
    Internal,
}

/// What `bcrypt::verify` returns for this password and stored hash:
/// `Some(b)` when the hash parses and comparing gives `b`, `None` when
/// the hash is not a well-formed bcrypt hash. The result is computed
/// from the two arguments alone — the salt and cost are parsed out of
/// the hash — so naming it as a function is sound.
pub uninterp spec fn bcrypt_verify_spec(password: Seq<char>, hash: Seq<char>) -> Option<bool>;

/// Relies on `bcrypt::verify`: deterministic in the password and hash
/// (the salt and the cost come from the hash string); it returns an
/// error exactly when the hash cannot be parsed as a bcrypt hash, and
/// it never panics.
#[verifier::external_body]
fn bcrypt_verify(password: &str, hash: &str) -> (r: Option<bool>)
    ensures
        r == bcrypt_verify_spec(password@, hash@),
{
    match bcrypt::verify(password, hash) {
        Ok(b) => Some(b),
        Err(_) => None,
    }
}

/// Relies on `bcrypt::hash` with the fixed cost 10: the salt is drawn
/// from the operating system's randomness, so the hash value itself is
/// not pinned; but whatever hash comes back verifies against the very
/// password it was made from, because `verify` re-derives the digest
/// with the salt and cost parsed back out of the hash string. With a
/// cost inside the allowed range the call can fail only if the
/// randomness source fails, and it never panics.
#[verifier::external_body]
fn bcrypt_hash(password: &str) -> (r: Option<String>)
    ensures
        r matches Some(h) ==> bcrypt_verify_spec(password@, h@) == Some(true),
{
    match bcrypt::hash(password, 10) {
        Ok(h) => Some(h),
        Err(_) => None,
    }
}

/// Register a new account: the username and password must pass the
/// format rules, the username must be free, and the stored row carries
/// a bcrypt hash of the password, never the password itself.
pub fn sign_up(store: &mut Store, form: &AuthForm) -> (r: Result<User, AuthError>)
    requires
        old(store).wf(),
        old(store).has_capacity(1),
    ensures
        final(store).wf(),
        match r {
            Ok(u) => {
                &&& spec_valid_username(form.username@)
                &&& spec_valid_password(form.password@)
                &&& !old(store).username_exists(form.username@)
                &&& final(store).users@ == old(store).users@.push(u)
                &&& u.username@ == form.username@
                &&& (match u.password {
                    Some(h) => bcrypt_verify_spec(form.password@, h@) == Some(true),
                    None => false,
                })
                &&& u.discord_id is None
                &&& u.nickname is None
                &&& u.email is None
                &&& u.color is None
                &&& u.file_id is None
                &&& !u.is_admin
                &&& u.last_login is None
                &&& u.created_at == old(store).clock
                &&& !old(store).user_exists(u.id@)
            },
            Err(e) => *final(store) == *old(store) && match e {
                AuthError::InvalidUsername => !spec_valid_username(form.username@),
                AuthError::InvalidPassword => spec_valid_username(form.username@)
                    && !spec_valid_password(form.password@),
                AuthError::UserExists => spec_valid_username(form.username@)
                    && spec_valid_password(form.password@) && old(store).username_exists(
                    form.username@,
                ),
                AuthError::Internal => spec_valid_username(form.username@)
                    && spec_valid_password(form.password@) && !old(store).username_exists(
                    form.username@,
                ),
                _ => false,
            },
        },
        final(store).channels == old(store).channels,
        final(store).room_channels == old(store).room_channels,
        final(store).dm_channels == old(store).dm_channels,
        final(store).dm_channel_users == old(store).dm_channel_users,
        final(store).messages == old(store).messages,
        final(store).message_mentions == old(store).message_mentions,
        final(store).roles == old(store).roles,
        final(store).user_roles == old(store).user_roles,
        final(store).clock == old(store).clock,
        final(store).next_id <= old(store).next_id + 1,
        final(store).next_int_id == old(store).next_int_id,
{
    if !valid_username(form.username.as_str()) {
        return Err(AuthError::InvalidUsername);
    }
    if !valid_password(form.password.as_str()) {
        return Err(AuthError::InvalidPassword);
    }
    match User::by_name(form.username.clone(), store) {
        Ok(_) => {
            return Err(AuthError::UserExists);
        }
        Err(_) => {}
    }
    let hashed_password = match bcrypt_hash(form.password.as_str()) {
        Some(h) => h,
        None => {
            return Err(AuthError::Internal);
        }
    };
    let mut payload = NewUser::default();
    payload.username = form.username.clone();
    payload.password = Some(hashed_password);
    match payload.create(store) {
        Ok(u) => Ok(u),
        Err(_) => {
            // unreachable: the username was just checked to be free and
            // no third-party identity is attached
            Err(AuthError::Internal)
        }
    }
}

/// Sign an existing account in: find the user by name, demand a stored
/// hash, and accept exactly when the submitted password matches it.
pub fn sign_in(store: &Store, form: &AuthForm) -> (r: Result<User, AuthError>)
    requires
        store.wf(),
    ensures
        match r {
            Ok(u) => {
                &&& exists|i: int| 0 <= i < store.users@.len() && #[trigger] store.users@[i] == u
                &&& u.username@ == form.username@
                &&& (match u.password {
                    Some(h) => bcrypt_verify_spec(form.password@, h@) == Some(true),
                    None => false,
                })
            },
            Err(e) => match e {
                AuthError::UserNotFound => !store.username_exists(form.username@),
                AuthError::Passwordless => exists|i: int|
                    0 <= i < store.users@.len() && (#[trigger] store.users@[i]).username@
                        == form.username@ && store.users@[i].password is None,
                AuthError::Internal => exists|i: int|
                    0 <= i < store.users@.len() && (#[trigger] store.users@[i]).username@
                        == form.username@ && (match store.users@[i].password {
                        Some(h) => bcrypt_verify_spec(form.password@, h@) is None,
                        None => false,
                    }),
                AuthError::WrongPassword => exists|i: int|
                    0 <= i < store.users@.len() && (#[trigger] store.users@[i]).username@
                        == form.username@ && (match store.users@[i].password {
                        Some(h) => bcrypt_verify_spec(form.password@, h@) == Some(false),
                        None => false,
                    }),
                _ => false,
            },
        },
{
    let user = match User::by_name(form.username.clone(), store) {
        Ok(u) => u,
        Err(_) => {
            return Err(AuthError::UserNotFound);
        }
    };
    let ghost user_snap = user;
    let password = match user.password {
        Some(p) => p,
        None => {
            return Err(AuthError::Passwordless);
        }
    };
    match bcrypt_verify(form.password.as_str(), password.as_str()) {
        None => Err(AuthError::Internal),
        Some(false) => Err(AuthError::WrongPassword),
        Some(true) => {
            let found = User {
                id: user.id,
                discord_id: user.discord_id,
                username: user.username,
                nickname: user.nickname,
                email: user.email,
                password: Some(password),
                color: user.color,
                file_id: user.file_id,
                is_admin: user.is_admin,
                last_login: user.last_login,
                created_at: user.created_at,
            };
            proof {
                assert(found == user_snap);
            }
            Ok(found)
        }
    }
}

/// Sign a third-party identity in: hand back the linked account when
/// one exists, otherwise register one on the spot, using the identity
/// as the username and the third-party display name as the nickname.
pub fn sign_in_discord_user(
    store: &mut Store,
    discord_id: String,
    discord_username: String,
) -> (r: Result<User, DbError>)
    requires
        old(store).wf(),
        old(store).has_capacity(1),
    ensures
        final(store).wf(),
        match r {
            Ok(u) => {
                if old(store).discord_id_exists(discord_id@) {
                    &&& *final(store) == *old(store)
                    &&& exists|i: int|
                        0 <= i < old(store).users@.len() && #[trigger] old(store).users@[i] == u
                    &&& (match u.discord_id {
                        Some(d) => d@ == discord_id@,
                        None => false,
                    })
                } else {
                    &&& final(store).users@ == old(store).users@.push(u)
                    &&& u.username@ == discord_id@
                    &&& (match u.nickname {
                        Some(nick) => nick@ == discord_username@,
                        None => false,
                    })
                    &&& (match u.discord_id {
                        Some(d) => d@ == discord_id@,
                        None => false,
                    })
                }
            },
            Err(e) => {
                &&& e == DbError::ConstraintViolation
                &&& !old(store).discord_id_exists(discord_id@)
                &&& old(store).username_exists(discord_id@)
                &&& *final(store) == *old(store)
            },
        },
        final(store).channels == old(store).channels,
        final(store).room_channels == old(store).room_channels,
        final(store).dm_channels == old(store).dm_channels,
        final(store).dm_channel_users == old(store).dm_channel_users,
        final(store).messages == old(store).messages,
        final(store).message_mentions == old(store).message_mentions,
        final(store).roles == old(store).roles,
        final(store).user_roles == old(store).user_roles,
        final(store).clock == old(store).clock,
        final(store).next_id <= old(store).next_id + 1,
        final(store).next_int_id == old(store).next_int_id,
{
    match User::by_discord_id(discord_id.clone(), store) {
        Ok(u) => Ok(u),
        Err(_) => {
            let mut payload = NewUser::default();
            payload.username = discord_id.clone();
            payload.nickname = Some(discord_username);
            payload.discord_id = Some(discord_id);
            payload.create(store)
        }
    }
}

} // verus!
