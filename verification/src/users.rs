//! Users: the account rows the rest of the model references.

use vstd::prelude::*;

use crate::store::{lemma_ids_ok_push, user_ids, DbError, Store};

verus! {

/// A persisted user row.
#[derive(Debug, PartialEq)]
pub struct User {
    pub id: String,
    pub discord_id: Option<String>,
    pub username: String,
    pub nickname: Option<String>,
    pub email: Option<String>,
    pub password: Option<String>,
    pub color: Option<String>,
    pub file_id: Option<String>,
    pub is_admin: bool,
    pub last_login: Option<i64>,
    pub created_at: i64,
}

/// The two identities are both present and equal.
pub open spec fn discord_conflict(u: User, d: Option<String>) -> bool {
    match (u.discord_id, d) {
        (Some(a), Some(b)) => a@ == b@,
        _ => false,
    }
}

/// `Option<String>` views agree.
pub open spec fn opt_str_eq(a: Option<String>, b: Option<String>) -> bool {
    match (a, b) {
        (Some(x), Some(y)) => x@ == y@,
        (None, None) => true,
        _ => false,
    }
}

fn clone_opt_string(s: &Option<String>) -> (r: Option<String>)
    ensures
        r == *s,
{
    match s {
        Some(x) => Some(x.clone()),
        None => None,
    }
}

impl Clone for User {
    fn clone(&self) -> (r: User)
        ensures
            r == *self,
    {
        User {
            id: self.id.clone(),
            discord_id: clone_opt_string(&self.discord_id),
            username: self.username.clone(),
            nickname: clone_opt_string(&self.nickname),
            email: clone_opt_string(&self.email),
            password: clone_opt_string(&self.password),
            color: clone_opt_string(&self.color),
            file_id: clone_opt_string(&self.file_id),
            is_admin: self.is_admin,
            last_login: self.last_login,
            created_at: self.created_at,
        }
    }
}

impl User {
    /// Look a user up by identifier.
    pub fn by_id(user_id: String, store: &Store) -> (r: Result<User, DbError>)
        ensures
            r is Ok <==> store.user_exists(user_id@),
            match r {
                Ok(u) => u.id@ == user_id@ && exists|i: int|
                    0 <= i < store.users@.len() && #[trigger] store.users@[i] == u,
                Err(e) => e == DbError::NotFound,
            },
    {
        let n = store.users.len();
        let mut i: usize = 0;
        while i < n
            invariant
                i <= n,
                n == store.users@.len(),
                forall|j: int| 0 <= j < i ==> #[trigger] store.users@[j].id@ != user_id@,
            decreases n - i,
        {
            if store.users[i].id == user_id {
                return Ok(store.users[i].clone());
            }
            i = i + 1;
        }
        Err(DbError::NotFound)
    }

    /// Look a user up by linked third-party identity.
    pub fn by_discord_id(discord_id_query: String, store: &Store) -> (r: Result<User, DbError>)
        ensures
            r is Ok <==> store.discord_id_exists(discord_id_query@),
            match r {
                Ok(u) => (match u.discord_id {
                    Some(d) => d@ == discord_id_query@,
                    None => false,
                }) && exists|i: int|
                    0 <= i < store.users@.len() && #[trigger] store.users@[i] == u,
                Err(e) => e == DbError::NotFound,
            },
    {
        let n = store.users.len();
        let mut i: usize = 0;
        while i < n
            invariant
                i <= n,
                n == store.users@.len(),
                forall|j: int|
                    0 <= j < i ==> (match #[trigger] store.users@[j].discord_id {
                        Some(d) => d@ != discord_id_query@,
                        None => true,
                    }),
            decreases n - i,
        {
            let hit = match &store.users[i].discord_id {
                Some(d) => *d == discord_id_query,
                None => false,
            };
            if hit {
                return Ok(store.users[i].clone());
            }
            i = i + 1;
        }
        Err(DbError::NotFound)
    }

    /// Look a user up by username; under the store invariant there is
    /// at most one.
    pub fn by_name(name: String, store: &Store) -> (r: Result<User, DbError>)
        ensures
            r is Ok <==> store.username_exists(name@),
            match r {
                Ok(u) => u.username@ == name@ && exists|i: int|
                    0 <= i < store.users@.len() && #[trigger] store.users@[i] == u,
                Err(e) => e == DbError::NotFound,
            },
    {
        let n = store.users.len();
        let mut i: usize = 0;
        while i < n
            invariant
                i <= n,
                n == store.users@.len(),
                forall|j: int| 0 <= j < i ==> #[trigger] store.users@[j].username@ != name@,
            decreases n - i,
        {
            if store.users[i].username == name {
                return Ok(store.users[i].clone());
            }
            i = i + 1;
        }
        Err(DbError::NotFound)
    }
}

/// An unsaved user row.
#[derive(Debug, PartialEq)]
pub struct NewUser {
    pub username: String,
    pub discord_id: Option<String>,
    pub nickname: Option<String>,
    pub email: Option<String>,
    pub password: Option<String>,
    pub color: Option<String>,
    pub file_id: Option<String>,
}

impl Default for NewUser {
    fn default() -> (r: NewUser)
        ensures
            r.username@ == ""@,
            r.discord_id is None,
            r.nickname is None,
            r.email is None,
            r.password is None,
            r.color is None,
            r.file_id is None,
    {
        NewUser {
            username: "".to_owned(),
            discord_id: None,
            nickname: None,
            email: None,
            password: None,
            color: None,
            file_id: None,
        }
    }
}

impl NewUser {
    /// The new row would collide with an existing user: usernames are
    /// unique, and so are linked third-party identities.
    pub open spec fn conflicts(self, store: Store) -> bool {
        ||| store.username_exists(self.username@)
        ||| (match self.discord_id {
            Some(d) => store.discord_id_exists(d@),
            None => false,
        })
    }

    /// Insert the user. Fails, leaving the store untouched, exactly
    /// when the username or the linked identity is already taken.
    pub fn create(&self, store: &mut Store) -> (r: Result<User, DbError>)
        requires
            old(store).wf(),
            old(store).has_capacity(1),
        ensures
            final(store).wf(),
            r is Ok <==> !self.conflicts(*old(store)),
            match r {
                Ok(u) => {
                    &&& final(store).users@ == old(store).users@.push(u)
                    &&& u.username@ == self.username@
                    &&& opt_str_eq(u.discord_id, self.discord_id)
                    &&& opt_str_eq(u.nickname, self.nickname)
                    &&& opt_str_eq(u.email, self.email)
                    &&& opt_str_eq(u.password, self.password)
                    &&& opt_str_eq(u.color, self.color)
                    &&& opt_str_eq(u.file_id, self.file_id)
                    &&& !u.is_admin
                    &&& u.last_login is None
                    &&& u.created_at == old(store).clock
                    &&& !old(store).user_exists(u.id@)
                },
                Err(e) => e == DbError::ConstraintViolation && *final(store) == *old(store),
            },
            final(store).channels == old(store).channels,
            final(store).room_channels == old(store).room_channels,
            final(store).dm_channels == old(store).dm_channels,
            final(store).dm_channel_users == old(store).dm_channel_users,
            final(store).messages == old(store).messages,
            final(store).message_mentions == old(store).message_mentions,
            final(store).roles == old(store).roles,
            final(store).user_roles == old(store).user_roles,
            final(store).clock == old(store).clock,
            final(store).next_id <= old(store).next_id + 1,
            final(store).next_int_id == old(store).next_int_id,
    {
        // uniqueness constraints
        let n = store.users.len();
        let mut i: usize = 0;
        while i < n
            invariant
                i <= n,
                n == store.users@.len(),
                *store == *old(store),
                store.wf(),
                forall|j: int| 0 <= j < i ==> #[trigger] store.users@[j].username@ != self.username@,
                forall|j: int|
                    0 <= j < i ==> !discord_conflict(#[trigger] store.users@[j], self.discord_id),
            decreases n - i,
        {
            if store.users[i].username == self.username {
                return Err(DbError::ConstraintViolation);
            }
            let clash = match (&store.users[i].discord_id, &self.discord_id) {
                (Some(a), Some(b)) => *a == *b,
                _ => false,
            };
            if clash {
                return Err(DbError::ConstraintViolation);
            }
            i = i + 1;
        }

        let ghost prev = *store;
        let uid = store.fresh_str_id();
        let user = User {
            id: uid,
            discord_id: clone_opt_string(&self.discord_id),
            username: self.username.clone(),
            nickname: clone_opt_string(&self.nickname),
            email: clone_opt_string(&self.email),
            password: clone_opt_string(&self.password),
            color: clone_opt_string(&self.color),
            file_id: clone_opt_string(&self.file_id),
            is_admin: false,
            last_login: None,
            created_at: store.clock,
        };
        let result = user.clone();
        store.users.push(user);
        proof {
            assert(user_ids(store.users@) =~= user_ids(prev.users@).push(
                crate::store::dec_str(prev.next_id),
            ));
            lemma_ids_ok_push(user_ids(prev.users@), prev.next_id);
            crate::store::lemma_ids_ok_grow(
                crate::store::channel_ids(prev.channels@),
                prev.next_id,
                (prev.next_id + 1) as u64,
            );
            crate::store::lemma_ids_ok_grow(
                crate::store::room_channel_ids(prev.room_channels@),
                prev.next_id,
                (prev.next_id + 1) as u64,
            );
            crate::store::lemma_ids_ok_grow(
                crate::store::dm_channel_ids(prev.dm_channels@),
                prev.next_id,
                (prev.next_id + 1) as u64,
            );
            crate::store::lemma_ids_ok_grow(
                crate::store::dm_channel_user_ids(prev.dm_channel_users@),
                prev.next_id,
                (prev.next_id + 1) as u64,
            );
            crate::store::lemma_ids_ok_grow(
                crate::store::message_ids(prev.messages@),
                prev.next_id,
                (prev.next_id + 1) as u64,
            );
            crate::store::lemma_ids_ok_grow(
                crate::store::mention_ids(prev.message_mentions@),
                prev.next_id,
                (prev.next_id + 1) as u64,
            );
            assert(user_ids(prev.users@).len() == prev.users@.len());
            assert forall|k: int| 0 <= k < prev.users@.len() implies #[trigger] prev.users@[k].id@
                != crate::store::dec_str(prev.next_id) by {
                assert(user_ids(prev.users@)[k] == prev.users@[k].id@);
            }
            assert(user_ids(store.users@) =~= user_ids(prev.users@).push(
                crate::store::dec_str(prev.next_id),
            ));
            crate::store::lemma_subtypes_complete_preserved(prev, *store);
        }
        Ok(result)
    }
}

impl User {
    /// Remove this user's own row; the count of removed rows is
    /// returned, zero when no row carries this identifier.
    pub fn delete(&self, store: &mut Store) -> (r: Result<usize, DbError>)
        requires
            old(store).wf(),
        ensures
            final(store).wf(),
            match r {
                Ok(count) => {
                    if old(store).user_exists(self.id@) {
                        count == 1 && exists|i: int|
                            {
                                &&& 0 <= i < old(store).users@.len()
                                &&& old(store).users@[i].id@ == self.id@
                                &&& final(store).users@ == old(store).users@.remove(i)
                            }
                    } else {
                        count == 0 && *final(store) == *old(store)
                    }
                },
                Err(_) => false,
            },
            final(store).channels == old(store).channels,
            final(store).room_channels == old(store).room_channels,
            final(store).dm_channels == old(store).dm_channels,
            final(store).dm_channel_users == old(store).dm_channel_users,
            final(store).messages == old(store).messages,
            final(store).message_mentions == old(store).message_mentions,
            final(store).roles == old(store).roles,
            final(store).user_roles == old(store).user_roles,
            final(store).clock == old(store).clock,
            final(store).next_id == old(store).next_id,
            final(store).next_int_id == old(store).next_int_id,
    {
        let ghost entry = *store;
        let n = store.users.len();
        let mut i: usize = 0;
        while i < n
            invariant
                i <= n,
                n == store.users@.len(),
                *store == *old(store),
                *store == entry,
                entry.wf(),
                forall|j: int| 0 <= j < i ==> #[trigger] store.users@[j].id@ != self.id@,
            decreases n - i,
        {
            if store.users[i].id == self.id {
                store.users.remove(i);
                proof {
                    let cut = entry.users@.remove(i as int);
                    assert(user_ids(store.users@) =~= user_ids(entry.users@).remove(i as int));
                    crate::store::lemma_ids_ok_remove(
                        user_ids(entry.users@),
                        entry.next_id,
                        i as int,
                    );
                    assert forall|k: int, j: int|
                        0 <= k < j < cut.len() implies cut[k].username@ != cut[j].username@ by {
                        if j < i as int {
                            assert(cut[k] == entry.users@[k] && cut[j] == entry.users@[j]);
                        } else if k < i as int {
                            assert(cut[k] == entry.users@[k] && cut[j] == entry.users@[j + 1]);
                        } else {
                            assert(cut[k] == entry.users@[k + 1] && cut[j] == entry.users@[j + 1]);
                        }
                    }
                    assert forall|k: int, j: int|
                        0 <= k < j < cut.len() implies (match (
                        #[trigger] cut[k].discord_id,
                        #[trigger] cut[j].discord_id,
                    ) {
                        (Some(a), Some(b)) => a@ != b@,
                        _ => true,
                    }) by {
                        if j < i as int {
                            assert(cut[k] == entry.users@[k] && cut[j] == entry.users@[j]);
                        } else if k < i as int {
                            assert(cut[k] == entry.users@[k] && cut[j] == entry.users@[j + 1]);
                        } else {
                            assert(cut[k] == entry.users@[k + 1] && cut[j] == entry.users@[j + 1]);
                        }
                    }
                    crate::store::lemma_subtypes_complete_preserved(entry, *store);
                }
                return Ok(1);
            }
            i = i + 1;
        }
        Ok(0)
    }
}

impl User {
    /// Another row (a different identifier) already holds this username
    /// or this linked identity.
    pub open spec fn update_conflicts(self, store: Store) -> bool {
        exists|j: int|
            0 <= j < store.users@.len() && (#[trigger] store.users@[j]).id@ != self.id@ && (
            store.users@[j].username@ == self.username@ || discord_conflict(
                store.users@[j],
                self.discord_id,
            ))
    }

    /// Replace the user row carrying this value's identifier with this
    /// value: the identifier is the filter, everything else is written.
    /// The uniqueness constraints on the username and the linked
    /// identity are enforced against every other row.
    pub fn update(&self, store: &mut Store) -> (r: Result<User, DbError>)
        requires
            old(store).wf(),
        ensures
            final(store).wf(),
            r is Ok <==> (old(store).user_exists(self.id@) && !self.update_conflicts(
                *old(store),
            )),
            match r {
                Ok(u) => u == *self && exists|i: int|
                    {
                        &&& 0 <= i < old(store).users@.len()
                        &&& old(store).users@[i].id@ == self.id@
                        &&& final(store).users@ == old(store).users@.update(i, *self)
                    },
                Err(e) => *final(store) == *old(store) && match e {
                    DbError::NotFound => !old(store).user_exists(self.id@),
                    DbError::ConstraintViolation => old(store).user_exists(self.id@)
                        && self.update_conflicts(*old(store)),
                    _ => false,
                },
            },
            final(store).channels == old(store).channels,
            final(store).room_channels == old(store).room_channels,
            final(store).dm_channels == old(store).dm_channels,
            final(store).dm_channel_users == old(store).dm_channel_users,
            final(store).messages == old(store).messages,
            final(store).message_mentions == old(store).message_mentions,
            final(store).roles == old(store).roles,
            final(store).user_roles == old(store).user_roles,
            final(store).clock == old(store).clock,
            final(store).next_id == old(store).next_id,
            final(store).next_int_id == old(store).next_int_id,
    {
        let ghost entry = *store;
        let n = store.users.len();

        // the row to rewrite
        let mut i: usize = 0;
        let mut target: usize = 0;
        let mut found = false;
        while i < n
            invariant
                i <= n,
                n == store.users@.len(),
                *store == *old(store),
                *store == entry,
                entry.wf(),
                found ==> target < n && store.users@[target as int].id@ == self.id@,
                !found ==> forall|j: int| 0 <= j < i ==> #[trigger] store.users@[j].id@
                    != self.id@,
            decreases n - i,
        {
            if !found && store.users[i].id == self.id {
                target = i;
                found = true;
            }
            i = i + 1;
        }
        if !found {
            return Err(DbError::NotFound);
        }

        // the uniqueness constraints, against every other row
        let mut k: usize = 0;
        while k < n
            invariant
                k <= n,
                n == store.users@.len(),
                *store == *old(store),
                *store == entry,
                entry.wf(),
                target < n && store.users@[target as int].id@ == self.id@,
                forall|j: int|
                    0 <= j < k && (#[trigger] store.users@[j]).id@ != self.id@
                        ==> store.users@[j].username@ != self.username@ && !discord_conflict(
                        store.users@[j],
                        self.discord_id,
                    ),
            decreases n - k,
        {
            if !(store.users[k].id == self.id) {
                if store.users[k].username == self.username {
                    return Err(DbError::ConstraintViolation);
                }
                let clash = match (&store.users[k].discord_id, &self.discord_id) {
                    (Some(a), Some(b)) => *a == *b,
                    _ => false,
                };
                if clash {
                    return Err(DbError::ConstraintViolation);
                }
            }
            k = k + 1;
        }

        let row = self.clone();
        let result = self.clone();
        store.users.remove(target);
        store.users.insert(target, row);
        proof {
            let t = target as int;
            assert(store.users@ =~= entry.users@.update(t, *self));
            assert(user_ids(store.users@) =~= user_ids(entry.users@));
            assert forall|a: int| 0 <= a < entry.users@.len() && a != t implies
                #[trigger] entry.users@[a].id@ != self.id@ by {
                assert(user_ids(entry.users@)[a] == entry.users@[a].id@);
                assert(user_ids(entry.users@)[t] == entry.users@[t].id@);
            }
            assert forall|a: int, b: int|
                0 <= a < b < store.users@.len() implies store.users@[a].username@
                != store.users@[b].username@ by {
                if a != t && b != t {
                    assert(store.users@[a] == entry.users@[a]);
                    assert(store.users@[b] == entry.users@[b]);
                } else if a == t {
                    assert(entry.users@[b].id@ != self.id@);
                } else {
                    assert(entry.users@[a].id@ != self.id@);
                }
            }
            assert forall|a: int, b: int|
                0 <= a < b < store.users@.len() implies (match (
                #[trigger] store.users@[a].discord_id,
                #[trigger] store.users@[b].discord_id,
            ) {
                (Some(x), Some(y)) => x@ != y@,
                _ => true,
            }) by {
                if a != t && b != t {
                    assert(store.users@[a] == entry.users@[a]);
                    assert(store.users@[b] == entry.users@[b]);
                } else if a == t {
                    assert(entry.users@[b].id@ != self.id@);
                    assert(!discord_conflict(entry.users@[b], self.discord_id));
                } else {
                    assert(entry.users@[a].id@ != self.id@);
                    assert(!discord_conflict(entry.users@[a], self.discord_id));
                }
            }
            crate::store::lemma_subtypes_complete_preserved(entry, *store);
        }
        Ok(result)
    }
}

} // verus!
