//! Channels: a generic entity that every message references, paired
//! with exactly one specialization — a direct-message channel or a
//! room-bound channel. The pair is created atomically: a failure at any
//! point leaves the store exactly as it was, so no orphan generic
//! channel can ever persist.

use vstd::prelude::*;

use crate::store::{
    channel_ids, dec_str, dm_channel_ids, dm_channel_user_ids, lemma_assigned_is_not_next,
    lemma_ids_ok_grow, lemma_ids_ok_push, room_channel_ids, DbError, Store,
};

verus! {

/// The generic channel row: identity, soft-delete marker, creation
/// time. Deleting a channel sets the marker; the row stays.
#[derive(Debug, PartialEq)]
pub struct Channel {
    pub id: String,
    pub deleted_at: Option<i64>,
    pub created_at: i64,
}

impl Clone for Channel {
    fn clone(&self) -> (r: Channel)
        ensures
            r == *self,
    {
        Channel {
            id: self.id.clone(),
            deleted_at: self.deleted_at,
            created_at: self.created_at,
        }
    }
}

/// Payload for creating a generic channel: it has no required input,
/// the row is pure identity plus timestamps.
#[derive(Debug, PartialEq)]
pub struct NewChannel;

/// A direct-message specialization row.
#[derive(Debug, PartialEq)]
pub struct DmChannel {
    pub id: String,
    pub channel_id: String,
}

impl Clone for DmChannel {
    fn clone(&self) -> (r: DmChannel)
        ensures
            r == *self,
    {
        DmChannel { id: self.id.clone(), channel_id: self.channel_id.clone() }
    }
}

/// Payload for creating a direct-message channel: the participant
/// users.
#[derive(Debug, PartialEq)]
pub struct NewDmChannel {
    pub user_ids: Vec<String>,
}

/// A room-bound specialization row.
#[derive(Debug, PartialEq)]
pub struct RoomChannel {
    pub id: String,
    pub channel_id: String,
    pub room_id: String,
}

impl Clone for RoomChannel {
    fn clone(&self) -> (r: RoomChannel)
        ensures
            r == *self,
    {
        RoomChannel {
            id: self.id.clone(),
            channel_id: self.channel_id.clone(),
            room_id: self.room_id.clone(),
        }
    }
}

/// Payload for creating a room channel. `channel_id` is ignored on
/// creation: the protocol injects the freshly created generic channel's
/// identifier.
#[derive(Debug, PartialEq)]
pub struct NewRoomChannel {
    pub channel_id: Option<String>,
    pub room_id: String,
}

/// A participant row of a direct-message channel.
#[derive(Debug, PartialEq)]
pub struct DmChannelUser {
    pub id: String,
    pub user_id: String,
    pub dm_channel_id: String,
}

impl Clone for DmChannelUser {
    fn clone(&self) -> (r: DmChannelUser)
        ensures
            r == *self,
    {
        DmChannelUser {
            id: self.id.clone(),
            user_id: self.user_id.clone(),
            dm_channel_id: self.dm_channel_id.clone(),
        }
    }
}

/// Payload for one participant row.
#[derive(Debug, PartialEq)]
pub struct NewDmChannelUser {
    pub user_id: String,
    pub dm_channel_id: String,
}

impl NewChannel {
    /// Build the generic channel row of a creation pair: fresh
    /// identifier, clean deletion marker, the store's clock as creation
    /// time. The row is handed back, not inserted: a generic channel
    /// only ever enters the store together with its one specialization.
    pub(crate) fn build(store: &mut Store) -> (r: Channel)
        requires
            old(store).next_id < u64::MAX,
        ensures
            r.id@ == dec_str(old(store).next_id),
            r.deleted_at is None,
            r.created_at == old(store).clock,
            final(store).next_id == old(store).next_id + 1,
            final(store).next_int_id == old(store).next_int_id,
            final(store).channels == old(store).channels,
            final(store).room_channels == old(store).room_channels,
            final(store).dm_channels == old(store).dm_channels,
            final(store).dm_channel_users == old(store).dm_channel_users,
            final(store).messages == old(store).messages,
            final(store).message_mentions == old(store).message_mentions,
            final(store).users == old(store).users,
            final(store).roles == old(store).roles,
            final(store).user_roles == old(store).user_roles,
            final(store).clock == old(store).clock,
    {
        let cid = store.fresh_str_id();
        Channel { id: cid, deleted_at: None, created_at: store.clock }
    }
}

/// Replacing one channel row while keeping its identifier preserves the
/// store invariant: every identifier-indexed fact is untouched.
proof fn lemma_channel_row_replaced_wf(prev: Store, post: Store, i: int)
    requires
        prev.wf(),
        0 <= i < prev.channels@.len(),
        post.channels@ == prev.channels@.update(i, post.channels@[i]),
        post.channels@[i].id@ == prev.channels@[i].id@,
        post.room_channels == prev.room_channels,
        post.dm_channels == prev.dm_channels,
        post.dm_channel_users == prev.dm_channel_users,
        post.messages == prev.messages,
        post.message_mentions == prev.message_mentions,
        post.users == prev.users,
        post.roles == prev.roles,
        post.user_roles == prev.user_roles,
        post.next_id == prev.next_id,
        post.next_int_id == prev.next_int_id,
    ensures
        post.wf(),
{
    assert(channel_ids(post.channels@) =~= channel_ids(prev.channels@));
    assert forall|k: int| 0 <= k < post.channels@.len() implies post.has_subtype(
        #[trigger] post.channels@[k].id@,
    ) by {
        assert(post.channels@[k].id@ == prev.channels@[k].id@);
        assert(prev.has_subtype(prev.channels@[k].id@));
        if exists|j: int|
            0 <= j < prev.room_channels@.len() && #[trigger] prev.room_channels@[j].channel_id@
                == prev.channels@[k].id@ {
            let j = choose|j: int|
                0 <= j < prev.room_channels@.len()
                    && #[trigger] prev.room_channels@[j].channel_id@ == prev.channels@[k].id@;
            assert(post.room_channels@[j].channel_id@ == post.channels@[k].id@);
        } else {
            let j = choose|j: int|
                0 <= j < prev.dm_channels@.len() && #[trigger] prev.dm_channels@[j].channel_id@
                    == prev.channels@[k].id@;
            assert(post.dm_channels@[j].channel_id@ == post.channels@[k].id@);
        }
    }
    assert forall|j: int| 0 <= j < post.room_channels@.len() implies post.channel_exists(
        #[trigger] post.room_channels@[j].channel_id@,
    ) by {
        assert(prev.channel_exists(prev.room_channels@[j].channel_id@));
        let k = choose|k: int|
            0 <= k < prev.channels@.len() && #[trigger] prev.channels@[k].id@
                == prev.room_channels@[j].channel_id@;
        assert(post.channels@[k].id@ == post.room_channels@[j].channel_id@);
    }
    assert forall|j: int| 0 <= j < post.dm_channels@.len() implies post.channel_exists(
        #[trigger] post.dm_channels@[j].channel_id@,
    ) by {
        assert(prev.channel_exists(prev.dm_channels@[j].channel_id@));
        let k = choose|k: int|
            0 <= k < prev.channels@.len() && #[trigger] prev.channels@[k].id@
                == prev.dm_channels@[j].channel_id@;
        assert(post.channels@[k].id@ == post.dm_channels@[j].channel_id@);
    }
}

impl Channel {
    /// Look a channel up by its identifier.
    pub fn by_id(channel_id: String, store: &Store) -> (r: Result<Channel, DbError>)
        ensures
            r is Ok <==> store.channel_exists(channel_id@),
            match r {
                Ok(c) => c.id@ == channel_id@ && exists|i: int|
                    0 <= i < store.channels@.len() && #[trigger] store.channels@[i] == c,
                Err(e) => e == DbError::NotFound,
            },
    {
        let n = store.channels.len();
        let mut i: usize = 0;
        while i < n
            invariant
                i <= n,
                n == store.channels@.len(),
                forall|j: int| 0 <= j < i ==> #[trigger] store.channels@[j].id@ != channel_id@,
            decreases n - i,
        {
            if store.channels[i].id == channel_id {
                return Ok(store.channels[i].clone());
            }
            i = i + 1;
        }
        Err(DbError::NotFound)
    }

    /// Soft-delete this channel: set its deletion marker to the store's
    /// clock. Messages that reference the channel stay untouched.
    pub fn delete(&self, store: &mut Store) -> (r: Result<usize, DbError>)
        requires
            old(store).wf(),
        ensures
            final(store).wf(),
            r is Ok <==> old(store).channel_exists(self.id@),
            match r {
                Ok(count) => count == 1 && exists|i: int|
                    {
                        &&& 0 <= i < old(store).channels@.len()
                        &&& old(store).channels@[i].id@ == self.id@
                        &&& final(store).channels@ == old(store).channels@.update(
                            i,
                            (Channel {
                                id: old(store).channels@[i].id,
                                deleted_at: Some(old(store).clock),
                                created_at: old(store).channels@[i].created_at,
                            }),
                        )
                    },
                Err(e) => e == DbError::NotFound && *final(store) == *old(store),
            },
            final(store).room_channels == old(store).room_channels,
            final(store).dm_channels == old(store).dm_channels,
            final(store).dm_channel_users == old(store).dm_channel_users,
            final(store).messages == old(store).messages,
            final(store).message_mentions == old(store).message_mentions,
            final(store).users == old(store).users,
            final(store).roles == old(store).roles,
            final(store).user_roles == old(store).user_roles,
            final(store).clock == old(store).clock,
            final(store).next_id == old(store).next_id,
            final(store).next_int_id == old(store).next_int_id,
    {
        let ghost entry = *store;
        proof {
            assert(entry.wf());
        }
        let n = store.channels.len();
        let mut i: usize = 0;
        while i < n
            invariant
                i <= n,
                n == store.channels@.len(),
                *store == *old(store),
                *store == entry,
                entry.wf(),
                forall|j: int| 0 <= j < i ==> #[trigger] store.channels@[j].id@ != self.id@,
            decreases n - i,
        {
            if store.channels[i].id == self.id {
                let marked = Channel {
                    id: store.channels[i].id.clone(),
                    deleted_at: Some(store.clock),
                    created_at: store.channels[i].created_at,
                };
                let ghost before = store.channels@;
                store.channels.remove(i);
                store.channels.insert(i, marked);
                proof {
                    assert(before == entry.channels@);
                    assert(store.channels@ =~= before.update(
                        i as int,
                        (Channel {
                            id: before[i as int].id,
                            deleted_at: Some(entry.clock),
                            created_at: before[i as int].created_at,
                        }),
                    ));
                    lemma_channel_row_replaced_wf(entry, *store, i as int);
                }
                return Ok(1);
            }
            i = i + 1;
        }
        Err(DbError::NotFound)
    }
}

impl Channel {
    /// Replace the channel row carrying this value's identifier with
    /// this value: the identifier is the filter, everything else is
    /// written.
    pub fn update(&self, store: &mut Store) -> (r: Result<Channel, DbError>)
        requires
            old(store).wf(),
        ensures
            final(store).wf(),
            r is Ok <==> old(store).channel_exists(self.id@),
            match r {
                Ok(c) => c == *self && exists|i: int|
                    {
                        &&& 0 <= i < old(store).channels@.len()
                        &&& old(store).channels@[i].id@ == self.id@
                        &&& final(store).channels@ == old(store).channels@.update(i, *self)
                    },
                Err(e) => e == DbError::NotFound && *final(store) == *old(store),
            },
            final(store).room_channels == old(store).room_channels,
            final(store).dm_channels == old(store).dm_channels,
            final(store).dm_channel_users == old(store).dm_channel_users,
            final(store).messages == old(store).messages,
            final(store).message_mentions == old(store).message_mentions,
            final(store).users == old(store).users,
            final(store).roles == old(store).roles,
            final(store).user_roles == old(store).user_roles,
            final(store).clock == old(store).clock,
            final(store).next_id == old(store).next_id,
            final(store).next_int_id == old(store).next_int_id,
    {
        let ghost entry = *store;
        let n = store.channels.len();
        let mut i: usize = 0;
        while i < n
            invariant
                i <= n,
                n == store.channels@.len(),
                *store == *old(store),
                *store == entry,
                entry.wf(),
                forall|j: int| 0 <= j < i ==> #[trigger] store.channels@[j].id@ != self.id@,
            decreases n - i,
        {
            if store.channels[i].id == self.id {
                let row = self.clone();
                let result = self.clone();
                store.channels.remove(i);
                store.channels.insert(i, row);
                proof {
                    assert(store.channels@ =~= entry.channels@.update(i as int, *self));
                    lemma_channel_row_replaced_wf(entry, *store, i as int);
                }
                return Ok(result);
            }
            i = i + 1;
        }
        Err(DbError::NotFound)
    }
}

impl RoomChannel {
    /// Look the room channel of a room up; under the store invariant
    /// there is at most one.
    pub fn by_room_id(room_id_query: String, store: &Store) -> (r: Result<RoomChannel, DbError>)
        ensures
            r is Ok <==> store.room_channel_exists(room_id_query@),
            match r {
                Ok(rc) => rc.room_id@ == room_id_query@ && exists|i: int|
                    0 <= i < store.room_channels@.len() && #[trigger] store.room_channels@[i] == rc,
                Err(e) => e == DbError::NotFound,
            },
    {
        let n = store.room_channels.len();
        let mut i: usize = 0;
        while i < n
            invariant
                i <= n,
                n == store.room_channels@.len(),
                forall|j: int|
                    0 <= j < i ==> #[trigger] store.room_channels@[j].room_id@ != room_id_query@,
            decreases n - i,
        {
            if store.room_channels[i].room_id == room_id_query {
                return Ok(store.room_channels[i].clone());
            }
            i = i + 1;
        }
        Err(DbError::NotFound)
    }

    /// Look a room channel up by its own identifier.
    pub fn by_id(room_channel_id: String, store: &Store) -> (r: Result<RoomChannel, DbError>)
        ensures
            r is Ok <==> exists|i: int|
                0 <= i < store.room_channels@.len() && #[trigger] store.room_channels@[i].id@
                    == room_channel_id@,
            match r {
                Ok(rc) => rc.id@ == room_channel_id@ && exists|i: int|
                    0 <= i < store.room_channels@.len() && #[trigger] store.room_channels@[i] == rc,
                Err(e) => e == DbError::NotFound,
            },
    {
        let n = store.room_channels.len();
        let mut i: usize = 0;
        while i < n
            invariant
                i <= n,
                n == store.room_channels@.len(),
                forall|j: int|
                    0 <= j < i ==> #[trigger] store.room_channels@[j].id@ != room_channel_id@,
            decreases n - i,
        {
            if store.room_channels[i].id == room_channel_id {
                return Ok(store.room_channels[i].clone());
            }
            i = i + 1;
        }
        Err(DbError::NotFound)
    }
}

/// The room-channel table of `post` is the table of `prev` with the row
/// carrying `q`'s identifier rewritten to `rc`: same identifier, same
/// pair link, `q`'s room.
pub open spec fn room_id_rewritten(prev: Store, post: Store, q: RoomChannel, rc: RoomChannel) -> bool {
    exists|i: int|
        {
            &&& 0 <= i < prev.room_channels@.len()
            &&& #[trigger] prev.room_channels@[i].id@ == q.id@
            &&& rc.id@ == q.id@
            &&& rc.channel_id@ == prev.room_channels@[i].channel_id@
            &&& rc.room_id@ == q.room_id@
            &&& post.room_channels@ == prev.room_channels@.update(i, rc)
        }
}

impl RoomChannel {
    /// Rewrite the room this room channel belongs to: the identifier is
    /// the filter, and only `room_id` is written. The pair link
    /// (`channel_id`) belongs to the creation protocol and is never
    /// rewritten, so the stored value keeps it. The uniqueness
    /// constraint on `room_id` is enforced against every other row.
    #[verifier::rlimit(60)]
    #[verifier::spinoff_prover]
    pub fn update(&self, store: &mut Store) -> (r: Result<RoomChannel, DbError>)
        requires
            old(store).wf(),
        ensures
            final(store).wf(),
            r is Ok <==> ((exists|i: int|
                0 <= i < old(store).room_channels@.len()
                    && #[trigger] old(store).room_channels@[i].id@ == self.id@) && !(exists|j: int|
                0 <= j < old(store).room_channels@.len()
                    && (#[trigger] old(store).room_channels@[j]).id@ != self.id@
                    && old(store).room_channels@[j].room_id@ == self.room_id@)),
            match r {
                Ok(rc) => room_id_rewritten(*old(store), *final(store), *self, rc),
                Err(e) => *final(store) == *old(store) && match e {
                    DbError::NotFound => !(exists|i: int|
                        0 <= i < old(store).room_channels@.len()
                            && #[trigger] old(store).room_channels@[i].id@ == self.id@),
                    DbError::ConstraintViolation => (exists|i: int|
                        0 <= i < old(store).room_channels@.len()
                            && #[trigger] old(store).room_channels@[i].id@ == self.id@) && (
                    exists|j: int|
                        0 <= j < old(store).room_channels@.len()
                            && (#[trigger] old(store).room_channels@[j]).id@ != self.id@
                            && old(store).room_channels@[j].room_id@ == self.room_id@),
                    _ => false,
                },
            },
            final(store).channels == old(store).channels,
            final(store).dm_channels == old(store).dm_channels,
            final(store).dm_channel_users == old(store).dm_channel_users,
            final(store).messages == old(store).messages,
            final(store).message_mentions == old(store).message_mentions,
            final(store).users == old(store).users,
            final(store).roles == old(store).roles,
            final(store).user_roles == old(store).user_roles,
            final(store).clock == old(store).clock,
            final(store).next_id == old(store).next_id,
            final(store).next_int_id == old(store).next_int_id,
    {
        let ghost entry = *store;
        let n = store.room_channels.len();

        // the row to rewrite
        let mut i: usize = 0;
        let mut target: usize = 0;
        let mut found = false;
        while i < n
            invariant
                i <= n,
                n == store.room_channels@.len(),
                *store == *old(store),
                *store == entry,
                entry.wf(),
                found ==> target < n && store.room_channels@[target as int].id@ == self.id@,
                !found ==> forall|j: int|
                    0 <= j < i ==> #[trigger] store.room_channels@[j].id@ != self.id@,
            decreases n - i,
        {
            if !found && store.room_channels[i].id == self.id {
                target = i;
                found = true;
            }
            i = i + 1;
        }
        if !found {
            return Err(DbError::NotFound);
        }

        // the uniqueness constraint on room_id, against every other row
        let mut k: usize = 0;
        while k < n
            invariant
                k <= n,
                n == store.room_channels@.len(),
                *store == *old(store),
                *store == entry,
                entry.wf(),
                target < n && store.room_channels@[target as int].id@ == self.id@,
                forall|j: int|
                    0 <= j < k && (#[trigger] store.room_channels@[j]).id@ != self.id@
                        ==> store.room_channels@[j].room_id@ != self.room_id@,
            decreases n - k,
        {
            if !(store.room_channels[k].id == self.id) {
                if store.room_channels[k].room_id == self.room_id {
                    return Err(DbError::ConstraintViolation);
                }
            }
            k = k + 1;
        }

        let row = RoomChannel {
            id: self.id.clone(),
            channel_id: store.room_channels[target].channel_id.clone(),
            room_id: self.room_id.clone(),
        };
        let result = row.clone();
        store.room_channels.remove(target);
        store.room_channels.insert(target, row);
        proof {
            let t = target as int;
            assert(store.room_channels@ =~= entry.room_channels@.update(t, result));
            assert(room_channel_ids(store.room_channels@) =~= room_channel_ids(
                entry.room_channels@,
            ));
            assert forall|a: int|
                0 <= a < store.room_channels@.len() implies #[trigger] store.room_channels@[a].channel_id@
                == entry.room_channels@[a].channel_id@ by {}
            assert forall|a: int| 0 <= a < entry.room_channels@.len() && a != t implies
                #[trigger] entry.room_channels@[a].id@ != self.id@ by {
                assert(room_channel_ids(entry.room_channels@)[a]
                    == entry.room_channels@[a].id@);
                assert(room_channel_ids(entry.room_channels@)[t]
                    == entry.room_channels@[t].id@);
            }
            assert forall|k2: int|
                0 <= k2 < store.channels@.len() implies store.has_subtype(
                #[trigger] store.channels@[k2].id@,
            ) by {
                assert(entry.has_subtype(entry.channels@[k2].id@));
                if exists|j: int|
                    0 <= j < entry.room_channels@.len()
                        && #[trigger] entry.room_channels@[j].channel_id@
                        == entry.channels@[k2].id@ {
                    let j = choose|j: int|
                        0 <= j < entry.room_channels@.len()
                            && #[trigger] entry.room_channels@[j].channel_id@
                            == entry.channels@[k2].id@;
                    assert(store.room_channels@[j].channel_id@ == store.channels@[k2].id@);
                } else {
                    let j = choose|j: int|
                        0 <= j < entry.dm_channels@.len()
                            && #[trigger] entry.dm_channels@[j].channel_id@
                            == entry.channels@[k2].id@;
                    assert(store.dm_channels@[j].channel_id@ == store.channels@[k2].id@);
                }
            }
            assert forall|j: int|
                0 <= j < store.room_channels@.len() implies store.channel_exists(
                #[trigger] store.room_channels@[j].channel_id@,
            ) by {
                assert(entry.channel_exists(entry.room_channels@[j].channel_id@));
                let k2 = choose|k2: int|
                    0 <= k2 < entry.channels@.len() && #[trigger] entry.channels@[k2].id@
                        == entry.room_channels@[j].channel_id@;
                assert(store.channels@[k2].id@ == store.room_channels@[j].channel_id@);
            }
            assert forall|a: int, b: int|
                0 <= a < b < store.room_channels@.len() implies store.room_channels@[a].room_id@
                != store.room_channels@[b].room_id@ by {
                if a != t && b != t {
                    assert(store.room_channels@[a] == entry.room_channels@[a]);
                    assert(store.room_channels@[b] == entry.room_channels@[b]);
                } else if a == t {
                    assert(entry.room_channels@[b].id@ != self.id@);
                } else {
                    assert(entry.room_channels@[a].id@ != self.id@);
                }
            }
            // the witness for the caller's view of the rewrite
            assert(entry == *old(store));
            assert(store.room_channels@ == old(store).room_channels@.update(t, result));
            assert(0 <= t < old(store).room_channels@.len() && old(
                store,
            ).room_channels@[t].id@ == self.id@ && result.id@ == self.id@ && result.channel_id@
                == old(store).room_channels@[t].channel_id@ && result.room_id@ == self.room_id@);
            assert(room_id_rewritten(*old(store), *store, *self, result));
        }
        Ok(result)
    }
}

/// The tables of `post` are those of `prev` with the room channel
/// carrying `q`'s identifier removed together with its generic channel.
pub open spec fn pair_removed(prev: Store, post: Store, q: RoomChannel) -> bool {
    exists|j: int, i: int|
        {
            &&& 0 <= j < prev.room_channels@.len()
            &&& #[trigger] prev.room_channels@[j].id@ == q.id@
            &&& 0 <= i < prev.channels@.len()
            &&& #[trigger] prev.channels@[i].id@ == prev.room_channels@[j].channel_id@
            &&& post.room_channels@ == prev.room_channels@.remove(j)
            &&& post.channels@ == prev.channels@.remove(i)
        }
}

/// Removing one room channel together with the generic channel it
/// specializes preserves the store invariant: every other channel keeps
/// its specialization, and every other link still resolves.
proof fn lemma_pair_removed_wf(prev: Store, post: Store, j: int, i: int)
    requires
        prev.wf(),
        0 <= j < prev.room_channels@.len(),
        0 <= i < prev.channels@.len(),
        prev.channels@[i].id@ == prev.room_channels@[j].channel_id@,
        post.room_channels@ == prev.room_channels@.remove(j),
        post.channels@ == prev.channels@.remove(i),
        post.dm_channels == prev.dm_channels,
        post.dm_channel_users == prev.dm_channel_users,
        post.messages == prev.messages,
        post.message_mentions == prev.message_mentions,
        post.users == prev.users,
        post.roles == prev.roles,
        post.user_roles == prev.user_roles,
        post.next_id == prev.next_id,
        post.next_int_id == prev.next_int_id,
    ensures
        post.wf(),
{
    assert(channel_ids(post.channels@) =~= channel_ids(prev.channels@).remove(i));
    crate::store::lemma_ids_ok_remove(channel_ids(prev.channels@), prev.next_id, i);
    assert(room_channel_ids(post.room_channels@) =~= room_channel_ids(
        prev.room_channels@,
    ).remove(j));
    crate::store::lemma_ids_ok_remove(room_channel_ids(prev.room_channels@), prev.next_id, j);

    // channel identifiers are distinct, so only the removed channel
    // carries the removed link's target
    assert forall|k: int|
        0 <= k < prev.channels@.len() && k != i implies #[trigger] prev.channels@[k].id@
        != prev.channels@[i].id@ by {
        assert(channel_ids(prev.channels@)[k] == prev.channels@[k].id@);
        assert(channel_ids(prev.channels@)[i] == prev.channels@[i].id@);
    }

    // every remaining channel keeps a specialization
    assert forall|k: int| 0 <= k < post.channels@.len() implies post.has_subtype(
        #[trigger] post.channels@[k].id@,
    ) by {
        let korig: int = if k < i {
            k
        } else {
            k + 1
        };
        assert(post.channels@[k] == prev.channels@[korig]);
        assert(prev.has_subtype(prev.channels@[korig].id@));
        if exists|j2: int|
            0 <= j2 < prev.room_channels@.len() && #[trigger] prev.room_channels@[j2].channel_id@
                == prev.channels@[korig].id@ {
            let j2 = choose|j2: int|
                0 <= j2 < prev.room_channels@.len()
                    && #[trigger] prev.room_channels@[j2].channel_id@
                    == prev.channels@[korig].id@;
            assert(prev.channels@[korig].id@ != prev.channels@[i].id@);
            assert(j2 != j);
            let jj: int = if j2 < j {
                j2
            } else {
                j2 - 1
            };
            assert(post.room_channels@[jj] == prev.room_channels@[j2]);
            assert(post.room_channels@[jj].channel_id@ == post.channels@[k].id@);
        } else {
            let j2 = choose|j2: int|
                0 <= j2 < prev.dm_channels@.len() && #[trigger] prev.dm_channels@[j2].channel_id@
                    == prev.channels@[korig].id@;
            assert(post.dm_channels@[j2].channel_id@ == post.channels@[k].id@);
        }
    }

    // the remaining links stay unique
    assert forall|a: int, b: int|
        0 <= a < b < post.room_channels@.len() implies post.room_channels@[a].channel_id@
        != post.room_channels@[b].channel_id@ by {
        let aa: int = if a < j {
            a
        } else {
            a + 1
        };
        let bb: int = if b < j {
            b
        } else {
            b + 1
        };
        assert(post.room_channels@[a] == prev.room_channels@[aa]);
        assert(post.room_channels@[b] == prev.room_channels@[bb]);
    }
    assert forall|a: int, b: int|
        0 <= a < post.room_channels@.len() && 0 <= b < post.dm_channels@.len()
            implies post.room_channels@[a].channel_id@ != post.dm_channels@[b].channel_id@ by {
        let aa: int = if a < j {
            a
        } else {
            a + 1
        };
        assert(post.room_channels@[a] == prev.room_channels@[aa]);
    }

    // the remaining links still resolve, never through the removed row
    assert forall|a: int| 0 <= a < post.room_channels@.len() implies post.channel_exists(
        #[trigger] post.room_channels@[a].channel_id@,
    ) by {
        let aa: int = if a < j {
            a
        } else {
            a + 1
        };
        assert(post.room_channels@[a] == prev.room_channels@[aa]);
        assert(prev.channel_exists(prev.room_channels@[aa].channel_id@));
        let k = choose|k: int|
            0 <= k < prev.channels@.len() && #[trigger] prev.channels@[k].id@
                == prev.room_channels@[aa].channel_id@;
        if k == i {
            assert(prev.room_channels@[aa].channel_id@ == prev.room_channels@[j].channel_id@);
            assert(aa != j);
            assert(false);
        }
        let kk: int = if k < i {
            k
        } else {
            k - 1
        };
        assert(post.channels@[kk] == prev.channels@[k]);
        assert(post.channels@[kk].id@ == post.room_channels@[a].channel_id@);
    }
    assert forall|a: int| 0 <= a < post.dm_channels@.len() implies post.channel_exists(
        #[trigger] post.dm_channels@[a].channel_id@,
    ) by {
        assert(prev.channel_exists(prev.dm_channels@[a].channel_id@));
        let k = choose|k: int|
            0 <= k < prev.channels@.len() && #[trigger] prev.channels@[k].id@
                == prev.dm_channels@[a].channel_id@;
        if k == i {
            assert(prev.dm_channels@[a].channel_id@ == prev.room_channels@[j].channel_id@);
            assert(false);
        }
        let kk: int = if k < i {
            k
        } else {
            k - 1
        };
        assert(post.channels@[kk] == prev.channels@[k]);
        assert(post.channels@[kk].id@ == post.dm_channels@[a].channel_id@);
    }

    // one room channel per room, on the remaining rows
    assert forall|a: int, b: int|
        0 <= a < b < post.room_channels@.len() implies post.room_channels@[a].room_id@
        != post.room_channels@[b].room_id@ by {
        let aa: int = if a < j {
            a
        } else {
            a + 1
        };
        let bb: int = if b < j {
            b
        } else {
            b + 1
        };
        assert(post.room_channels@[a] == prev.room_channels@[aa]);
        assert(post.room_channels@[b] == prev.room_channels@[bb]);
    }
}

impl RoomChannel {
    /// Remove this room channel together with its generic channel: a
    /// specialization never leaves alone, since a generic channel
    /// without exactly one specialization is unrepresentable in this
    /// model. Messages keep their rows; the schema does not cascade
    /// them. The count of removed specialization rows is returned, zero
    /// when no row carries this identifier.
    pub fn delete(&self, store: &mut Store) -> (r: Result<usize, DbError>)
        requires
            old(store).wf(),
        ensures
            final(store).wf(),
            match r {
                Ok(count) => {
                    if exists|j: int|
                        0 <= j < old(store).room_channels@.len()
                            && #[trigger] old(store).room_channels@[j].id@ == self.id@ {
                        count == 1 && pair_removed(*old(store), *final(store), *self)
                    } else {
                        count == 0 && *final(store) == *old(store)
                    }
                },
                Err(_) => false,
            },
            final(store).dm_channels == old(store).dm_channels,
            final(store).dm_channel_users == old(store).dm_channel_users,
            final(store).messages == old(store).messages,
            final(store).message_mentions == old(store).message_mentions,
            final(store).users == old(store).users,
            final(store).roles == old(store).roles,
            final(store).user_roles == old(store).user_roles,
            final(store).clock == old(store).clock,
            final(store).next_id == old(store).next_id,
            final(store).next_int_id == old(store).next_int_id,
    {
        let ghost entry = *store;
        let n = store.room_channels.len();
        let mut i: usize = 0;
        while i < n
            invariant
                i <= n,
                n == store.room_channels@.len(),
                *store == *old(store),
                *store == entry,
                entry.wf(),
                forall|j: int| 0 <= j < i ==> #[trigger] store.room_channels@[j].id@ != self.id@,
            decreases n - i,
        {
            if store.room_channels[i].id == self.id {
                let cid = store.room_channels[i].channel_id.clone();
                let m = store.channels.len();
                let mut k: usize = 0;
                while k < m
                    invariant
                        k <= m,
                        i < n,
                        n == store.room_channels@.len(),
                        m == store.channels@.len(),
                        *store == *old(store),
                        *store == entry,
                        entry.wf(),
                        cid@ == store.room_channels@[i as int].channel_id@,
                        store.room_channels@[i as int].id@ == self.id@,
                        forall|j: int| 0 <= j < k ==> #[trigger] store.channels@[j].id@ != cid@,
                    decreases m - k,
                {
                    if store.channels[k].id == cid {
                        store.room_channels.remove(i);
                        store.channels.remove(k);
                        proof {
                            lemma_pair_removed_wf(entry, *store, i as int, k as int);
                            assert(entry == *old(store));
                            assert(pair_removed(*old(store), *store, *self));
                        }
                        return Ok(1);
                    }
                    k = k + 1;
                }
                proof {
                    assert(entry.channel_exists(cid@));
                }
                return Ok(0);
            }
            i = i + 1;
        }
        Ok(0)
    }
}

impl NewRoomChannel {
    /// Create the generic channel and the room channel as one atomic
    /// unit. If the room already has a room channel, the uniqueness
    /// constraint fails, and the store is left exactly as it was: no
    /// orphan generic channel persists.
    pub fn create(self, store: &mut Store) -> (r: Result<RoomChannel, DbError>)
        requires
            old(store).wf(),
            old(store).has_capacity(2),
        ensures
            final(store).wf(),
            r is Ok <==> !old(store).room_channel_exists(self.room_id@),
            match r {
                Ok(rc) => {
                    &&& final(store).channels@ == old(store).channels@.push(final(store).channels@.last())
                    &&& final(store).channels@.last().id@ == rc.channel_id@
                    &&& final(store).channels@.last().deleted_at is None
                    &&& final(store).channels@.last().created_at == old(store).clock
                    &&& !old(store).channel_exists(rc.channel_id@)
                    &&& final(store).room_channels@ == old(store).room_channels@.push(rc)
                    &&& rc.room_id@ == self.room_id@
                },
                Err(e) => e == DbError::ConstraintViolation && *final(store) == *old(store),
            },
            final(store).dm_channels == old(store).dm_channels,
            final(store).dm_channel_users == old(store).dm_channel_users,
            final(store).messages == old(store).messages,
            final(store).message_mentions == old(store).message_mentions,
            final(store).users == old(store).users,
            final(store).roles == old(store).roles,
            final(store).user_roles == old(store).user_roles,
            final(store).clock == old(store).clock,
            final(store).next_id <= old(store).next_id + 2,
            final(store).next_int_id == old(store).next_int_id,
    {
        // the uniqueness constraint on room_id, checked the way the
        // storage layer would enforce it
        let n = store.room_channels.len();
        let mut i: usize = 0;
        while i < n
            invariant
                i <= n,
                n == store.room_channels@.len(),
                *store == *old(store),
                store.wf(),
                forall|j: int|
                    0 <= j < i ==> #[trigger] store.room_channels@[j].room_id@ != self.room_id@,
            decreases n - i,
        {
            if store.room_channels[i].room_id == self.room_id {
                return Err(DbError::ConstraintViolation);
            }
            i = i + 1;
        }

        let ghost prev = *store;
        let channel = NewChannel::build(store);
        let rcid = store.fresh_str_id();
        let rc = RoomChannel { id: rcid, channel_id: channel.id.clone(), room_id: self.room_id };
        let result = rc.clone();
        store.channels.push(channel);
        store.room_channels.push(rc);
        proof {
            let n0 = prev.next_id;
            lemma_creation_pair_wf(prev, *store, n0);
        }
        Ok(result)
    }
}

/// How many rows creating a channel of this kind takes: the generic
/// row, the specialization row, and one participant row per user for a
/// direct-message channel.
pub open spec fn new_channel_rows(kind: NewChannelKind) -> nat {
    match kind {
        NewChannelKind::Room(_) => 2,
        NewChannelKind::Dm(p) => 2 + p.user_ids@.len(),
    }
}

/// The two kinds of channel that can be created: a channel is never
/// created without exactly one specialization, and the sum type makes
/// the invalid states unrepresentable.
#[derive(Debug)]
pub enum NewChannelKind {
    Dm(NewDmChannel),
    Room(NewRoomChannel),
}

/// The specialization created alongside a generic channel.
#[derive(Debug)]
pub enum ChannelSubtype {
    Dm(DmChannel, Vec<DmChannelUser>),
    Room(RoomChannel),
}

/// The wf-reestablishment argument shared by the pair creators: `post`
/// extends `prev` by one generic channel with identifier
/// `dec_str(n0)` and one room channel with identifier `dec_str(n0 + 1)`
/// referencing it.
proof fn lemma_creation_pair_wf(prev: Store, post: Store, n0: u64)
    requires
        prev.wf(),
        n0 == prev.next_id,
        n0 + 2 <= u64::MAX,
        post.next_id == n0 + 2,
        post.next_int_id == prev.next_int_id,
        post.channels@ == prev.channels@.push(post.channels@.last()),
        post.channels@.last().id@ == dec_str(n0),
        post.room_channels@ == prev.room_channels@.push(post.room_channels@.last()),
        post.room_channels@.last().id@ == dec_str((n0 + 1) as u64),
        post.room_channels@.last().channel_id@ == dec_str(n0),
        !prev.room_channel_exists(post.room_channels@.last().room_id@),
        post.dm_channels == prev.dm_channels,
        post.dm_channel_users == prev.dm_channel_users,
        post.messages == prev.messages,
        post.message_mentions == prev.message_mentions,
        post.users == prev.users,
        post.roles == prev.roles,
        post.user_roles == prev.user_roles,
    ensures
        post.wf(),
        !prev.channel_exists(dec_str(n0)),
{
    let next1 = (n0 + 1) as u64;
    let next2 = (n0 + 2) as u64;

    // channel ids
    assert(channel_ids(post.channels@) =~= channel_ids(prev.channels@).push(dec_str(n0)));
    lemma_ids_ok_push(channel_ids(prev.channels@), n0);
    lemma_ids_ok_grow(channel_ids(post.channels@), next1, next2);

    // room channel ids
    lemma_ids_ok_grow(room_channel_ids(prev.room_channels@), n0, next1);
    assert(room_channel_ids(post.room_channels@) =~= room_channel_ids(
        prev.room_channels@,
    ).push(dec_str(next1)));
    lemma_ids_ok_push(room_channel_ids(prev.room_channels@), next1);

    // untouched tables keep their assignment under the larger sequence
    lemma_ids_ok_grow(dm_channel_ids(prev.dm_channels@), n0, next2);
    lemma_ids_ok_grow(dm_channel_user_ids(prev.dm_channel_users@), n0, next2);
    lemma_ids_ok_grow(crate::store::message_ids(prev.messages@), n0, next2);
    lemma_ids_ok_grow(crate::store::mention_ids(prev.message_mentions@), n0, next2);
    lemma_ids_ok_grow(crate::store::user_ids(prev.users@), n0, next2);

    // the fresh channel id is new
    assert forall|i: int| 0 <= i < prev.channels@.len() implies #[trigger] prev.channels@[i].id@
        != dec_str(n0) by {
        assert(channel_ids(prev.channels@)[i] == prev.channels@[i].id@);
        lemma_assigned_is_not_next(prev.channels@[i].id@, n0);
    }
    assert(!prev.channel_exists(dec_str(n0)));

    // every channel still has a subtype: old ones keep theirs, the new
    // one has the new room channel
    assert forall|i: int| 0 <= i < post.channels@.len() implies post.has_subtype(
        #[trigger] post.channels@[i].id@,
    ) by {
        if i < prev.channels@.len() {
            assert(prev.has_subtype(prev.channels@[i].id@));
            if exists|j: int|
                0 <= j < prev.room_channels@.len() && #[trigger] prev.room_channels@[j].channel_id@
                    == prev.channels@[i].id@ {
                let j = choose|j: int|
                    0 <= j < prev.room_channels@.len()
                        && #[trigger] prev.room_channels@[j].channel_id@ == prev.channels@[i].id@;
                assert(post.room_channels@[j].channel_id@ == post.channels@[i].id@);
            } else {
                let j = choose|j: int|
                    0 <= j < prev.dm_channels@.len() && #[trigger] prev.dm_channels@[j].channel_id@
                        == prev.channels@[i].id@;
                assert(post.dm_channels@[j].channel_id@ == post.channels@[i].id@);
            }
        } else {
            let j = post.room_channels@.len() - 1;
            assert(post.room_channels@[j].channel_id@ == post.channels@[i].id@);
        }
    }

    // subtype references stay unique: every old reference points at an
    // old channel, whose id was assigned before n0
    assert forall|i: int| 0 <= i < prev.room_channels@.len() implies #[trigger] prev.room_channels@[i].channel_id@
        != dec_str(n0) by {
        assert(prev.channel_exists(prev.room_channels@[i].channel_id@));
        let k = choose|k: int|
            0 <= k < prev.channels@.len() && #[trigger] prev.channels@[k].id@
                == prev.room_channels@[i].channel_id@;
        assert(channel_ids(prev.channels@)[k] == prev.channels@[k].id@);
        lemma_assigned_is_not_next(prev.channels@[k].id@, n0);
    }
    assert forall|i: int| 0 <= i < prev.dm_channels@.len() implies #[trigger] prev.dm_channels@[i].channel_id@
        != dec_str(n0) by {
        assert(prev.channel_exists(prev.dm_channels@[i].channel_id@));
        let k = choose|k: int|
            0 <= k < prev.channels@.len() && #[trigger] prev.channels@[k].id@
                == prev.dm_channels@[i].channel_id@;
        assert(channel_ids(prev.channels@)[k] == prev.channels@[k].id@);
        lemma_assigned_is_not_next(prev.channels@[k].id@, n0);
    }

    // subtype references resolve: old ones to old channels, the new one
    // to the new channel
    assert forall|j: int| 0 <= j < post.room_channels@.len() implies post.channel_exists(
        #[trigger] post.room_channels@[j].channel_id@,
    ) by {
        if j < prev.room_channels@.len() {
            let k = choose|k: int|
                0 <= k < prev.channels@.len() && #[trigger] prev.channels@[k].id@
                    == prev.room_channels@[j].channel_id@;
            assert(post.channels@[k].id@ == post.room_channels@[j].channel_id@);
        } else {
            let k = post.channels@.len() - 1;
            assert(post.channels@[k].id@ == post.room_channels@[j].channel_id@);
        }
    }
    assert forall|j: int| 0 <= j < post.dm_channels@.len() implies post.channel_exists(
        #[trigger] post.dm_channels@[j].channel_id@,
    ) by {
        let k = choose|k: int|
            0 <= k < prev.channels@.len() && #[trigger] prev.channels@[k].id@
                == prev.dm_channels@[j].channel_id@;
        assert(post.channels@[k].id@ == post.dm_channels@[j].channel_id@);
    }
}

/// Create a channel of the given kind together with its one
/// specialization, atomically: on any failure the store is exactly what
/// it was.
pub fn create_channel(store: &mut Store, kind: NewChannelKind) -> (r: Result<
    (Channel, ChannelSubtype),
    DbError,
>)
    requires
        old(store).wf(),
        match kind {
            NewChannelKind::Room(_) => old(store).has_capacity(2),
            NewChannelKind::Dm(p) => old(store).has_capacity(2 + p.user_ids@.len()),
        },
    ensures
        final(store).wf(),
        r is Err ==> *final(store) == *old(store),
        match kind {
            NewChannelKind::Room(p) => {
                &&& (r is Ok <==> !old(store).room_channel_exists(p.room_id@))
                &&& (r matches Err(e) ==> e == DbError::ConstraintViolation)
                &&& (r matches Ok(pair) ==> {
                    &&& pair.1 matches ChannelSubtype::Room(rc)
                    &&& final(store).channels@ == old(store).channels@.push(pair.0)
                    &&& final(store).room_channels@ == old(store).room_channels@.push(
                        (match pair.1 {
                            ChannelSubtype::Room(rc2) => rc2,
                            _ => arbitrary(),
                        }),
                    )
                    &&& (match pair.1 {
                        ChannelSubtype::Room(rc2) => rc2.channel_id@ == pair.0.id@
                            && rc2.room_id@ == p.room_id@,
                        _ => false,
                    })
                    &&& pair.0.deleted_at is None
                    &&& pair.0.created_at == old(store).clock
                    &&& !old(store).channel_exists(pair.0.id@)
                    &&& final(store).messages == old(store).messages
                    &&& final(store).dm_channels == old(store).dm_channels
                    &&& final(store).dm_channel_users == old(store).dm_channel_users
                })
            },
            NewChannelKind::Dm(p) => {
                &&& (r is Ok <==> forall|k: int|
                    0 <= k < p.user_ids@.len() ==> old(store).user_exists(
                        #[trigger] p.user_ids@[k]@,
                    ))
                &&& (r matches Err(e) ==> e == DbError::ConstraintViolation)
                &&& (r matches Ok(pair) ==> {
                    &&& pair.1 matches ChannelSubtype::Dm(dm, parts)
                    &&& final(store).channels@ == old(store).channels@.push(pair.0)
                    &&& pair.0.deleted_at is None
                    &&& pair.0.created_at == old(store).clock
                    &&& !old(store).channel_exists(pair.0.id@)
                    &&& (match pair.1 {
                        ChannelSubtype::Dm(dm, parts) => {
                            &&& final(store).dm_channels@ == old(store).dm_channels@.push(dm)
                            &&& dm.channel_id@ == pair.0.id@
                            &&& parts@.len() == p.user_ids@.len()
                            &&& final(store).dm_channel_users@ == old(store).dm_channel_users@
                                + parts@
                            &&& forall|k: int|
                                0 <= k < parts@.len() ==> (#[trigger] parts@[k]).user_id@
                                    == p.user_ids@[k]@ && parts@[k].dm_channel_id@ == dm.id@
                        },
                        _ => false,
                    })
                    &&& final(store).messages == old(store).messages
                    &&& final(store).room_channels == old(store).room_channels
                })
            },
        },
        final(store).message_mentions == old(store).message_mentions,
        final(store).users == old(store).users,
        final(store).roles == old(store).roles,
        final(store).user_roles == old(store).user_roles,
        final(store).clock == old(store).clock,
        final(store).next_id <= old(store).next_id + new_channel_rows(kind),
        final(store).next_int_id == old(store).next_int_id,
{
    match kind {
        NewChannelKind::Room(payload) => {
            match payload.create(store) {
                Ok(rc) => {
                    let idx = store.channels.len() - 1;
                    let channel = store.channels[idx].clone();
                    Ok((channel, ChannelSubtype::Room(rc)))
                }
                Err(e) => Err(e),
            }
        }
        NewChannelKind::Dm(payload) => create_dm_channel(payload, store),
    }
}

/// The direct-message arm of the creation protocol: one generic
/// channel, one dm channel, one participant row per user, all or
/// nothing. A participant that does not exist is a foreign-key
/// violation and aborts the whole creation before anything is written.
fn create_dm_channel(payload: NewDmChannel, store: &mut Store) -> (r: Result<
    (Channel, ChannelSubtype),
    DbError,
>)
    requires
        old(store).wf(),
        old(store).has_capacity(2 + payload.user_ids@.len()),
    ensures
        final(store).wf(),
        r is Err ==> *final(store) == *old(store),
        r is Ok <==> forall|k: int|
            0 <= k < payload.user_ids@.len() ==> old(store).user_exists(
                #[trigger] payload.user_ids@[k]@,
            ),
        (r matches Err(e) ==> e == DbError::ConstraintViolation),
        (r matches Ok(pair) ==> {
            &&& pair.1 matches ChannelSubtype::Dm(dm, parts)
            &&& final(store).channels@ == old(store).channels@.push(pair.0)
            &&& pair.0.deleted_at is None
            &&& pair.0.created_at == old(store).clock
            &&& !old(store).channel_exists(pair.0.id@)
            &&& (match pair.1 {
                ChannelSubtype::Dm(dm, parts) => {
                    &&& final(store).dm_channels@ == old(store).dm_channels@.push(dm)
                    &&& dm.channel_id@ == pair.0.id@
                    &&& parts@.len() == payload.user_ids@.len()
                    &&& final(store).dm_channel_users@ == old(store).dm_channel_users@ + parts@
                    &&& forall|k: int|
                        0 <= k < parts@.len() ==> (#[trigger] parts@[k]).user_id@
                            == payload.user_ids@[k]@ && parts@[k].dm_channel_id@ == dm.id@
                },
                _ => false,
            })
            &&& final(store).messages == old(store).messages
            &&& final(store).room_channels == old(store).room_channels
        }),
        final(store).message_mentions == old(store).message_mentions,
        final(store).users == old(store).users,
        final(store).roles == old(store).roles,
        final(store).user_roles == old(store).user_roles,
        final(store).clock == old(store).clock,
        final(store).next_id <= old(store).next_id + 2 + payload.user_ids@.len(),
        final(store).next_int_id == old(store).next_int_id,
{
    // validate the participant foreign keys first; nothing is written
    // until the whole batch is known to be insertable
    let m = payload.user_ids.len();
    let mut k: usize = 0;
    while k < m
        invariant
            k <= m,
            m == payload.user_ids@.len(),
            forall|j: int| 0 <= j < k ==> old(store).user_exists(#[trigger] payload.user_ids@[j]@),
            *store == *old(store),
            store.wf(),
        decreases m - k,
    {
        if !user_id_exists(&payload.user_ids[k], store) {
            return Err(DbError::ConstraintViolation);
        }
        k = k + 1;
    }

    let ghost prev = *store;
    let channel = NewChannel::build(store);
    let dmid = store.fresh_str_id();
    let dm = DmChannel { id: dmid, channel_id: channel.id.clone() };
    let result_channel = channel.clone();
    let result_dm = dm.clone();
    store.channels.push(channel);
    store.dm_channels.push(dm);
    proof {
        lemma_dm_pair_wf(prev, *store, prev.next_id);
    }

    // participant rows
    let ghost mid = *store;
    let mut parts: Vec<DmChannelUser> = Vec::new();
    let mut k2: usize = 0;
    while k2 < m
        invariant
            k2 <= m,
            m == payload.user_ids@.len(),
            store.wf(),
            store.next_id == mid.next_id + k2,
            store.next_id + (m - k2) <= u64::MAX,
            store.next_int_id == mid.next_int_id,
            store.channels == mid.channels,
            store.room_channels == mid.room_channels,
            store.dm_channels == mid.dm_channels,
            store.messages == mid.messages,
            store.message_mentions == mid.message_mentions,
            store.users == mid.users,
            store.roles == mid.roles,
            store.user_roles == mid.user_roles,
            store.clock == mid.clock,
            parts@.len() == k2,
            store.dm_channel_users@ == mid.dm_channel_users@ + parts@,
            forall|j: int|
                0 <= j < k2 ==> (#[trigger] parts@[j]).user_id@ == payload.user_ids@[j]@
                    && parts@[j].dm_channel_id@ == result_dm.id@,
        decreases m - k2,
    {
        let ghost loop_prev = *store;
        let pid = store.fresh_str_id();
        let row = DmChannelUser {
            id: pid,
            user_id: payload.user_ids[k2].clone(),
            dm_channel_id: result_dm.id.clone(),
        };
        parts.push(row.clone());
        store.dm_channel_users.push(row);
        proof {
            lemma_push_dm_user_wf(loop_prev, *store);
            assert(store.dm_channel_users@ =~= mid.dm_channel_users@ + parts@);
        }
        k2 = k2 + 1;
    }
    Ok((result_channel, ChannelSubtype::Dm(result_dm, parts)))
}

impl NewDmChannelUser {
    /// Add one participant to an existing direct-message channel.
    /// Fails, leaving the store untouched, exactly when the user or the
    /// channel does not exist.
    pub fn create(&self, store: &mut Store) -> (r: Result<DmChannelUser, DbError>)
        requires
            old(store).wf(),
            old(store).has_capacity(1),
        ensures
            final(store).wf(),
            r is Ok <==> (old(store).user_exists(self.user_id@) && (exists|i: int|
                0 <= i < old(store).dm_channels@.len() && #[trigger] old(store).dm_channels@[i].id@
                    == self.dm_channel_id@)),
            match r {
                Ok(row) => {
                    &&& final(store).dm_channel_users@ == old(store).dm_channel_users@.push(row)
                    &&& row.user_id@ == self.user_id@
                    &&& row.dm_channel_id@ == self.dm_channel_id@
                },
                Err(e) => e == DbError::ConstraintViolation && *final(store) == *old(store),
            },
            final(store).channels == old(store).channels,
            final(store).room_channels == old(store).room_channels,
            final(store).dm_channels == old(store).dm_channels,
            final(store).messages == old(store).messages,
            final(store).message_mentions == old(store).message_mentions,
            final(store).users == old(store).users,
            final(store).roles == old(store).roles,
            final(store).user_roles == old(store).user_roles,
            final(store).clock == old(store).clock,
            final(store).next_id <= old(store).next_id + 1,
            final(store).next_int_id == old(store).next_int_id,
    {
        if !user_id_exists(&self.user_id, store) {
            return Err(DbError::ConstraintViolation);
        }
        let n = store.dm_channels.len();
        let mut i: usize = 0;
        let mut found = false;
        while i < n
            invariant
                i <= n,
                n == store.dm_channels@.len(),
                *store == *old(store),
                store.wf(),
                found ==> exists|j: int|
                    0 <= j < store.dm_channels@.len() && #[trigger] store.dm_channels@[j].id@
                        == self.dm_channel_id@,
                !found ==> forall|j: int|
                    0 <= j < i ==> #[trigger] store.dm_channels@[j].id@ != self.dm_channel_id@,
            decreases n - i,
        {
            if store.dm_channels[i].id == self.dm_channel_id {
                found = true;
            }
            i = i + 1;
        }
        if !found {
            return Err(DbError::ConstraintViolation);
        }
        let ghost prev = *store;
        let pid = store.fresh_str_id();
        let row = DmChannelUser {
            id: pid,
            user_id: self.user_id.clone(),
            dm_channel_id: self.dm_channel_id.clone(),
        };
        let result = row.clone();
        store.dm_channel_users.push(row);
        proof {
            lemma_push_dm_user_wf(prev, *store);
        }
        Ok(result)
    }
}

/// Whether a user with this identifier exists; a helper for foreign-key
/// checks.
pub(crate) fn user_id_exists(uid: &String, store: &Store) -> (r: bool)
    ensures
        r == store.user_exists(uid@),
{
    let n = store.users.len();
    let mut i: usize = 0;
    while i < n
        invariant
            i <= n,
            n == store.users@.len(),
            forall|j: int| 0 <= j < i ==> #[trigger] store.users@[j].id@ != uid@,
        decreases n - i,
    {
        if store.users[i].id == *uid {
            return true;
        }
        i = i + 1;
    }
    false
}

/// The wf-reestablishment argument for the direct-message pair: `post`
/// extends `prev` by one generic channel `dec_str(n0)` and one dm
/// channel `dec_str(n0 + 1)` referencing it.
proof fn lemma_dm_pair_wf(prev: Store, post: Store, n0: u64)
    requires
        prev.wf(),
        n0 == prev.next_id,
        n0 + 2 <= u64::MAX,
        post.next_id == n0 + 2,
        post.next_int_id == prev.next_int_id,
        post.channels@ == prev.channels@.push(post.channels@.last()),
        post.channels@.last().id@ == dec_str(n0),
        post.dm_channels@ == prev.dm_channels@.push(post.dm_channels@.last()),
        post.dm_channels@.last().id@ == dec_str((n0 + 1) as u64),
        post.dm_channels@.last().channel_id@ == dec_str(n0),
        post.room_channels == prev.room_channels,
        post.dm_channel_users == prev.dm_channel_users,
        post.messages == prev.messages,
        post.message_mentions == prev.message_mentions,
        post.users == prev.users,
        post.roles == prev.roles,
        post.user_roles == prev.user_roles,
    ensures
        post.wf(),
        !prev.channel_exists(dec_str(n0)),
{
    let next1 = (n0 + 1) as u64;
    let next2 = (n0 + 2) as u64;

    assert(channel_ids(post.channels@) =~= channel_ids(prev.channels@).push(dec_str(n0)));
    lemma_ids_ok_push(channel_ids(prev.channels@), n0);
    lemma_ids_ok_grow(channel_ids(post.channels@), next1, next2);

    lemma_ids_ok_grow(dm_channel_ids(prev.dm_channels@), n0, next1);
    assert(dm_channel_ids(post.dm_channels@) =~= dm_channel_ids(prev.dm_channels@).push(
        dec_str(next1),
    ));
    lemma_ids_ok_push(dm_channel_ids(prev.dm_channels@), next1);

    lemma_ids_ok_grow(room_channel_ids(prev.room_channels@), n0, next2);
    lemma_ids_ok_grow(dm_channel_user_ids(prev.dm_channel_users@), n0, next2);
    lemma_ids_ok_grow(crate::store::message_ids(prev.messages@), n0, next2);
    lemma_ids_ok_grow(crate::store::mention_ids(prev.message_mentions@), n0, next2);
    lemma_ids_ok_grow(crate::store::user_ids(prev.users@), n0, next2);

    assert forall|i: int| 0 <= i < prev.channels@.len() implies #[trigger] prev.channels@[i].id@
        != dec_str(n0) by {
        assert(channel_ids(prev.channels@)[i] == prev.channels@[i].id@);
        lemma_assigned_is_not_next(prev.channels@[i].id@, n0);
    }
    assert(!prev.channel_exists(dec_str(n0)));

    assert forall|i: int| 0 <= i < post.channels@.len() implies post.has_subtype(
        #[trigger] post.channels@[i].id@,
    ) by {
        if i < prev.channels@.len() {
            assert(prev.has_subtype(prev.channels@[i].id@));
            if exists|j: int|
                0 <= j < prev.room_channels@.len() && #[trigger] prev.room_channels@[j].channel_id@
                    == prev.channels@[i].id@ {
                let j = choose|j: int|
                    0 <= j < prev.room_channels@.len()
                        && #[trigger] prev.room_channels@[j].channel_id@ == prev.channels@[i].id@;
                assert(post.room_channels@[j].channel_id@ == post.channels@[i].id@);
            } else {
                let j = choose|j: int|
                    0 <= j < prev.dm_channels@.len() && #[trigger] prev.dm_channels@[j].channel_id@
                        == prev.channels@[i].id@;
                assert(post.dm_channels@[j].channel_id@ == post.channels@[i].id@);
            }
        } else {
            let j = post.dm_channels@.len() - 1;
            assert(post.dm_channels@[j].channel_id@ == post.channels@[i].id@);
        }
    }

    assert forall|i: int| 0 <= i < prev.room_channels@.len() implies #[trigger] prev.room_channels@[i].channel_id@
        != dec_str(n0) by {
        assert(prev.channel_exists(prev.room_channels@[i].channel_id@));
        let k = choose|k: int|
            0 <= k < prev.channels@.len() && #[trigger] prev.channels@[k].id@
                == prev.room_channels@[i].channel_id@;
        assert(channel_ids(prev.channels@)[k] == prev.channels@[k].id@);
        lemma_assigned_is_not_next(prev.channels@[k].id@, n0);
    }
    assert forall|i: int| 0 <= i < prev.dm_channels@.len() implies #[trigger] prev.dm_channels@[i].channel_id@
        != dec_str(n0) by {
        assert(prev.channel_exists(prev.dm_channels@[i].channel_id@));
        let k = choose|k: int|
            0 <= k < prev.channels@.len() && #[trigger] prev.channels@[k].id@
                == prev.dm_channels@[i].channel_id@;
        assert(channel_ids(prev.channels@)[k] == prev.channels@[k].id@);
        lemma_assigned_is_not_next(prev.channels@[k].id@, n0);
    }

    assert forall|j: int| 0 <= j < post.room_channels@.len() implies post.channel_exists(
        #[trigger] post.room_channels@[j].channel_id@,
    ) by {
        let k = choose|k: int|
            0 <= k < prev.channels@.len() && #[trigger] prev.channels@[k].id@
                == prev.room_channels@[j].channel_id@;
        assert(post.channels@[k].id@ == post.room_channels@[j].channel_id@);
    }
    assert forall|j: int| 0 <= j < post.dm_channels@.len() implies post.channel_exists(
        #[trigger] post.dm_channels@[j].channel_id@,
    ) by {
        if j < prev.dm_channels@.len() {
            let k = choose|k: int|
                0 <= k < prev.channels@.len() && #[trigger] prev.channels@[k].id@
                    == prev.dm_channels@[j].channel_id@;
            assert(post.channels@[k].id@ == post.dm_channels@[j].channel_id@);
        } else {
            let k = post.channels@.len() - 1;
            assert(post.channels@[k].id@ == post.dm_channels@[j].channel_id@);
        }
    }
}

/// Appending one participant row with a fresh identifier preserves the
/// store invariant: the row touches no channel-subtype relationship.
proof fn lemma_push_dm_user_wf(prev: Store, post: Store)
    requires
        prev.wf(),
        prev.next_id < u64::MAX,
        post.next_id == prev.next_id + 1,
        post.next_int_id == prev.next_int_id,
        post.dm_channel_users@ == prev.dm_channel_users@.push(post.dm_channel_users@.last()),
        post.dm_channel_users@.last().id@ == dec_str(prev.next_id),
        post.channels == prev.channels,
        post.room_channels == prev.room_channels,
        post.dm_channels == prev.dm_channels,
        post.messages == prev.messages,
        post.message_mentions == prev.message_mentions,
        post.users == prev.users,
        post.roles == prev.roles,
        post.user_roles == prev.user_roles,
    ensures
        post.wf(),
{
    let n0 = prev.next_id;
    let next1 = (n0 + 1) as u64;
    assert(dm_channel_user_ids(post.dm_channel_users@) =~= dm_channel_user_ids(
        prev.dm_channel_users@,
    ).push(dec_str(n0)));
    lemma_ids_ok_push(dm_channel_user_ids(prev.dm_channel_users@), n0);
    lemma_ids_ok_grow(channel_ids(prev.channels@), n0, next1);
    lemma_ids_ok_grow(room_channel_ids(prev.room_channels@), n0, next1);
    lemma_ids_ok_grow(dm_channel_ids(prev.dm_channels@), n0, next1);
    lemma_ids_ok_grow(crate::store::message_ids(prev.messages@), n0, next1);
    lemma_ids_ok_grow(crate::store::mention_ids(prev.message_mentions@), n0, next1);
    lemma_ids_ok_grow(crate::store::user_ids(prev.users@), n0, next1);
    crate::store::lemma_subtypes_complete_preserved(prev, post);
}

} // verus!
