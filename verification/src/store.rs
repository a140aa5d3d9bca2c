//! The transactional data-access capability the creation protocol
//! consumes, made concrete: an in-memory store with the same
//! constraints a relational schema would enforce.
//!
//! Row identifiers are decimal renderings of a per-store sequence, so
//! freshness and uniqueness are provable; the store's well-formedness
//! invariant carries the one rule the data model insists on: a generic
//! channel row never exists without exactly one specialization row.

use vstd::prelude::*;

use crate::channels::{Channel, DmChannel, DmChannelUser, RoomChannel};
use crate::messages::{Message, MessageMention};
use crate::roles::{Role, UserRole};
use crate::users::User;

verus! {

/// The failure taxonomy of the storage layer.
///
/// `ConstraintViolation` is a uniqueness or foreign-key failure during
/// creation; it always means the whole operation was rolled back.
/// `NotFound` is a lookup of an entity that does not exist.
/// `MalformedRole` is a role value rejected at construction time, so it
/// never reaches resolution.
#[derive(Debug, Copy, Clone, PartialEq, Eq, Structural)]
pub enum DbError {
    NotFound,
    ConstraintViolation,
    MalformedRole,
}

/// The decimal digit character for `d < 10`.
pub open spec fn dec_digit(d: u64) -> char {
    if d == 0 {
        '0'
    } else if d == 1 {
        '1'
    } else if d == 2 {
        '2'
    } else if d == 3 {
        '3'
    } else if d == 4 {
        '4'
    } else if d == 5 {
        '5'
    } else if d == 6 {
        '6'
    } else if d == 7 {
        '7'
    } else if d == 8 {
        '8'
    } else {
        '9'
    }
}

/// The decimal rendering of `n`, most significant digit first, with no
/// leading zeroes.
pub open spec fn dec_str(n: u64) -> Seq<char>
    decreases n,
{
    if n < 10 {
        seq![dec_digit(n)]
    } else {
        dec_str(n / 10).push(dec_digit(n % 10))
    }
}

/// Relies on `u64`'s `Display` implementation through
/// `ToString::to_string`: the decimal rendering of the value, most
/// significant digit first, without leading zeroes or a sign.
#[verifier::external_body]
fn u64_to_dec_string(n: u64) -> (r: String)
    ensures
        r@ == dec_str(n),
{
    n.to_string()
}

/// A decimal rendering is one character long exactly for one digit.
pub proof fn lemma_dec_str_len(n: u64)
    ensures
        dec_str(n).len() >= 1,
        n >= 10 ==> dec_str(n).len() >= 2,
    decreases n,
{
    if n >= 10 {
        lemma_dec_str_len(n / 10);
    }
}

/// Distinct numbers have distinct decimal renderings.
pub proof fn lemma_dec_str_injective(a: u64, b: u64)
    requires
        dec_str(a) == dec_str(b),
    ensures
        a == b,
    decreases a,
{
    lemma_dec_str_len(a);
    lemma_dec_str_len(b);
    if a < 10 && b < 10 {
        assert(dec_str(a)[0] == dec_digit(a));
        assert(dec_str(b)[0] == dec_digit(b));
    } else if a < 10 {
        assert(dec_str(a).len() == 1);
    } else if b < 10 {
        assert(dec_str(b).len() == 1);
    } else {
        assert(dec_str(a).drop_last() =~= dec_str(a / 10));
        assert(dec_str(b).drop_last() =~= dec_str(b / 10));
        assert(dec_str(a).last() == dec_digit(a % 10));
        assert(dec_str(b).last() == dec_digit(b % 10));
        assert(a % 10 == b % 10);
        lemma_dec_str_injective(a / 10, b / 10);
        assert(a == 10 * (a / 10) + a % 10);
        assert(b == 10 * (b / 10) + b % 10);
    }
}

/// `id` was handed out by a sequence that now stands at `next`.
pub open spec fn id_assigned(id: Seq<char>, next: u64) -> bool {
    exists|k: u64| k < next && id == dec_str(k)
}

/// Every identifier in `ids` was handed out by the sequence, and no two
/// are equal.
pub open spec fn ids_ok(ids: Seq<Seq<char>>, next: u64) -> bool {
    &&& forall|i: int| 0 <= i < ids.len() ==> id_assigned(#[trigger] ids[i], next)
    &&& forall|i: int, j: int| 0 <= i < j < ids.len() ==> ids[i] != ids[j]
}

/// An already-assigned identifier differs from the next one the
/// sequence will hand out.
pub proof fn lemma_assigned_is_not_next(id: Seq<char>, next: u64)
    requires
        id_assigned(id, next),
    ensures
        id != dec_str(next),
{
    let k = choose|k: u64| k < next && id == dec_str(k);
    if id == dec_str(next) {
        lemma_dec_str_injective(k, next);
    }
}

/// Assignment survives advancing the sequence.
pub proof fn lemma_ids_ok_grow(ids: Seq<Seq<char>>, next: u64, later: u64)
    requires
        ids_ok(ids, next),
        next <= later,
    ensures
        ids_ok(ids, later),
{
    assert forall|i: int| 0 <= i < ids.len() implies id_assigned(#[trigger] ids[i], later) by {
        let k = choose|k: u64| k < next && ids[i] == dec_str(k);
        assert(k < later && ids[i] == dec_str(k));
    }
}

/// Appending the identifier the sequence hands out next keeps the
/// collection well formed, and that identifier is fresh.
pub proof fn lemma_ids_ok_push(ids: Seq<Seq<char>>, next: u64)
    requires
        ids_ok(ids, next),
        next < u64::MAX,
    ensures
        ids_ok(ids.push(dec_str(next)), (next + 1) as u64),
        forall|i: int| 0 <= i < ids.len() ==> ids[i] != dec_str(next),
{
    assert forall|i: int| 0 <= i < ids.len() implies ids[i] != dec_str(next) by {
        lemma_assigned_is_not_next(ids[i], next);
    }
    let grown = ids.push(dec_str(next));
    assert forall|i: int| 0 <= i < grown.len() implies id_assigned(#[trigger] grown[i], (next + 1) as u64) by {
        if i < ids.len() {
            let k = choose|k: u64| k < next && ids[i] == dec_str(k);
            assert(k < (next + 1) as u64 && grown[i] == dec_str(k));
        } else {
            assert(grown[i] == dec_str(next));
        }
    }
}

/// All string-identifier tables of a well-formed store stay assigned
/// when the sequence advances.
pub proof fn lemma_tables_grow(prev: Store, later: u64)
    requires
        prev.wf(),
        prev.next_id <= later,
    ensures
        ids_ok(channel_ids(prev.channels@), later),
        ids_ok(room_channel_ids(prev.room_channels@), later),
        ids_ok(dm_channel_ids(prev.dm_channels@), later),
        ids_ok(dm_channel_user_ids(prev.dm_channel_users@), later),
        ids_ok(message_ids(prev.messages@), later),
        ids_ok(mention_ids(prev.message_mentions@), later),
        ids_ok(user_ids(prev.users@), later),
{
    lemma_ids_ok_grow(channel_ids(prev.channels@), prev.next_id, later);
    lemma_ids_ok_grow(room_channel_ids(prev.room_channels@), prev.next_id, later);
    lemma_ids_ok_grow(dm_channel_ids(prev.dm_channels@), prev.next_id, later);
    lemma_ids_ok_grow(dm_channel_user_ids(prev.dm_channel_users@), prev.next_id, later);
    lemma_ids_ok_grow(message_ids(prev.messages@), prev.next_id, later);
    lemma_ids_ok_grow(mention_ids(prev.message_mentions@), prev.next_id, later);
    lemma_ids_ok_grow(user_ids(prev.users@), prev.next_id, later);
}

/// Removing an element keeps a collection of identifiers well formed.
pub proof fn lemma_ids_ok_remove(ids: Seq<Seq<char>>, next: u64, i: int)
    requires
        ids_ok(ids, next),
        0 <= i < ids.len(),
    ensures
        ids_ok(ids.remove(i), next),
{
    let cut = ids.remove(i);
    assert forall|k: int| 0 <= k < cut.len() implies id_assigned(#[trigger] cut[k], next) by {
        if k < i {
            assert(cut[k] == ids[k]);
        } else {
            assert(cut[k] == ids[k + 1]);
        }
    }
    assert forall|k: int, j: int| 0 <= k < j < cut.len() implies cut[k] != cut[j] by {
        if j < i {
            assert(cut[k] == ids[k] && cut[j] == ids[j]);
        } else if k < i {
            assert(cut[k] == ids[k] && cut[j] == ids[j + 1]);
        } else {
            assert(cut[k] == ids[k + 1] && cut[j] == ids[j + 1]);
        }
    }
}

/// Every integer identifier in `ids` is below `next`, and no two are
/// equal.
pub open spec fn int_ids_ok(ids: Seq<i64>, next: i64) -> bool {
    &&& forall|i: int| 0 <= i < ids.len() ==> 0 <= #[trigger] ids[i] < next
    &&& forall|i: int, j: int| 0 <= i < j < ids.len() ==> ids[i] != ids[j]
}

/// Removing an element keeps a collection of integer identifiers well
/// formed.
pub proof fn lemma_int_ids_ok_remove(ids: Seq<i64>, next: i64, i: int)
    requires
        int_ids_ok(ids, next),
        0 <= i < ids.len(),
    ensures
        int_ids_ok(ids.remove(i), next),
{
    let cut = ids.remove(i);
    assert forall|k: int| 0 <= k < cut.len() implies 0 <= #[trigger] cut[k] < next by {
        if k < i {
            assert(cut[k] == ids[k]);
        } else {
            assert(cut[k] == ids[k + 1]);
        }
    }
    assert forall|k: int, j: int| 0 <= k < j < cut.len() implies cut[k] != cut[j] by {
        if j < i {
            assert(cut[k] == ids[k] && cut[j] == ids[j]);
        } else if k < i {
            assert(cut[k] == ids[k] && cut[j] == ids[j + 1]);
        } else {
            assert(cut[k] == ids[k + 1] && cut[j] == ids[j + 1]);
        }
    }
}

/// A change that touches neither the channel table nor the two
/// specialization tables preserves "every generic channel has a
/// specialization": the old witness row still stands at its old index.
pub proof fn lemma_subtypes_complete_preserved(prev: Store, post: Store)
    requires
        prev.subtypes_complete(),
        post.channels == prev.channels,
        post.room_channels == prev.room_channels,
        post.dm_channels == prev.dm_channels,
    ensures
        post.subtypes_complete(),
{
    assert forall|k: int| 0 <= k < post.channels@.len() implies post.has_subtype(
        #[trigger] post.channels@[k].id@,
    ) by {
        assert(prev.has_subtype(prev.channels@[k].id@));
        if exists|j: int|
            0 <= j < prev.room_channels@.len() && #[trigger] prev.room_channels@[j].channel_id@
                == prev.channels@[k].id@ {
            let j = choose|j: int|
                0 <= j < prev.room_channels@.len()
                    && #[trigger] prev.room_channels@[j].channel_id@ == prev.channels@[k].id@;
            assert(post.room_channels@[j].channel_id@ == post.channels@[k].id@);
        } else {
            let j = choose|j: int|
                0 <= j < prev.dm_channels@.len() && #[trigger] prev.dm_channels@[j].channel_id@
                    == prev.channels@[k].id@;
            assert(post.dm_channels@[j].channel_id@ == post.channels@[k].id@);
        }
    }
}

/// The identifier view of each table.
pub open spec fn channel_ids(s: Seq<Channel>) -> Seq<Seq<char>> {
    s.map_values(|c: Channel| c.id@)
}

pub open spec fn room_channel_ids(s: Seq<RoomChannel>) -> Seq<Seq<char>> {
    s.map_values(|c: RoomChannel| c.id@)
}

pub open spec fn dm_channel_ids(s: Seq<DmChannel>) -> Seq<Seq<char>> {
    s.map_values(|c: DmChannel| c.id@)
}

pub open spec fn dm_channel_user_ids(s: Seq<DmChannelUser>) -> Seq<Seq<char>> {
    s.map_values(|c: DmChannelUser| c.id@)
}

pub open spec fn message_ids(s: Seq<Message>) -> Seq<Seq<char>> {
    s.map_values(|m: Message| m.id@)
}

pub open spec fn mention_ids(s: Seq<MessageMention>) -> Seq<Seq<char>> {
    s.map_values(|m: MessageMention| m.id@)
}

pub open spec fn user_ids(s: Seq<User>) -> Seq<Seq<char>> {
    s.map_values(|u: User| u.id@)
}

pub open spec fn role_ids(s: Seq<Role>) -> Seq<i64> {
    s.map_values(|r: Role| r.id)
}

pub open spec fn user_role_ids(s: Seq<UserRole>) -> Seq<i64> {
    s.map_values(|r: UserRole| r.id)
}

/// The in-memory store: one `Vec` per table, a clock whose value stamps
/// `created_at` on inserts, and the identifier sequences.
pub struct Store {
    pub channels: Vec<Channel>,
    pub room_channels: Vec<RoomChannel>,
    pub dm_channels: Vec<DmChannel>,
    pub dm_channel_users: Vec<DmChannelUser>,
    pub messages: Vec<Message>,
    pub message_mentions: Vec<MessageMention>,
    pub users: Vec<User>,
    pub roles: Vec<Role>,
    pub user_roles: Vec<UserRole>,
    /// The timestamp inserts will carry; the caller keeps it current.
    pub clock: i64,
    /// The next string identifier the store will hand out.
    pub next_id: u64,
    /// The next integer identifier the store will hand out.
    pub next_int_id: i64,
}

impl Store {
    /// A channel with this identifier has a specialization row.
    pub open spec fn has_subtype(self, cid: Seq<char>) -> bool {
        ||| exists|j: int|
            0 <= j < self.room_channels@.len() && #[trigger] self.room_channels@[j].channel_id@
                == cid
        ||| exists|j: int|
            0 <= j < self.dm_channels@.len() && #[trigger] self.dm_channels@[j].channel_id@ == cid
    }

    /// A channel with this identifier exists.
    pub open spec fn channel_exists(self, cid: Seq<char>) -> bool {
        exists|i: int| 0 <= i < self.channels@.len() && #[trigger] self.channels@[i].id@ == cid
    }

    /// A user with this identifier exists.
    pub open spec fn user_exists(self, uid: Seq<char>) -> bool {
        exists|i: int| 0 <= i < self.users@.len() && #[trigger] self.users@[i].id@ == uid
    }

    /// A message with this identifier exists.
    pub open spec fn message_exists(self, mid: Seq<char>) -> bool {
        exists|i: int| 0 <= i < self.messages@.len() && #[trigger] self.messages@[i].id@ == mid
    }

    /// A role with this identifier exists.
    pub open spec fn role_exists(self, rid: i64) -> bool {
        exists|i: int| 0 <= i < self.roles@.len() && #[trigger] self.roles@[i].id == rid
    }

    /// A room channel for this room exists.
    pub open spec fn room_channel_exists(self, room_id: Seq<char>) -> bool {
        exists|i: int|
            0 <= i < self.room_channels@.len() && #[trigger] self.room_channels@[i].room_id@
                == room_id
    }

    /// Every generic channel row has at least one specialization row.
    pub open spec fn subtypes_complete(self) -> bool {
        forall|i: int|
            0 <= i < self.channels@.len() ==> self.has_subtype(#[trigger] self.channels@[i].id@)
    }

    /// No two specialization rows (of either kind) reference the same
    /// generic channel; together with completeness this gives "exactly
    /// one specialization per channel".
    pub open spec fn subtype_refs_unique(self) -> bool {
        &&& forall|i: int, j: int|
            0 <= i < j < self.room_channels@.len() ==> self.room_channels@[i].channel_id@
                != self.room_channels@[j].channel_id@
        &&& forall|i: int, j: int|
            0 <= i < j < self.dm_channels@.len() ==> self.dm_channels@[i].channel_id@
                != self.dm_channels@[j].channel_id@
        &&& forall|i: int, j: int|
            0 <= i < self.room_channels@.len() && 0 <= j < self.dm_channels@.len()
                ==> self.room_channels@[i].channel_id@ != self.dm_channels@[j].channel_id@
    }

    /// Every specialization row references an existing generic channel.
    pub open spec fn subtype_refs_exist(self) -> bool {
        &&& forall|j: int|
            0 <= j < self.room_channels@.len() ==> self.channel_exists(
                #[trigger] self.room_channels@[j].channel_id@,
            )
        &&& forall|j: int|
            0 <= j < self.dm_channels@.len() ==> self.channel_exists(
                #[trigger] self.dm_channels@[j].channel_id@,
            )
    }

    /// A room resolves to at most one room channel.
    pub open spec fn room_refs_unique(self) -> bool {
        forall|i: int, j: int|
            0 <= i < j < self.room_channels@.len() ==> self.room_channels@[i].room_id@
                != self.room_channels@[j].room_id@
    }

    /// Usernames are unique across users.
    pub open spec fn usernames_unique(self) -> bool {
        forall|i: int, j: int|
            0 <= i < j < self.users@.len() ==> self.users@[i].username@
                != self.users@[j].username@
    }

    /// Linked third-party identities are unique across users.
    pub open spec fn discord_ids_unique(self) -> bool {
        forall|i: int, j: int|
            0 <= i < j < self.users@.len() ==> (match (
                #[trigger] self.users@[i].discord_id,
                #[trigger] self.users@[j].discord_id,
            ) {
                (Some(a), Some(b)) => a@ != b@,
                _ => true,
            })
    }

    /// A user with this username exists.
    pub open spec fn username_exists(self, name: Seq<char>) -> bool {
        exists|i: int|
            0 <= i < self.users@.len() && #[trigger] self.users@[i].username@ == name
    }

    /// A user linked to this third-party identity exists.
    pub open spec fn discord_id_exists(self, d: Seq<char>) -> bool {
        exists|i: int|
            0 <= i < self.users@.len() && (match #[trigger] self.users@[i].discord_id {
                Some(x) => x@ == d,
                None => false,
            })
    }

    /// The store's well-formedness invariant: identifiers are unique and
    /// come from the store's own sequences, every channel has exactly
    /// one specialization, and room channels are unique per room.
    pub open spec fn wf(self) -> bool {
        &&& ids_ok(channel_ids(self.channels@), self.next_id)
        &&& ids_ok(room_channel_ids(self.room_channels@), self.next_id)
        &&& ids_ok(dm_channel_ids(self.dm_channels@), self.next_id)
        &&& ids_ok(dm_channel_user_ids(self.dm_channel_users@), self.next_id)
        &&& ids_ok(message_ids(self.messages@), self.next_id)
        &&& ids_ok(mention_ids(self.message_mentions@), self.next_id)
        &&& ids_ok(user_ids(self.users@), self.next_id)
        &&& int_ids_ok(role_ids(self.roles@), self.next_int_id)
        &&& int_ids_ok(user_role_ids(self.user_roles@), self.next_int_id)
        &&& self.next_int_id >= 0
        &&& self.subtypes_complete()
        &&& self.subtype_refs_unique()
        &&& self.subtype_refs_exist()
        &&& self.room_refs_unique()
        &&& self.usernames_unique()
        &&& self.discord_ids_unique()
    }

    /// Room for `rows` more string identifiers and `rows` more integer
    /// identifiers.
    pub open spec fn has_capacity(self, rows: nat) -> bool {
        &&& self.next_id + rows <= u64::MAX
        &&& self.next_int_id + rows <= i64::MAX
    }

    /// An empty store.
    pub fn new() -> (r: Store)
        ensures
            r.wf(),
            r.channels@.len() == 0,
            r.room_channels@.len() == 0,
            r.dm_channels@.len() == 0,
            r.dm_channel_users@.len() == 0,
            r.messages@.len() == 0,
            r.message_mentions@.len() == 0,
            r.users@.len() == 0,
            r.roles@.len() == 0,
            r.user_roles@.len() == 0,
            r.clock == 0,
            r.next_id == 0,
            r.next_int_id == 0,
    {
        Store {
            channels: Vec::new(),
            room_channels: Vec::new(),
            dm_channels: Vec::new(),
            dm_channel_users: Vec::new(),
            messages: Vec::new(),
            message_mentions: Vec::new(),
            users: Vec::new(),
            roles: Vec::new(),
            user_roles: Vec::new(),
            clock: 0,
            next_id: 0,
            next_int_id: 0,
        }
    }

    /// Hand out the next string identifier.
    pub(crate) fn fresh_str_id(&mut self) -> (r: String)
        requires
            old(self).next_id < u64::MAX,
        ensures
            r@ == dec_str(old(self).next_id),
            final(self).next_id == old(self).next_id + 1,
            final(self).channels == old(self).channels,
            final(self).room_channels == old(self).room_channels,
            final(self).dm_channels == old(self).dm_channels,
            final(self).dm_channel_users == old(self).dm_channel_users,
            final(self).messages == old(self).messages,
            final(self).message_mentions == old(self).message_mentions,
            final(self).users == old(self).users,
            final(self).roles == old(self).roles,
            final(self).user_roles == old(self).user_roles,
            final(self).clock == old(self).clock,
            final(self).next_int_id == old(self).next_int_id,
    {
        let id = u64_to_dec_string(self.next_id);
        self.next_id = self.next_id + 1;
        id
    }

    /// Hand out the next integer identifier.
    pub(crate) fn fresh_int_id(&mut self) -> (r: i64)
        requires
            old(self).next_int_id < i64::MAX,
        ensures
            r == old(self).next_int_id,
            final(self).next_int_id == old(self).next_int_id + 1,
            final(self).channels == old(self).channels,
            final(self).room_channels == old(self).room_channels,
            final(self).dm_channels == old(self).dm_channels,
            final(self).dm_channel_users == old(self).dm_channel_users,
            final(self).messages == old(self).messages,
            final(self).message_mentions == old(self).message_mentions,
            final(self).users == old(self).users,
            final(self).roles == old(self).roles,
            final(self).user_roles == old(self).user_roles,
            final(self).clock == old(self).clock,
            final(self).next_id == old(self).next_id,
    {
        let id = self.next_int_id;
        self.next_int_id = self.next_int_id + 1;
        id
    }
}

} // verus!
