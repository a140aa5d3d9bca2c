//! Messages and mentions. A posted message may atomically create a
//! number of mention records, and a whole batch of messages with their
//! mentions is created inside one all-or-nothing unit: a failure
//! anywhere leaves no row of the batch behind.

use vstd::prelude::*;

use crate::store::{
    dec_str, lemma_assigned_is_not_next, lemma_ids_ok_push, lemma_tables_grow, mention_ids,
    message_ids, DbError, Store,
};
use crate::users::User;

verus! {

/// A persisted message row.
#[derive(Debug, PartialEq)]
pub struct Message {
    pub id: String,
    pub channel_id: String,
    pub user_id: String,
    pub content: String,
    pub created_at: i64,
}

impl Clone for Message {
    fn clone(&self) -> (r: Message)
        ensures
            r == *self,
    {
        Message {
            id: self.id.clone(),
            channel_id: self.channel_id.clone(),
            user_id: self.user_id.clone(),
            content: self.content.clone(),
            created_at: self.created_at,
        }
    }
}

/// An unsaved message.
#[derive(Debug, PartialEq)]
pub struct NewMessage {
    pub channel_id: String,
    pub user_id: String,
    pub content: String,
}

/// A persisted mention row: one mentioned user of one message.
#[derive(Debug, PartialEq)]
pub struct MessageMention {
    pub id: String,
    pub user_id: String,
    pub message_id: String,
}

impl Clone for MessageMention {
    fn clone(&self) -> (r: MessageMention)
        ensures
            r == *self,
    {
        MessageMention {
            id: self.id.clone(),
            user_id: self.user_id.clone(),
            message_id: self.message_id.clone(),
        }
    }
}

/// An unsaved mention row.
#[derive(Debug, PartialEq)]
pub struct NewMessageMention {
    pub user_id: String,
    pub message_id: String,
}

/// The messages of `s` that belong to the channel, in table order.
pub open spec fn matching_messages(s: Seq<Message>, cid: Seq<char>) -> Seq<Message>
    decreases s.len(),
{
    if s.len() == 0 {
        Seq::empty()
    } else if s.last().channel_id@ == cid {
        matching_messages(s.drop_last(), cid).push(s.last())
    } else {
        matching_messages(s.drop_last(), cid)
    }
}

/// At most the first `n` elements of `s`.
pub open spec fn limited<T>(s: Seq<T>, n: int) -> Seq<T> {
    if s.len() <= n {
        s
    } else {
        s.take(n)
    }
}

/// How many rows inserting this batch takes: one per message, one per
/// mention.
pub open spec fn batch_rows(b: Seq<(NewMessage, Vec<User>)>) -> nat
    decreases b.len(),
{
    if b.len() == 0 {
        0
    } else {
        1 + b[0].1@.len() + batch_rows(b.subrange(1, b.len() as int))
    }
}

/// The mention rows of a batch result, flattened in batch order.
pub open spec fn mentions_concat(rs: Seq<(Message, Vec<MessageMention>)>) -> Seq<MessageMention>
    decreases rs.len(),
{
    if rs.len() == 0 {
        Seq::empty()
    } else {
        mentions_concat(rs.drop_last()) + rs.last().1@
    }
}

/// The message rows of a batch result, in batch order.
pub open spec fn messages_of(rs: Seq<(Message, Vec<MessageMention>)>) -> Seq<Message> {
    rs.map_values(|p: (Message, Vec<MessageMention>)| p.0)
}

impl NewMessage {
    /// The foreign keys of this message resolve.
    pub open spec fn valid(self, store: Store) -> bool {
        &&& store.channel_exists(self.channel_id@)
        &&& store.user_exists(self.user_id@)
    }
}

/// Every message of the batch has resolving foreign keys, and so does
/// every mentioned user.
pub open spec fn batch_valid(b: Seq<(NewMessage, Vec<User>)>, store: Store) -> bool {
    forall|k: int|
        0 <= k < b.len() ==> (#[trigger] b[k]).0.valid(store) && (forall|j: int|
            0 <= j < b[k].1@.len() ==> store.user_exists(#[trigger] b[k].1@[j].id@))
}

/// Whether a channel with this identifier exists; a helper for
/// foreign-key checks.
fn channel_id_exists(cid: &String, store: &Store) -> (r: bool)
    ensures
        r == store.channel_exists(cid@),
{
    let n = store.channels.len();
    let mut i: usize = 0;
    while i < n
        invariant
            i <= n,
            n == store.channels@.len(),
            forall|j: int| 0 <= j < i ==> #[trigger] store.channels@[j].id@ != cid@,
        decreases n - i,
    {
        if store.channels[i].id == *cid {
            return true;
        }
        i = i + 1;
    }
    false
}

/// Whether a message with this identifier exists.
fn message_id_exists(mid: &String, store: &Store) -> (r: bool)
    ensures
        r == store.message_exists(mid@),
{
    let n = store.messages.len();
    let mut i: usize = 0;
    while i < n
        invariant
            i <= n,
            n == store.messages@.len(),
            forall|j: int| 0 <= j < i ==> #[trigger] store.messages@[j].id@ != mid@,
        decreases n - i,
    {
        if store.messages[i].id == *mid {
            return true;
        }
        i = i + 1;
    }
    false
}

/// Appending one message row with a fresh identifier preserves the
/// store invariant.
proof fn lemma_push_message_wf(prev: Store, post: Store)
    requires
        prev.wf(),
        prev.next_id < u64::MAX,
        post.next_id == prev.next_id + 1,
        post.next_int_id == prev.next_int_id,
        post.messages@ == prev.messages@.push(post.messages@.last()),
        post.messages@.last().id@ == dec_str(prev.next_id),
        post.channels == prev.channels,
        post.room_channels == prev.room_channels,
        post.dm_channels == prev.dm_channels,
        post.dm_channel_users == prev.dm_channel_users,
        post.message_mentions == prev.message_mentions,
        post.users == prev.users,
        post.roles == prev.roles,
        post.user_roles == prev.user_roles,
    ensures
        post.wf(),
        !prev.message_exists(dec_str(prev.next_id)),
{
    let n0 = prev.next_id;
    assert(message_ids(post.messages@) =~= message_ids(prev.messages@).push(dec_str(n0)));
    lemma_ids_ok_push(message_ids(prev.messages@), n0);
    lemma_tables_grow(prev, (n0 + 1) as u64);
    assert forall|i: int| 0 <= i < prev.messages@.len() implies #[trigger] prev.messages@[i].id@
        != dec_str(n0) by {
        assert(message_ids(prev.messages@)[i] == prev.messages@[i].id@);
        lemma_assigned_is_not_next(prev.messages@[i].id@, n0);
    }
    crate::store::lemma_subtypes_complete_preserved(prev, post);
}

/// Appending one mention row with a fresh identifier preserves the
/// store invariant.
proof fn lemma_push_mention_wf(prev: Store, post: Store)
    requires
        prev.wf(),
        prev.next_id < u64::MAX,
        post.next_id == prev.next_id + 1,
        post.next_int_id == prev.next_int_id,
        post.message_mentions@ == prev.message_mentions@.push(post.message_mentions@.last()),
        post.message_mentions@.last().id@ == dec_str(prev.next_id),
        post.channels == prev.channels,
        post.room_channels == prev.room_channels,
        post.dm_channels == prev.dm_channels,
        post.dm_channel_users == prev.dm_channel_users,
        post.messages == prev.messages,
        post.users == prev.users,
        post.roles == prev.roles,
        post.user_roles == prev.user_roles,
    ensures
        post.wf(),
{
    let n0 = prev.next_id;
    assert(mention_ids(post.message_mentions@) =~= mention_ids(prev.message_mentions@).push(
        dec_str(n0),
    ));
    lemma_ids_ok_push(mention_ids(prev.message_mentions@), n0);
    lemma_tables_grow(prev, (n0 + 1) as u64);
    crate::store::lemma_subtypes_complete_preserved(prev, post);
}

impl Message {
    /// The first page of a channel's messages: the channel's rows in
    /// table order, up to the page limit of 20.
    pub fn list_by_channel_id(message_channel_id: String, store: &Store) -> (r: Result<
        Vec<Message>,
        DbError,
    >)
        ensures
            match r {
                Ok(v) => v@ == limited(
                    matching_messages(store.messages@, message_channel_id@),
                    20,
                ),
                Err(_) => false,
            },
    {
        let n = store.messages.len();
        let mut out: Vec<Message> = Vec::new();
        let mut i: usize = 0;
        while i < n
            invariant
                i <= n,
                n == store.messages@.len(),
                out@.len() <= 20,
                out@ == limited(
                    matching_messages(
                        store.messages@.subrange(0, i as int),
                        message_channel_id@,
                    ),
                    20,
                ),
                out@.len() == 20 ==> matching_messages(
                    store.messages@.subrange(0, i as int),
                    message_channel_id@,
                ).len() >= 20,
            decreases n - i,
        {
            let ghost prefix = store.messages@.subrange(0, i as int);
            let ghost matched = matching_messages(prefix, message_channel_id@);
            if out.len() < 20 && store.messages[i].channel_id == message_channel_id {
                out.push(store.messages[i].clone());
            }
            i = i + 1;
            proof {
                let stepped = store.messages@.subrange(0, i as int);
                assert(stepped.drop_last() =~= prefix);
                assert(stepped.last() == store.messages@[i - 1]);
                let matched2 = matching_messages(stepped, message_channel_id@);
                if store.messages@[i - 1].channel_id@ == message_channel_id@ {
                    assert(matched2 == matched.push(store.messages@[i - 1]));
                    if matched.len() >= 20 {
                        assert(matched2.take(20) =~= matched.take(20));
                    } else {
                        assert(matched2.len() <= 20 ==> matched2 == out@);
                        if matched2.len() > 20 {
                            assert(matched2.take(20) =~= matched);
                        }
                    }
                } else {
                    assert(matched2 == matched);
                }
            }
        }
        proof {
            assert(store.messages@.subrange(0, n as int) =~= store.messages@);
        }
        Ok(out)
    }

    /// The first page of a room's messages: resolve the room's
    /// channel, then page its messages as `list_by_channel_id` does.
    pub fn list_by_room_id(room_id_query: String, store: &Store) -> (r: Result<
        Vec<Message>,
        DbError,
    >)
        requires
            store.wf(),
        ensures
            r is Ok <==> store.room_channel_exists(room_id_query@),
            match r {
                Ok(v) => exists|i: int|
                    {
                        &&& 0 <= i < store.room_channels@.len()
                        &&& (#[trigger] store.room_channels@[i]).room_id@ == room_id_query@
                        &&& v@ == limited(
                            matching_messages(
                                store.messages@,
                                store.room_channels@[i].channel_id@,
                            ),
                            20,
                        )
                    },
                Err(e) => e == DbError::NotFound,
            },
    {
        let room_channel = match crate::channels::RoomChannel::by_room_id(room_id_query, store) {
            Ok(rc) => rc,
            Err(e) => {
                return Err(e);
            }
        };
        let ghost rc_snap = room_channel;
        let primary_channel = match crate::channels::Channel::by_id(
            room_channel.channel_id,
            store,
        ) {
            Ok(c) => c,
            Err(_) => {
                proof {
                    let i = choose|i: int|
                        0 <= i < store.room_channels@.len()
                            && #[trigger] store.room_channels@[i] == rc_snap;
                    assert(store.channel_exists(store.room_channels@[i].channel_id@));
                }
                return Err(DbError::NotFound);
            }
        };
        Message::list_by_channel_id(primary_channel.id, store)
    }

    /// Insert one message. Fails, leaving the store untouched, exactly
    /// when the channel or the author does not exist.
    pub fn insert_row(new: &NewMessage, store: &mut Store) -> (r: Result<Message, DbError>)
        requires
            old(store).wf(),
            old(store).has_capacity(1),
        ensures
            final(store).wf(),
            r is Ok <==> new.valid(*old(store)),
            match r {
                Ok(m) => {
                    &&& final(store).messages@ == old(store).messages@.push(m)
                    &&& m.channel_id@ == new.channel_id@
                    &&& m.user_id@ == new.user_id@
                    &&& m.content@ == new.content@
                    &&& m.created_at == old(store).clock
                    &&& !old(store).message_exists(m.id@)
                },
                Err(e) => e == DbError::ConstraintViolation && *final(store) == *old(store),
            },
            final(store).channels == old(store).channels,
            final(store).room_channels == old(store).room_channels,
            final(store).dm_channels == old(store).dm_channels,
            final(store).dm_channel_users == old(store).dm_channel_users,
            final(store).message_mentions == old(store).message_mentions,
            final(store).users == old(store).users,
            final(store).roles == old(store).roles,
            final(store).user_roles == old(store).user_roles,
            final(store).clock == old(store).clock,
    {
        if !channel_id_exists(&new.channel_id, store) {
            return Err(DbError::ConstraintViolation);
        }
        if !crate::channels::user_id_exists(&new.user_id, store) {
            return Err(DbError::ConstraintViolation);
        }
        let ghost prev = *store;
        let mid = store.fresh_str_id();
        let message = Message {
            id: mid,
            channel_id: new.channel_id.clone(),
            user_id: new.user_id.clone(),
            content: new.content.clone(),
            created_at: store.clock,
        };
        let result = message.clone();
        store.messages.push(message);
        proof {
            lemma_push_message_wf(prev, *store);
        }
        Ok(result)
    }
}

impl NewMessage {
    /// Insert the message.
    pub fn create(&self, store: &mut Store) -> (r: Result<Message, DbError>)
        requires
            old(store).wf(),
            old(store).has_capacity(1),
        ensures
            final(store).wf(),
            r is Ok <==> self.valid(*old(store)),
            match r {
                Ok(m) => {
                    &&& final(store).messages@ == old(store).messages@.push(m)
                    &&& m.channel_id@ == self.channel_id@
                    &&& m.user_id@ == self.user_id@
                    &&& m.content@ == self.content@
                    &&& m.created_at == old(store).clock
                    &&& !old(store).message_exists(m.id@)
                },
                Err(e) => e == DbError::ConstraintViolation && *final(store) == *old(store),
            },
            final(store).channels == old(store).channels,
            final(store).room_channels == old(store).room_channels,
            final(store).dm_channels == old(store).dm_channels,
            final(store).dm_channel_users == old(store).dm_channel_users,
            final(store).message_mentions == old(store).message_mentions,
            final(store).users == old(store).users,
            final(store).roles == old(store).roles,
            final(store).user_roles == old(store).user_roles,
            final(store).clock == old(store).clock,
            final(store).next_id <= old(store).next_id + 1,
            final(store).next_int_id == old(store).next_int_id,
    {
        if !channel_id_exists(&self.channel_id, store) {
            return Err(DbError::ConstraintViolation);
        }
        if !crate::channels::user_id_exists(&self.user_id, store) {
            return Err(DbError::ConstraintViolation);
        }
        let ghost prev = *store;
        let mid = store.fresh_str_id();
        let message = Message {
            id: mid,
            channel_id: self.channel_id.clone(),
            user_id: self.user_id.clone(),
            content: self.content.clone(),
            created_at: store.clock,
        };
        let result = message.clone();
        store.messages.push(message);
        proof {
            lemma_push_message_wf(prev, *store);
        }
        Ok(result)
    }

    /// Insert one message and its mention rows; validity was checked by
    /// the caller, so nothing here can fail.
    fn create_with_mentions(&self, mentioned_users: &Vec<User>, store: &mut Store) -> (r: (
        Message,
        Vec<MessageMention>,
    ))
        requires
            old(store).wf(),
            old(store).next_id + 1 + mentioned_users@.len() <= u64::MAX,
            self.valid(*old(store)),
        ensures
            final(store).wf(),
            final(store).messages@ == old(store).messages@.push(r.0),
            r.0.channel_id@ == self.channel_id@,
            r.0.user_id@ == self.user_id@,
            r.0.content@ == self.content@,
            r.0.created_at == old(store).clock,
            r.1@.len() == mentioned_users@.len(),
            final(store).message_mentions@ == old(store).message_mentions@ + r.1@,
            forall|j: int|
                0 <= j < r.1@.len() ==> (#[trigger] r.1@[j]).user_id@ == mentioned_users@[j].id@
                    && r.1@[j].message_id@ == r.0.id@,
            final(store).next_id == old(store).next_id + 1 + mentioned_users@.len(),
            final(store).next_int_id == old(store).next_int_id,
            final(store).channels == old(store).channels,
            final(store).room_channels == old(store).room_channels,
            final(store).dm_channels == old(store).dm_channels,
            final(store).dm_channel_users == old(store).dm_channel_users,
            final(store).users == old(store).users,
            final(store).roles == old(store).roles,
            final(store).user_roles == old(store).user_roles,
            final(store).clock == old(store).clock,
    {
        let ghost prev = *store;
        let mid = store.fresh_str_id();
        let message = Message {
            id: mid,
            channel_id: self.channel_id.clone(),
            user_id: self.user_id.clone(),
            content: self.content.clone(),
            created_at: store.clock,
        };
        let message_created = message.clone();
        store.messages.push(message);
        proof {
            lemma_push_message_wf(prev, *store);
        }

        let ghost mid_state = *store;
        let m = mentioned_users.len();
        let mut mentions: Vec<MessageMention> = Vec::new();
        let mut j: usize = 0;
        while j < m
            invariant
                j <= m,
                m == mentioned_users@.len(),
                store.wf(),
                store.next_id == mid_state.next_id + j,
                store.next_id + (m - j) <= u64::MAX,
                store.next_int_id == mid_state.next_int_id,
                store.channels == mid_state.channels,
                store.room_channels == mid_state.room_channels,
                store.dm_channels == mid_state.dm_channels,
                store.dm_channel_users == mid_state.dm_channel_users,
                store.messages == mid_state.messages,
                store.users == mid_state.users,
                store.roles == mid_state.roles,
                store.user_roles == mid_state.user_roles,
                store.clock == mid_state.clock,
                mentions@.len() == j,
                store.message_mentions@ == mid_state.message_mentions@ + mentions@,
                forall|j2: int|
                    0 <= j2 < j ==> (#[trigger] mentions@[j2]).user_id@
                        == mentioned_users@[j2].id@ && mentions@[j2].message_id@
                        == message_created.id@,
            decreases m - j,
        {
            let ghost loop_prev = *store;
            let pid = store.fresh_str_id();
            let row = MessageMention {
                id: pid,
                user_id: mentioned_users[j].id.clone(),
                message_id: message_created.id.clone(),
            };
            mentions.push(row.clone());
            store.message_mentions.push(row);
            proof {
                lemma_push_mention_wf(loop_prev, *store);
                assert(store.message_mentions@ =~= mid_state.message_mentions@ + mentions@);
            }
            j = j + 1;
        }
        (message_created, mentions)
    }

    /// Create a whole batch of messages, each with its mentions, as one
    /// atomic unit, preserving input order in the output. Any failure
    /// anywhere in the batch — a channel, an author or a mentioned user
    /// that does not exist — aborts the whole batch before anything is
    /// written: partial batches are never visible.
    pub fn bulk_create_with_mentions(
        new_messages: Vec<(NewMessage, Vec<User>)>,
        store: &mut Store,
    ) -> (r: Result<Vec<(Message, Vec<MessageMention>)>, DbError>)
        requires
            old(store).wf(),
            old(store).next_id + batch_rows(new_messages@) <= u64::MAX,
        ensures
            final(store).wf(),
            r is Ok <==> batch_valid(new_messages@, *old(store)),
            match r {
                Ok(rs) => {
                    &&& rs@.len() == new_messages@.len()
                    &&& final(store).messages@ == old(store).messages@ + messages_of(rs@)
                    &&& final(store).message_mentions@ == old(store).message_mentions@
                        + mentions_concat(rs@)
                    &&& forall|k: int|
                        0 <= k < rs@.len() ==> {
                            let pair = #[trigger] rs@[k];
                            &&& pair.0.channel_id@ == new_messages@[k].0.channel_id@
                            &&& pair.0.user_id@ == new_messages@[k].0.user_id@
                            &&& pair.0.content@ == new_messages@[k].0.content@
                            &&& pair.0.created_at == old(store).clock
                            &&& pair.1@.len() == new_messages@[k].1@.len()
                            &&& forall|j: int|
                                0 <= j < pair.1@.len() ==> (#[trigger] pair.1@[j]).user_id@
                                    == new_messages@[k].1@[j].id@ && pair.1@[j].message_id@
                                    == pair.0.id@
                        }
                },
                Err(e) => e == DbError::ConstraintViolation && *final(store) == *old(store),
            },
            final(store).channels == old(store).channels,
            final(store).room_channels == old(store).room_channels,
            final(store).dm_channels == old(store).dm_channels,
            final(store).dm_channel_users == old(store).dm_channel_users,
            final(store).users == old(store).users,
            final(store).roles == old(store).roles,
            final(store).user_roles == old(store).user_roles,
            final(store).clock == old(store).clock,
            final(store).next_id <= old(store).next_id + batch_rows(new_messages@),
            final(store).next_int_id == old(store).next_int_id,
    {
        let n = new_messages.len();

        // validate the whole batch first: this is the transaction
        // boundary, and nothing is written until every insert is known
        // to succeed
        let mut k: usize = 0;
        while k < n
            invariant
                k <= n,
                n == new_messages@.len(),
                *store == *old(store),
                store.wf(),
                forall|k2: int|
                    0 <= k2 < k ==> (#[trigger] new_messages@[k2]).0.valid(*old(store)) && (
                    forall|j: int|
                        0 <= j < new_messages@[k2].1@.len() ==> old(store).user_exists(
                            #[trigger] new_messages@[k2].1@[j].id@,
                        )),
            decreases n - k,
        {
            let (msg, mentioned) = &new_messages[k];
            if !channel_id_exists(&msg.channel_id, store) {
                return Err(DbError::ConstraintViolation);
            }
            if !crate::channels::user_id_exists(&msg.user_id, store) {
                return Err(DbError::ConstraintViolation);
            }
            let m = mentioned.len();
            let mut j: usize = 0;
            while j < m
                invariant
                    j <= m,
                    k < n,
                    n == new_messages@.len(),
                    m == new_messages@[k as int].1@.len(),
                    *store == *old(store),
                    store.wf(),
                    forall|j2: int|
                        0 <= j2 < j ==> old(store).user_exists(
                            #[trigger] new_messages@[k as int].1@[j2].id@,
                        ),
                decreases m - j,
            {
                if !crate::channels::user_id_exists(&new_messages[k].1[j].id, store) {
                    return Err(DbError::ConstraintViolation);
                }
                j = j + 1;
            }
            k = k + 1;
        }

        // apply: every insert below is now known to succeed, so this is
        // the committed transaction body
        let ghost start = *store;
        proof {
            assert(new_messages@.subrange(0, n as int) =~= new_messages@);
        }
        let mut result: Vec<(Message, Vec<MessageMention>)> = Vec::new();
        let mut k2: usize = 0;
        while k2 < n
            invariant
                k2 <= n,
                n == new_messages@.len(),
                batch_valid(new_messages@, start),
                store.wf(),
                store.next_id + batch_rows(new_messages@.subrange(k2 as int, n as int))
                    <= u64::MAX,
                store.next_id + batch_rows(new_messages@.subrange(k2 as int, n as int))
                    <= start.next_id + batch_rows(new_messages@),
                store.next_int_id == start.next_int_id,
                store.channels == start.channels,
                store.room_channels == start.room_channels,
                store.dm_channels == start.dm_channels,
                store.dm_channel_users == start.dm_channel_users,
                store.users == start.users,
                store.roles == start.roles,
                store.user_roles == start.user_roles,
                store.clock == start.clock,
                result@.len() == k2,
                store.messages@ == start.messages@ + messages_of(result@),
                store.message_mentions@ == start.message_mentions@ + mentions_concat(result@),
                forall|k3: int|
                    0 <= k3 < k2 ==> {
                        let pair = #[trigger] result@[k3];
                        &&& pair.0.channel_id@ == new_messages@[k3].0.channel_id@
                        &&& pair.0.user_id@ == new_messages@[k3].0.user_id@
                        &&& pair.0.content@ == new_messages@[k3].0.content@
                        &&& pair.0.created_at == start.clock
                        &&& pair.1@.len() == new_messages@[k3].1@.len()
                        &&& forall|j: int|
                            0 <= j < pair.1@.len() ==> (#[trigger] pair.1@[j]).user_id@
                                == new_messages@[k3].1@[j].id@ && pair.1@[j].message_id@
                                == pair.0.id@
                    },
            decreases n - k2,
        {
            let ghost rest = new_messages@.subrange(k2 as int, n as int);
            proof {
                assert(rest[0] == new_messages@[k2 as int]);
                assert(rest.subrange(1, rest.len() as int) =~= new_messages@.subrange(
                    k2 as int + 1,
                    n as int,
                ));
                assert(new_messages@[k2 as int].0.valid(start));
                assert(new_messages@[k2 as int].0.valid(*store));
            }
            let (msg, mentioned) = &new_messages[k2];
            let pair = msg.create_with_mentions(mentioned, store);
            let ghost before_push = result@;
            result.push(pair);
            proof {
                assert(result@.drop_last() =~= before_push);
                assert(messages_of(result@) =~= messages_of(before_push).push(
                    result@.last().0,
                ));
                assert(mentions_concat(result@) == mentions_concat(before_push)
                    + result@.last().1@);
                assert(store.messages@ =~= start.messages@ + messages_of(result@));
                assert(store.message_mentions@ =~= start.message_mentions@ + mentions_concat(
                    result@,
                ));
            }
            k2 = k2 + 1;
        }
        proof {
            assert(new_messages@.subrange(0, n as int) =~= new_messages@);
        }
        Ok(result)
    }
}

impl NewMessageMention {
    /// Insert one mention row. Fails, leaving the store untouched,
    /// exactly when the mentioned user or the message does not exist.
    pub fn create(&self, store: &mut Store) -> (r: Result<MessageMention, DbError>)
        requires
            old(store).wf(),
            old(store).has_capacity(1),
        ensures
            final(store).wf(),
            r is Ok <==> (old(store).user_exists(self.user_id@) && old(store).message_exists(
                self.message_id@,
            )),
            match r {
                Ok(mm) => {
                    &&& final(store).message_mentions@ == old(store).message_mentions@.push(mm)
                    &&& mm.user_id@ == self.user_id@
                    &&& mm.message_id@ == self.message_id@
                },
                Err(e) => e == DbError::ConstraintViolation && *final(store) == *old(store),
            },
            final(store).channels == old(store).channels,
            final(store).room_channels == old(store).room_channels,
            final(store).dm_channels == old(store).dm_channels,
            final(store).dm_channel_users == old(store).dm_channel_users,
            final(store).messages == old(store).messages,
            final(store).users == old(store).users,
            final(store).roles == old(store).roles,
            final(store).user_roles == old(store).user_roles,
            final(store).clock == old(store).clock,
            final(store).next_id <= old(store).next_id + 1,
            final(store).next_int_id == old(store).next_int_id,
    {
        if !crate::channels::user_id_exists(&self.user_id, store) {
            return Err(DbError::ConstraintViolation);
        }
        if !message_id_exists(&self.message_id, store) {
            return Err(DbError::ConstraintViolation);
        }
        let ghost prev = *store;
        let mmid = store.fresh_str_id();
        let row = MessageMention {
            id: mmid,
            user_id: self.user_id.clone(),
            message_id: self.message_id.clone(),
        };
        let result = row.clone();
        store.message_mentions.push(row);
        proof {
            lemma_push_mention_wf(prev, *store);
        }
        Ok(result)
    }
}

impl Message {
    /// Remove this message's own row. Mentions are left to the storage
    /// layer's pruning; nothing else is touched. The count of removed
    /// rows is returned, zero when no row carries this identifier.
    pub fn delete(&self, store: &mut Store) -> (r: Result<usize, DbError>)
        requires
            old(store).wf(),
        ensures
            final(store).wf(),
            match r {
                Ok(count) => {
                    if old(store).message_exists(self.id@) {
                        count == 1 && exists|i: int|
                            {
                                &&& 0 <= i < old(store).messages@.len()
                                &&& old(store).messages@[i].id@ == self.id@
                                &&& final(store).messages@ == old(store).messages@.remove(i)
                            }
                    } else {
                        count == 0 && *final(store) == *old(store)
                    }
                },
                Err(_) => false,
            },
            final(store).channels == old(store).channels,
            final(store).room_channels == old(store).room_channels,
            final(store).dm_channels == old(store).dm_channels,
            final(store).dm_channel_users == old(store).dm_channel_users,
            final(store).message_mentions == old(store).message_mentions,
            final(store).users == old(store).users,
            final(store).roles == old(store).roles,
            final(store).user_roles == old(store).user_roles,
            final(store).clock == old(store).clock,
            final(store).next_id == old(store).next_id,
            final(store).next_int_id == old(store).next_int_id,
    {
        let ghost entry = *store;
        let n = store.messages.len();
        let mut i: usize = 0;
        while i < n
            invariant
                i <= n,
                n == store.messages@.len(),
                *store == *old(store),
                *store == entry,
                entry.wf(),
                forall|j: int| 0 <= j < i ==> #[trigger] store.messages@[j].id@ != self.id@,
            decreases n - i,
        {
            if store.messages[i].id == self.id {
                store.messages.remove(i);
                proof {
                    assert(message_ids(store.messages@) =~= message_ids(entry.messages@).remove(
                        i as int,
                    ));
                    crate::store::lemma_ids_ok_remove(
                        message_ids(entry.messages@),
                        entry.next_id,
                        i as int,
                    );
                    crate::store::lemma_subtypes_complete_preserved(entry, *store);
                }
                return Ok(1);
            }
            i = i + 1;
        }
        Ok(0)
    }
}

impl MessageMention {
    /// Remove this mention's own row; nothing else is touched. The
    /// count of removed rows is returned, zero when no row carries this
    /// identifier.
    pub fn delete(&self, store: &mut Store) -> (r: Result<usize, DbError>)
        requires
            old(store).wf(),
        ensures
            final(store).wf(),
            match r {
                Ok(count) => {
                    if exists|i: int|
                        0 <= i < old(store).message_mentions@.len()
                            && #[trigger] old(store).message_mentions@[i].id@ == self.id@ {
                        count == 1 && exists|i: int|
                            {
                                &&& 0 <= i < old(store).message_mentions@.len()
                                &&& old(store).message_mentions@[i].id@ == self.id@
                                &&& final(store).message_mentions@ == old(
                                    store,
                                ).message_mentions@.remove(i)
                            }
                    } else {
                        count == 0 && *final(store) == *old(store)
                    }
                },
                Err(_) => false,
            },
            final(store).channels == old(store).channels,
            final(store).room_channels == old(store).room_channels,
            final(store).dm_channels == old(store).dm_channels,
            final(store).dm_channel_users == old(store).dm_channel_users,
            final(store).messages == old(store).messages,
            final(store).users == old(store).users,
            final(store).roles == old(store).roles,
            final(store).user_roles == old(store).user_roles,
            final(store).clock == old(store).clock,
            final(store).next_id == old(store).next_id,
            final(store).next_int_id == old(store).next_int_id,
    {
        let ghost entry = *store;
        let n = store.message_mentions.len();
        let mut i: usize = 0;
        while i < n
            invariant
                i <= n,
                n == store.message_mentions@.len(),
                *store == *old(store),
                *store == entry,
                entry.wf(),
                forall|j: int|
                    0 <= j < i ==> #[trigger] store.message_mentions@[j].id@ != self.id@,
            decreases n - i,
        {
            if store.message_mentions[i].id == self.id {
                store.message_mentions.remove(i);
                proof {
                    assert(mention_ids(store.message_mentions@) =~= mention_ids(
                        entry.message_mentions@,
                    ).remove(i as int));
                    crate::store::lemma_ids_ok_remove(
                        mention_ids(entry.message_mentions@),
                        entry.next_id,
                        i as int,
                    );
                    crate::store::lemma_subtypes_complete_preserved(entry, *store);
                }
                return Ok(1);
            }
            i = i + 1;
        }
        Ok(0)
    }
}

impl Message {
    /// Replace the message row carrying this value's identifier with
    /// this value; the channel and author it points at must exist.
    pub fn update(&self, store: &mut Store) -> (r: Result<Message, DbError>)
        requires
            old(store).wf(),
        ensures
            final(store).wf(),
            r is Ok <==> (old(store).message_exists(self.id@) && old(store).channel_exists(
                self.channel_id@,
            ) && old(store).user_exists(self.user_id@)),
            match r {
                Ok(m) => m == *self && exists|i: int|
                    {
                        &&& 0 <= i < old(store).messages@.len()
                        &&& old(store).messages@[i].id@ == self.id@
                        &&& final(store).messages@ == old(store).messages@.update(i, *self)
                    },
                Err(e) => *final(store) == *old(store) && match e {
                    DbError::NotFound => !old(store).message_exists(self.id@),
                    DbError::ConstraintViolation => old(store).message_exists(self.id@) && !(
                    old(store).channel_exists(self.channel_id@) && old(store).user_exists(
                        self.user_id@,
                    )),
                    _ => false,
                },
            },
            final(store).channels == old(store).channels,
            final(store).room_channels == old(store).room_channels,
            final(store).dm_channels == old(store).dm_channels,
            final(store).dm_channel_users == old(store).dm_channel_users,
            final(store).message_mentions == old(store).message_mentions,
            final(store).users == old(store).users,
            final(store).roles == old(store).roles,
            final(store).user_roles == old(store).user_roles,
            final(store).clock == old(store).clock,
            final(store).next_id == old(store).next_id,
            final(store).next_int_id == old(store).next_int_id,
    {
        let ghost entry = *store;
        let n = store.messages.len();
        let mut i: usize = 0;
        while i < n
            invariant
                i <= n,
                n == store.messages@.len(),
                *store == *old(store),
                *store == entry,
                entry.wf(),
                forall|j: int| 0 <= j < i ==> #[trigger] store.messages@[j].id@ != self.id@,
            decreases n - i,
        {
            if store.messages[i].id == self.id {
                if !channel_id_exists(&self.channel_id, store) {
                    return Err(DbError::ConstraintViolation);
                }
                if !crate::channels::user_id_exists(&self.user_id, store) {
                    return Err(DbError::ConstraintViolation);
                }
                let row = self.clone();
                let result = self.clone();
                store.messages.remove(i);
                store.messages.insert(i, row);
                proof {
                    assert(store.messages@ =~= entry.messages@.update(i as int, *self));
                    assert(message_ids(store.messages@) =~= message_ids(entry.messages@));
                    crate::store::lemma_subtypes_complete_preserved(entry, *store);
                }
                return Ok(result);
            }
            i = i + 1;
        }
        Err(DbError::NotFound)
    }
}

} // verus!
