//! The atomic composite-entity creation protocol over the in-memory
//! store: channel-plus-specialization pairs and message batches are
//! all-or-nothing.

use roomkit::channels::{
    create_channel, Channel, ChannelSubtype, NewChannelKind, NewDmChannel, NewDmChannelUser,
    NewRoomChannel, RoomChannel,
};
use roomkit::messages::{Message, NewMessage, NewMessageMention};
use roomkit::store::{DbError, Store};
use roomkit::users::{NewUser, User};

fn user(store: &mut Store, name: &str) -> User {
    let mut payload = NewUser::default();
    payload.username = name.to_string();
    payload.create(store).expect("user should persist")
}

fn room_channel(store: &mut Store, room: &str) -> RoomChannel {
    NewRoomChannel { channel_id: None, room_id: room.to_string() }
        .create(store)
        .expect("room channel should persist")
}

fn message(store: &mut Store, channel: &str, author: &str, text: &str) -> Message {
    NewMessage {
        channel_id: channel.to_string(),
        user_id: author.to_string(),
        content: text.to_string(),
    }
    .create(store)
    .expect("message should persist")
}

#[test]
fn room_channel_creation_creates_the_pair() {
    let mut store = Store::new();
    store.clock = 9;
    let rc = room_channel(&mut store, "room-1");
    assert_eq!(store.channels.len(), 1);
    assert_eq!(store.room_channels.len(), 1);
    assert_eq!(rc.channel_id, store.channels[0].id);
    assert_eq!(rc.room_id, "room-1");
    assert_eq!(store.channels[0].created_at, 9);
    assert_eq!(store.channels[0].deleted_at, None);
}

#[test]
fn duplicate_room_channel_leaves_no_orphan_channel() {
    let mut store = Store::new();
    room_channel(&mut store, "room-1");
    let channels_before = store.channels.len();
    let room_channels_before = store.room_channels.len();

    let second = NewRoomChannel { channel_id: None, room_id: "room-1".to_string() }
        .create(&mut store);
    assert_eq!(second, Err(DbError::ConstraintViolation));

    // the uniqueness failure rolled the whole unit back: zero generic
    // channel rows were left behind
    assert_eq!(store.channels.len(), channels_before);
    assert_eq!(store.room_channels.len(), room_channels_before);
}

#[test]
fn create_channel_room_kind_returns_both_rows() {
    let mut store = Store::new();
    let (channel, subtype) = create_channel(
        &mut store,
        NewChannelKind::Room(NewRoomChannel { channel_id: None, room_id: "r".to_string() }),
    )
    .unwrap();
    match subtype {
        ChannelSubtype::Room(rc) => {
            assert_eq!(rc.channel_id, channel.id);
            assert_eq!(rc.room_id, "r");
        }
        _ => panic!("expected a room subtype"),
    }
    assert_eq!(store.channels.len(), 1);
}

#[test]
fn create_channel_dm_kind_creates_participants() {
    let mut store = Store::new();
    let alice = user(&mut store, "alice");
    let bob = user(&mut store, "bobby");
    let (channel, subtype) = create_channel(
        &mut store,
        NewChannelKind::Dm(NewDmChannel { user_ids: vec![alice.id.clone(), bob.id.clone()] }),
    )
    .unwrap();
    match subtype {
        ChannelSubtype::Dm(dm, parts) => {
            assert_eq!(dm.channel_id, channel.id);
            assert_eq!(parts.len(), 2);
            assert_eq!(parts[0].user_id, alice.id);
            assert_eq!(parts[1].user_id, bob.id);
            assert_eq!(parts[0].dm_channel_id, dm.id);
        }
        _ => panic!("expected a dm subtype"),
    }
    assert_eq!(store.dm_channel_users.len(), 2);
}

#[test]
fn dm_channel_with_unknown_participant_writes_nothing() {
    let mut store = Store::new();
    let alice = user(&mut store, "alice");
    let channels_before = store.channels.len();
    let r = create_channel(
        &mut store,
        NewChannelKind::Dm(NewDmChannel { user_ids: vec![alice.id, "ghost".to_string()] }),
    );
    assert!(r.is_err());
    assert_eq!(store.channels.len(), channels_before);
    assert_eq!(store.dm_channels.len(), 0);
    assert_eq!(store.dm_channel_users.len(), 0);
}

#[test]
fn channel_lookup_and_soft_delete() {
    let mut store = Store::new();
    let rc = room_channel(&mut store, "room-1");
    store.clock = 77;
    let channel = Channel::by_id(rc.channel_id.clone(), &store).unwrap();
    assert_eq!(channel.deleted_at, None);
    assert_eq!(channel.delete(&mut store), Ok(1));
    // soft delete: the row stays, with the marker set
    assert_eq!(store.channels.len(), 1);
    let marked = Channel::by_id(rc.channel_id, &store).unwrap();
    assert_eq!(marked.deleted_at, Some(77));
    assert!(Channel::by_id("missing".to_string(), &store).is_err());
}

#[test]
fn room_channel_lookups() {
    let mut store = Store::new();
    let rc = room_channel(&mut store, "room-1");
    assert_eq!(RoomChannel::by_room_id("room-1".to_string(), &store).unwrap(), rc);
    assert_eq!(
        RoomChannel::by_room_id("room-2".to_string(), &store),
        Err(DbError::NotFound)
    );
    assert_eq!(RoomChannel::by_id(rc.id.clone(), &store).unwrap(), rc);
}

#[test]
fn message_requires_existing_channel_and_author() {
    let mut store = Store::new();
    let rc = room_channel(&mut store, "room-1");
    let alice = user(&mut store, "alice");
    let m = message(&mut store, &rc.channel_id, &alice.id, "hi");
    assert_eq!(m.content, "hi");

    let bad_channel = NewMessage {
        channel_id: "nope".to_string(),
        user_id: alice.id.clone(),
        content: "x".to_string(),
    }
    .create(&mut store);
    assert_eq!(bad_channel, Err(DbError::ConstraintViolation));

    let bad_author = NewMessage {
        channel_id: rc.channel_id.clone(),
        user_id: "nope".to_string(),
        content: "x".to_string(),
    }
    .create(&mut store);
    assert_eq!(bad_author, Err(DbError::ConstraintViolation));
    assert_eq!(store.messages.len(), 1);
}

#[test]
fn mention_rows_require_existing_user_and_message() {
    let mut store = Store::new();
    let rc = room_channel(&mut store, "room-1");
    let alice = user(&mut store, "alice");
    let m = message(&mut store, &rc.channel_id, &alice.id, "hi");

    let ok = NewMessageMention { user_id: alice.id.clone(), message_id: m.id.clone() }
        .create(&mut store)
        .unwrap();
    assert_eq!(ok.message_id, m.id);

    let bad = NewMessageMention { user_id: "nope".to_string(), message_id: m.id.clone() }
        .create(&mut store);
    assert_eq!(bad, Err(DbError::ConstraintViolation));
}

#[test]
fn bulk_batch_is_created_in_order_with_mentions() {
    let mut store = Store::new();
    let rc = room_channel(&mut store, "room-1");
    let alice = user(&mut store, "alice");
    let bob = user(&mut store, "bobby");
    let batch = vec![
        (
            NewMessage {
                channel_id: rc.channel_id.clone(),
                user_id: alice.id.clone(),
                content: "one".to_string(),
            },
            vec![bob.clone()],
        ),
        (
            NewMessage {
                channel_id: rc.channel_id.clone(),
                user_id: bob.id.clone(),
                content: "two".to_string(),
            },
            vec![alice.clone(), bob.clone()],
        ),
    ];
    let results = NewMessage::bulk_create_with_mentions(batch, &mut store).unwrap();
    assert_eq!(results.len(), 2);
    assert_eq!(results[0].0.content, "one");
    assert_eq!(results[1].0.content, "two");
    assert_eq!(results[0].1.len(), 1);
    assert_eq!(results[0].1[0].user_id, bob.id);
    assert_eq!(results[0].1[0].message_id, results[0].0.id);
    assert_eq!(results[1].1.len(), 2);
    assert_eq!(results[1].1[0].user_id, alice.id);
    assert_eq!(store.messages.len(), 2);
    assert_eq!(store.message_mentions.len(), 3);
}

#[test]
fn bulk_batch_with_one_bad_insert_persists_nothing() {
    let mut store = Store::new();
    let rc = room_channel(&mut store, "room-1");
    let alice = user(&mut store, "alice");
    let bob = user(&mut store, "bobby");
    let messages_before = store.messages.len();
    let mentions_before = store.message_mentions.len();

    // a three-element batch whose third message references a channel
    // that does not exist
    let batch = vec![
        (
            NewMessage {
                channel_id: rc.channel_id.clone(),
                user_id: alice.id.clone(),
                content: "one".to_string(),
            },
            vec![bob.clone()],
        ),
        (
            NewMessage {
                channel_id: rc.channel_id.clone(),
                user_id: bob.id.clone(),
                content: "two".to_string(),
            },
            vec![],
        ),
        (
            NewMessage {
                channel_id: "missing".to_string(),
                user_id: alice.id.clone(),
                content: "three".to_string(),
            },
            vec![alice.clone()],
        ),
    ];
    let r = NewMessage::bulk_create_with_mentions(batch, &mut store);
    assert_eq!(r, Err(DbError::ConstraintViolation));

    // the whole batch rolled back: zero rows from all three messages
    // and their mentions
    assert_eq!(store.messages.len(), messages_before);
    assert_eq!(store.message_mentions.len(), mentions_before);
}

#[test]
fn listing_pages_messages_by_channel() {
    let mut store = Store::new();
    let rc1 = room_channel(&mut store, "room-1");
    let rc2 = room_channel(&mut store, "room-2");
    let alice = user(&mut store, "alice");
    message(&mut store, &rc1.channel_id, &alice.id, "a");
    message(&mut store, &rc2.channel_id, &alice.id, "b");
    message(&mut store, &rc1.channel_id, &alice.id, "c");

    let page = Message::list_by_channel_id(rc1.channel_id.clone(), &store).unwrap();
    assert_eq!(page.len(), 2);
    assert_eq!(page[0].content, "a");
    assert_eq!(page[1].content, "c");

    // the page limit is 20 rows
    for i in 0..25 {
        message(&mut store, &rc1.channel_id, &alice.id, &format!("m{}", i));
    }
    let full = Message::list_by_channel_id(rc1.channel_id.clone(), &store).unwrap();
    assert_eq!(full.len(), 20);
    assert_eq!(full[0].content, "a");
}

#[test]
fn listing_by_room_resolves_the_room_channel() {
    let mut store = Store::new();
    let rc = room_channel(&mut store, "room-1");
    let alice = user(&mut store, "alice");
    message(&mut store, &rc.channel_id, &alice.id, "hello");

    let page = Message::list_by_room_id("room-1".to_string(), &store).unwrap();
    assert_eq!(page.len(), 1);
    assert_eq!(page[0].content, "hello");
    assert_eq!(
        Message::list_by_room_id("room-9".to_string(), &store),
        Err(DbError::NotFound)
    );
}

#[test]
fn generated_identifiers_are_decimal_and_unique() {
    let mut store = Store::new();
    let a = room_channel(&mut store, "room-1");
    let b = room_channel(&mut store, "room-2");
    assert_eq!(a.channel_id, "0");
    assert_eq!(a.id, "1");
    assert_eq!(b.channel_id, "2");
    assert_eq!(b.id, "3");
}

#[test]
fn message_delete_removes_only_its_own_row() {
    let mut store = Store::new();
    let rc = room_channel(&mut store, "room-1");
    let alice = user(&mut store, "alice");
    let m1 = message(&mut store, &rc.channel_id, &alice.id, "one");
    let m2 = message(&mut store, &rc.channel_id, &alice.id, "two");
    let mention = NewMessageMention { user_id: alice.id.clone(), message_id: m1.id.clone() }
        .create(&mut store)
        .unwrap();

    assert_eq!(m1.delete(&mut store), Ok(1));
    assert_eq!(store.messages.len(), 1);
    assert_eq!(store.messages[0], m2);
    // mentions are left to the storage layer's pruning
    assert_eq!(store.message_mentions.len(), 1);
    // deleting again matches nothing
    assert_eq!(m1.delete(&mut store), Ok(0));

    assert_eq!(mention.delete(&mut store), Ok(1));
    assert_eq!(store.message_mentions.len(), 0);
    assert_eq!(mention.delete(&mut store), Ok(0));
}

#[test]
fn dm_participants_can_be_added_to_an_existing_channel() {
    let mut store = Store::new();
    let alice = user(&mut store, "alice");
    let bob = user(&mut store, "bobby");
    let (_, subtype) = create_channel(
        &mut store,
        NewChannelKind::Dm(NewDmChannel { user_ids: vec![alice.id.clone()] }),
    )
    .unwrap();
    let dm = match subtype {
        ChannelSubtype::Dm(dm, _) => dm,
        _ => panic!("expected a dm subtype"),
    };

    let row = NewDmChannelUser { user_id: bob.id.clone(), dm_channel_id: dm.id.clone() }
        .create(&mut store)
        .unwrap();
    assert_eq!(row.user_id, bob.id);
    assert_eq!(store.dm_channel_users.len(), 2);

    let bad = NewDmChannelUser { user_id: "ghost".to_string(), dm_channel_id: dm.id.clone() }
        .create(&mut store);
    assert_eq!(bad, Err(DbError::ConstraintViolation));
    let bad2 = NewDmChannelUser { user_id: bob.id.clone(), dm_channel_id: "nope".to_string() }
        .create(&mut store);
    assert_eq!(bad2, Err(DbError::ConstraintViolation));
}

#[test]
fn updates_rewrite_only_the_matching_row() {
    let mut store = Store::new();
    let rc = room_channel(&mut store, "room-1");
    let alice = user(&mut store, "alice");
    let m = message(&mut store, &rc.channel_id, &alice.id, "draft");

    // channel: the identifier is the filter, the marker is written
    let mut channel = Channel::by_id(rc.channel_id.clone(), &store).unwrap();
    channel.deleted_at = Some(5);
    assert_eq!(channel.update(&mut store).unwrap(), channel);
    assert_eq!(store.channels[0].deleted_at, Some(5));
    let ghost_row = Channel { id: "nope".to_string(), deleted_at: None, created_at: 0 };
    assert_eq!(ghost_row.update(&mut store), Err(DbError::NotFound));

    // message: content rewritten, foreign keys enforced
    let mut edited = m.clone();
    edited.content = "final".to_string();
    assert_eq!(edited.update(&mut store).unwrap(), edited);
    assert_eq!(store.messages[0].content, "final");
    let mut bad = edited.clone();
    bad.channel_id = "nope".to_string();
    assert_eq!(bad.update(&mut store), Err(DbError::ConstraintViolation));
    let mut missing = edited.clone();
    missing.id = "nope".to_string();
    assert_eq!(missing.update(&mut store), Err(DbError::NotFound));
}

#[test]
fn room_channel_update_moves_the_room_but_not_the_pair_link() {
    let mut store = Store::new();
    let rc1 = room_channel(&mut store, "room-1");
    let _rc2 = room_channel(&mut store, "room-2");

    let mut moved = rc1.clone();
    moved.room_id = "room-3".to_string();
    let written = moved.update(&mut store).unwrap();
    assert_eq!(written.room_id, "room-3");
    assert_eq!(written.channel_id, rc1.channel_id);
    assert_eq!(store.room_channels[0].room_id, "room-3");

    // one room channel per room: moving onto a taken room fails
    let mut clash = written.clone();
    clash.room_id = "room-2".to_string();
    assert_eq!(clash.update(&mut store), Err(DbError::ConstraintViolation));

    let mut missing = written;
    missing.id = "nope".to_string();
    assert_eq!(missing.update(&mut store), Err(DbError::NotFound));
}

#[test]
fn room_channel_delete_takes_the_generic_channel_with_it() {
    let mut store = Store::new();
    let rc1 = room_channel(&mut store, "room-1");
    let rc2 = room_channel(&mut store, "room-2");
    let alice = user(&mut store, "alice");
    message(&mut store, &rc1.channel_id, &alice.id, "kept");
    assert_eq!(store.channels.len(), 2);

    assert_eq!(rc1.delete(&mut store), Ok(1));
    // the pair left together: no orphan generic channel remains
    assert_eq!(store.room_channels.len(), 1);
    assert_eq!(store.channels.len(), 1);
    assert_eq!(store.room_channels[0], rc2);
    assert_eq!(store.channels[0].id, rc2.channel_id);
    // messages are not cascaded
    assert_eq!(store.messages.len(), 1);
    // deleting again matches nothing
    assert_eq!(rc1.delete(&mut store), Ok(0));
}
