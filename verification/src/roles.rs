//! Roles: an ordered, named bundle of permission values belonging to a
//! room, plus the bootstrapper that produces the canonical starter role
//! set for a newly created room.

use vstd::prelude::*;

use crate::permissions::{PermissionName, PermissionState};

verus! {

/// A persisted role row.
///
/// `position` is the precedence key: a lower value resolves first.
/// `message_timeout` is the seconds-delay between messages, where `-1`
/// means "no explicit value, inherit from a lower-precedence role".
#[derive(Debug, PartialEq)]
pub struct Role {
    pub id: i64,
    pub room_id: i64,
    pub name: String,
    pub color: Option<String>,
    pub is_default: bool,
    pub position: i32,

    pub title_update: PermissionState,
    pub path_update: PermissionState,
    pub public_update: PermissionState,
    pub room_delete: PermissionState,
    pub room_view: PermissionState,
    pub audit_log_read: PermissionState,
    pub embed_links: PermissionState,
    pub ping_everyone: PermissionState,

    pub password_create: PermissionState,
    pub password_update: PermissionState,
    pub password_delete: PermissionState,
    pub password_bypass: PermissionState,

    pub emote_create: PermissionState,
    pub emote_update: PermissionState,
    pub emote_delete: PermissionState,
    pub emote_view: PermissionState,

    pub role_create: PermissionState,
    pub role_delete: PermissionState,
    pub role_update: PermissionState,
    pub role_view: PermissionState,

    pub video_create: PermissionState,
    pub video_delete: PermissionState,
    pub video_watch: PermissionState,
    pub video_move: PermissionState,
    pub video_iframe: PermissionState,
    pub video_raw: PermissionState,

    pub player_pause: PermissionState,
    pub player_resume: PermissionState,
    pub player_rewind: PermissionState,

    pub subtitles_file: PermissionState,
    pub subtitles_embed: PermissionState,

    pub message_create: PermissionState,
    pub message_read: PermissionState,
    pub message_history_read: PermissionState,
    pub message_timeout: i32,

    pub user_kick: PermissionState,
    pub user_ban: PermissionState,
    pub user_unban: PermissionState,
    pub user_timeout: PermissionState,

    pub created_at: i64,
}

impl Role {
    /// The tri-state value this role carries for the named flag.
    pub open spec fn flag(self, n: PermissionName) -> PermissionState {
        match n {
            PermissionName::TitleUpdate => self.title_update,
            PermissionName::PathUpdate => self.path_update,
            PermissionName::PublicUpdate => self.public_update,
            PermissionName::RoomDelete => self.room_delete,
            PermissionName::RoomView => self.room_view,
            PermissionName::AuditLogRead => self.audit_log_read,
            PermissionName::EmbedLinks => self.embed_links,
            PermissionName::PingEveryone => self.ping_everyone,
            PermissionName::PasswordCreate => self.password_create,
            PermissionName::PasswordUpdate => self.password_update,
            PermissionName::PasswordDelete => self.password_delete,
            PermissionName::PasswordBypass => self.password_bypass,
            PermissionName::EmoteCreate => self.emote_create,
            PermissionName::EmoteUpdate => self.emote_update,
            PermissionName::EmoteDelete => self.emote_delete,
            PermissionName::EmoteView => self.emote_view,
            PermissionName::RoleCreate => self.role_create,
            PermissionName::RoleDelete => self.role_delete,
            PermissionName::RoleUpdate => self.role_update,
            PermissionName::RoleView => self.role_view,
            PermissionName::VideoCreate => self.video_create,
            PermissionName::VideoDelete => self.video_delete,
            PermissionName::VideoWatch => self.video_watch,
            PermissionName::VideoMove => self.video_move,
            PermissionName::VideoIframe => self.video_iframe,
            PermissionName::VideoRaw => self.video_raw,
            PermissionName::PlayerPause => self.player_pause,
            PermissionName::PlayerResume => self.player_resume,
            PermissionName::PlayerRewind => self.player_rewind,
            PermissionName::SubtitlesFile => self.subtitles_file,
            PermissionName::SubtitlesEmbed => self.subtitles_embed,
            PermissionName::MessageCreate => self.message_create,
            PermissionName::MessageRead => self.message_read,
            PermissionName::MessageHistoryRead => self.message_history_read,
            PermissionName::UserKick => self.user_kick,
            PermissionName::UserBan => self.user_ban,
            PermissionName::UserUnban => self.user_unban,
            PermissionName::UserTimeout => self.user_timeout,
        }
    }

    /// Read one flag of this role.
    #[verifier::rlimit(100)]
    #[verifier::spinoff_prover]
    pub fn get_flag(&self, n: PermissionName) -> (r: PermissionState)
        ensures
            r == self.flag(n),
    {
        let r = match n {
            PermissionName::TitleUpdate => self.title_update,
            PermissionName::PathUpdate => self.path_update,
            PermissionName::PublicUpdate => self.public_update,
            PermissionName::RoomDelete => self.room_delete,
            PermissionName::RoomView => self.room_view,
            PermissionName::AuditLogRead => self.audit_log_read,
            PermissionName::EmbedLinks => self.embed_links,
            PermissionName::PingEveryone => self.ping_everyone,
            PermissionName::PasswordCreate => self.password_create,
            PermissionName::PasswordUpdate => self.password_update,
            PermissionName::PasswordDelete => self.password_delete,
            PermissionName::PasswordBypass => self.password_bypass,
            PermissionName::EmoteCreate => self.emote_create,
            PermissionName::EmoteUpdate => self.emote_update,
            PermissionName::EmoteDelete => self.emote_delete,
            PermissionName::EmoteView => self.emote_view,
            PermissionName::RoleCreate => self.role_create,
            PermissionName::RoleDelete => self.role_delete,
            PermissionName::RoleUpdate => self.role_update,
            PermissionName::RoleView => self.role_view,
            PermissionName::VideoCreate => self.video_create,
            PermissionName::VideoDelete => self.video_delete,
            PermissionName::VideoWatch => self.video_watch,
            PermissionName::VideoMove => self.video_move,
            PermissionName::VideoIframe => self.video_iframe,
            PermissionName::VideoRaw => self.video_raw,
            PermissionName::PlayerPause => self.player_pause,
            PermissionName::PlayerResume => self.player_resume,
            PermissionName::PlayerRewind => self.player_rewind,
            PermissionName::SubtitlesFile => self.subtitles_file,
            PermissionName::SubtitlesEmbed => self.subtitles_embed,
            PermissionName::MessageCreate => self.message_create,
            PermissionName::MessageRead => self.message_read,
            PermissionName::MessageHistoryRead => self.message_history_read,
            PermissionName::UserKick => self.user_kick,
            PermissionName::UserBan => self.user_ban,
            PermissionName::UserUnban => self.user_unban,
            PermissionName::UserTimeout => self.user_timeout,
        };
        proof {
            match n {
                PermissionName::TitleUpdate => assert(r == self.flag(n)),
                PermissionName::PathUpdate => assert(r == self.flag(n)),
                PermissionName::PublicUpdate => assert(r == self.flag(n)),
                PermissionName::RoomDelete => assert(r == self.flag(n)),
                PermissionName::RoomView => assert(r == self.flag(n)),
                PermissionName::AuditLogRead => assert(r == self.flag(n)),
                PermissionName::EmbedLinks => assert(r == self.flag(n)),
                PermissionName::PingEveryone => assert(r == self.flag(n)),
                PermissionName::PasswordCreate => assert(r == self.flag(n)),
                PermissionName::PasswordUpdate => assert(r == self.flag(n)),
                PermissionName::PasswordDelete => assert(r == self.flag(n)),
                PermissionName::PasswordBypass => assert(r == self.flag(n)),
                PermissionName::EmoteCreate => assert(r == self.flag(n)),
                PermissionName::EmoteUpdate => assert(r == self.flag(n)),
                PermissionName::EmoteDelete => assert(r == self.flag(n)),
                PermissionName::EmoteView => assert(r == self.flag(n)),
                PermissionName::RoleCreate => assert(r == self.flag(n)),
                PermissionName::RoleDelete => assert(r == self.flag(n)),
                PermissionName::RoleUpdate => assert(r == self.flag(n)),
                PermissionName::RoleView => assert(r == self.flag(n)),
                PermissionName::VideoCreate => assert(r == self.flag(n)),
                PermissionName::VideoDelete => assert(r == self.flag(n)),
                PermissionName::VideoWatch => assert(r == self.flag(n)),
                PermissionName::VideoMove => assert(r == self.flag(n)),
                PermissionName::VideoIframe => assert(r == self.flag(n)),
                PermissionName::VideoRaw => assert(r == self.flag(n)),
                PermissionName::PlayerPause => assert(r == self.flag(n)),
                PermissionName::PlayerResume => assert(r == self.flag(n)),
                PermissionName::PlayerRewind => assert(r == self.flag(n)),
                PermissionName::SubtitlesFile => assert(r == self.flag(n)),
                PermissionName::SubtitlesEmbed => assert(r == self.flag(n)),
                PermissionName::MessageCreate => assert(r == self.flag(n)),
                PermissionName::MessageRead => assert(r == self.flag(n)),
                PermissionName::MessageHistoryRead => assert(r == self.flag(n)),
                PermissionName::UserKick => assert(r == self.flag(n)),
                PermissionName::UserBan => assert(r == self.flag(n)),
                PermissionName::UserUnban => assert(r == self.flag(n)),
                PermissionName::UserTimeout => assert(r == self.flag(n)),
            }
        }
        r
    }

    /// A stored role is well formed when its timeout is an explicit
    /// non-negative delay or the inherit sentinel `-1`.
    pub open spec fn wf(self) -> bool {
        self.message_timeout >= -1
    }
}

impl Clone for Role {
    fn clone(&self) -> (r: Role)
        ensures
            r == *self,
    {
        Role {
            id: self.id,
            room_id: self.room_id,
            name: self.name.clone(),
            color: match &self.color {
                Some(c) => Some(c.clone()),
                None => None,
            },
            is_default: self.is_default,
            position: self.position,
            title_update: self.title_update,
            path_update: self.path_update,
            public_update: self.public_update,
            room_delete: self.room_delete,
            room_view: self.room_view,
            audit_log_read: self.audit_log_read,
            embed_links: self.embed_links,
            ping_everyone: self.ping_everyone,
            password_create: self.password_create,
            password_update: self.password_update,
            password_delete: self.password_delete,
            password_bypass: self.password_bypass,
            emote_create: self.emote_create,
            emote_update: self.emote_update,
            emote_delete: self.emote_delete,
            emote_view: self.emote_view,
            role_create: self.role_create,
            role_delete: self.role_delete,
            role_update: self.role_update,
            role_view: self.role_view,
            video_create: self.video_create,
            video_delete: self.video_delete,
            video_watch: self.video_watch,
            video_move: self.video_move,
            video_iframe: self.video_iframe,
            video_raw: self.video_raw,
            player_pause: self.player_pause,
            player_resume: self.player_resume,
            player_rewind: self.player_rewind,
            subtitles_file: self.subtitles_file,
            subtitles_embed: self.subtitles_embed,
            message_create: self.message_create,
            message_read: self.message_read,
            message_history_read: self.message_history_read,
            message_timeout: self.message_timeout,
            user_kick: self.user_kick,
            user_ban: self.user_ban,
            user_unban: self.user_unban,
            user_timeout: self.user_timeout,
            created_at: self.created_at,
        }
    }
}

/// A role value that has not been persisted yet: everything a stored
/// role carries except its identity and creation time.
#[derive(Debug, PartialEq)]
pub struct NewRole {
    pub room_id: i64,
    pub name: String,
    pub color: Option<String>,
    pub is_default: bool,
    pub position: i32,

    pub title_update: PermissionState,
    pub path_update: PermissionState,
    pub public_update: PermissionState,
    pub room_delete: PermissionState,
    pub room_view: PermissionState,
    pub audit_log_read: PermissionState,
    pub embed_links: PermissionState,
    pub ping_everyone: PermissionState,

    pub password_create: PermissionState,
    pub password_update: PermissionState,
    pub password_delete: PermissionState,
    pub password_bypass: PermissionState,

    pub emote_create: PermissionState,
    pub emote_update: PermissionState,
    pub emote_delete: PermissionState,
    pub emote_view: PermissionState,

    pub role_create: PermissionState,
    pub role_delete: PermissionState,
    pub role_update: PermissionState,
    pub role_view: PermissionState,

    pub video_create: PermissionState,
    pub video_delete: PermissionState,
    pub video_watch: PermissionState,
    pub video_move: PermissionState,
    pub video_iframe: PermissionState,
    pub video_raw: PermissionState,

    pub player_pause: PermissionState,
    pub player_resume: PermissionState,
    pub player_rewind: PermissionState,

    pub subtitles_file: PermissionState,
    pub subtitles_embed: PermissionState,

    pub message_create: PermissionState,
    pub message_read: PermissionState,
    pub message_history_read: PermissionState,
    pub message_timeout: i32,

    pub user_kick: PermissionState,
    pub user_ban: PermissionState,
    pub user_unban: PermissionState,
    pub user_timeout: PermissionState,
}

impl NewRole {
    /// The tri-state value this role value carries for the named flag.
    pub open spec fn flag(self, n: PermissionName) -> PermissionState {
        match n {
            PermissionName::TitleUpdate => self.title_update,
            PermissionName::PathUpdate => self.path_update,
            PermissionName::PublicUpdate => self.public_update,
            PermissionName::RoomDelete => self.room_delete,
            PermissionName::RoomView => self.room_view,
            PermissionName::AuditLogRead => self.audit_log_read,
            PermissionName::EmbedLinks => self.embed_links,
            PermissionName::PingEveryone => self.ping_everyone,
            PermissionName::PasswordCreate => self.password_create,
            PermissionName::PasswordUpdate => self.password_update,
            PermissionName::PasswordDelete => self.password_delete,
            PermissionName::PasswordBypass => self.password_bypass,
            PermissionName::EmoteCreate => self.emote_create,
            PermissionName::EmoteUpdate => self.emote_update,
            PermissionName::EmoteDelete => self.emote_delete,
            PermissionName::EmoteView => self.emote_view,
            PermissionName::RoleCreate => self.role_create,
            PermissionName::RoleDelete => self.role_delete,
            PermissionName::RoleUpdate => self.role_update,
            PermissionName::RoleView => self.role_view,
            PermissionName::VideoCreate => self.video_create,
            PermissionName::VideoDelete => self.video_delete,
            PermissionName::VideoWatch => self.video_watch,
            PermissionName::VideoMove => self.video_move,
            PermissionName::VideoIframe => self.video_iframe,
            PermissionName::VideoRaw => self.video_raw,
            PermissionName::PlayerPause => self.player_pause,
            PermissionName::PlayerResume => self.player_resume,
            PermissionName::PlayerRewind => self.player_rewind,
            PermissionName::SubtitlesFile => self.subtitles_file,
            PermissionName::SubtitlesEmbed => self.subtitles_embed,
            PermissionName::MessageCreate => self.message_create,
            PermissionName::MessageRead => self.message_read,
            PermissionName::MessageHistoryRead => self.message_history_read,
            PermissionName::UserKick => self.user_kick,
            PermissionName::UserBan => self.user_ban,
            PermissionName::UserUnban => self.user_unban,
            PermissionName::UserTimeout => self.user_timeout,
        }
    }

    /// A role value is well formed when its timeout is an explicit
    /// non-negative delay or the inherit sentinel `-1`. Anything below
    /// `-1` is malformed and is rejected before it reaches storage.
    pub open spec fn wf(self) -> bool {
        self.message_timeout >= -1
    }
}

/// Every tri-state flag of `r` equals `v`.
pub open spec fn all_flags_are(r: NewRole, v: PermissionState) -> bool {
    forall|n: PermissionName| #[trigger] r.flag(n) == v
}

/// The fixed deny-floor baseline of the `Everyone` role: only the
/// non-destructive read/use permissions are allowed; everything
/// administrative, destructive or moderating is explicitly forbidden,
/// never unset.
pub open spec fn everyone_baseline(n: PermissionName) -> PermissionState {
    match n {
        PermissionName::RoomView => PermissionState::Allowed,
        PermissionName::EmoteView => PermissionState::Allowed,
        PermissionName::RoleView => PermissionState::Allowed,
        PermissionName::VideoWatch => PermissionState::Allowed,
        PermissionName::MessageCreate => PermissionState::Allowed,
        PermissionName::MessageRead => PermissionState::Allowed,
        PermissionName::MessageHistoryRead => PermissionState::Allowed,
        _ => PermissionState::Forbidden,
    }
}

/// `Option<String>` carries exactly the given characters.
pub open spec fn color_is(c: Option<String>, s: Seq<char>) -> bool {
    match c {
        Some(x) => x@ == s,
        None => false,
    }
}

/// Shape of the `Owner` bootstrapped role.
pub open spec fn is_owner(r: NewRole, room_id: i64) -> bool {
    &&& r.room_id == room_id
    &&& r.name@ == "Owner"@
    &&& color_is(r.color, "#ff9200"@)
    &&& r.is_default
    &&& r.position == 0
    &&& all_flags_are(r, PermissionState::Allowed)
    &&& r.message_timeout == 0
}

/// Shape of the `Administrator` bootstrapped role: identical to `Owner`
/// except that it cannot delete the room.
pub open spec fn is_administrator(r: NewRole, room_id: i64) -> bool {
    &&& r.room_id == room_id
    &&& r.name@ == "Administrator"@
    &&& color_is(r.color, "#44bd82"@)
    &&& r.is_default
    &&& r.position == 1
    &&& r.flag(PermissionName::RoomDelete) == PermissionState::Unset
    &&& forall|n: PermissionName|
        n != PermissionName::RoomDelete ==> #[trigger] r.flag(n) == PermissionState::Allowed
    &&& r.message_timeout == 0
}

/// Shape of the `Stranger` bootstrapped role (an authenticated
/// non-member): almost everything is inherited.
pub open spec fn is_stranger(r: NewRole, room_id: i64) -> bool {
    &&& r.room_id == room_id
    &&& r.name@ == "Stranger"@
    &&& color_is(r.color, "#d8d8d8"@)
    &&& r.is_default
    &&& r.position == 1001
    &&& r.flag(PermissionName::PingEveryone) == PermissionState::Allowed
    &&& r.flag(PermissionName::VideoCreate) == PermissionState::Allowed
    &&& forall|n: PermissionName|
        n != PermissionName::PingEveryone && n != PermissionName::VideoCreate
            ==> #[trigger] r.flag(n) == PermissionState::Unset
    &&& r.message_timeout == 0
}

/// Shape of the `Anonymous` bootstrapped role (an unauthenticated
/// caller): everything is inherited.
pub open spec fn is_anonymous(r: NewRole, room_id: i64) -> bool {
    &&& r.room_id == room_id
    &&& r.name@ == "Anonymous"@
    &&& color_is(r.color, "#575757"@)
    &&& r.is_default
    &&& r.position == 1002
    &&& all_flags_are(r, PermissionState::Unset)
    &&& r.message_timeout == -1
}

/// Shape of the `Everyone` bootstrapped role: the deny-floor at the
/// lowest precedence.
pub open spec fn is_everyone(r: NewRole, room_id: i64) -> bool {
    &&& r.room_id == room_id
    &&& r.name@ == "Everyone"@
    &&& color_is(r.color, "#8e8e8e"@)
    &&& r.is_default
    &&& r.position == 1003
    &&& forall|n: PermissionName| #[trigger] r.flag(n) == everyone_baseline(n)
    &&& r.message_timeout == 1
}

/// The five bootstrapped roles, in ascending position order.
pub open spec fn is_bootstrap_set(rs: Seq<NewRole>, room_id: i64) -> bool {
    &&& rs.len() == 5
    &&& is_owner(rs[0], room_id)
    &&& is_administrator(rs[1], room_id)
    &&& is_stranger(rs[2], room_id)
    &&& is_anonymous(rs[3], room_id)
    &&& is_everyone(rs[4], room_id)
}

impl Default for NewRole {
    /// The neutral role value: every flag unset, timeout inherited.
    /// `room_id` and `name` are placeholders and should always be
    /// overridden by the caller.
    fn default() -> (r: NewRole)
        ensures
            r.room_id == 0,
            r.name@ == ""@,
            r.color is None,
            !r.is_default,
            r.position == 999,
            all_flags_are(r, PermissionState::Unset),
            r.message_timeout == -1,
    {
        NewRole {
            room_id: 0,
            name: "".to_owned(),
            color: None,
            is_default: false,
            position: 999,

            title_update: PermissionState::Unset,
            path_update: PermissionState::Unset,
            public_update: PermissionState::Unset,
            room_delete: PermissionState::Unset,
            room_view: PermissionState::Unset,
            audit_log_read: PermissionState::Unset,
            embed_links: PermissionState::Unset,
            ping_everyone: PermissionState::Unset,

            password_create: PermissionState::Unset,
            password_update: PermissionState::Unset,
            password_delete: PermissionState::Unset,
            password_bypass: PermissionState::Unset,

            emote_create: PermissionState::Unset,
            emote_update: PermissionState::Unset,
            emote_delete: PermissionState::Unset,
            emote_view: PermissionState::Unset,

            role_create: PermissionState::Unset,
            role_delete: PermissionState::Unset,
            role_update: PermissionState::Unset,
            role_view: PermissionState::Unset,

            video_create: PermissionState::Unset,
            video_delete: PermissionState::Unset,
            video_watch: PermissionState::Unset,
            video_move: PermissionState::Unset,
            video_iframe: PermissionState::Unset,
            video_raw: PermissionState::Unset,

            player_pause: PermissionState::Unset,
            player_resume: PermissionState::Unset,
            player_rewind: PermissionState::Unset,

            subtitles_file: PermissionState::Unset,
            subtitles_embed: PermissionState::Unset,

            message_create: PermissionState::Unset,
            message_read: PermissionState::Unset,
            message_history_read: PermissionState::Unset,
            message_timeout: -1,

            user_kick: PermissionState::Unset,
            user_ban: PermissionState::Unset,
            user_unban: PermissionState::Unset,
            user_timeout: PermissionState::Unset,
        }
    }
}

impl NewRole {
    /// The `Owner` role: every flag allowed, no message delay.
    pub fn owner(room_id: i64) -> (r: NewRole)
        ensures
            is_owner(r, room_id),
    {
        NewRole {
            room_id,
            name: "Owner".to_owned(),
            color: Some("#ff9200".to_owned()),
            is_default: true,
            position: 0,

            title_update: PermissionState::Allowed,
            path_update: PermissionState::Allowed,
            public_update: PermissionState::Allowed,
            room_delete: PermissionState::Allowed,
            room_view: PermissionState::Allowed,
            audit_log_read: PermissionState::Allowed,
            embed_links: PermissionState::Allowed,
            ping_everyone: PermissionState::Allowed,

            password_create: PermissionState::Allowed,
            password_update: PermissionState::Allowed,
            password_delete: PermissionState::Allowed,
            password_bypass: PermissionState::Allowed,

            emote_create: PermissionState::Allowed,
            emote_update: PermissionState::Allowed,
            emote_delete: PermissionState::Allowed,
            emote_view: PermissionState::Allowed,

            role_create: PermissionState::Allowed,
            role_delete: PermissionState::Allowed,
            role_update: PermissionState::Allowed,
            role_view: PermissionState::Allowed,

            video_create: PermissionState::Allowed,
            video_delete: PermissionState::Allowed,
            video_watch: PermissionState::Allowed,
            video_move: PermissionState::Allowed,
            video_iframe: PermissionState::Allowed,
            video_raw: PermissionState::Allowed,

            player_pause: PermissionState::Allowed,
            player_resume: PermissionState::Allowed,
            player_rewind: PermissionState::Allowed,

            subtitles_file: PermissionState::Allowed,
            subtitles_embed: PermissionState::Allowed,

            message_create: PermissionState::Allowed,
            message_read: PermissionState::Allowed,
            message_history_read: PermissionState::Allowed,
            message_timeout: 0,

            user_kick: PermissionState::Allowed,
            user_ban: PermissionState::Allowed,
            user_unban: PermissionState::Allowed,
            user_timeout: PermissionState::Allowed,
        }
    }

    /// The `Administrator` role: just like `Owner`, but it cannot
    /// delete the room. The constructor keeps its historical spelling,
    /// which callers depend on.
    pub fn administator(room_id: i64) -> (r: NewRole)
        ensures
            is_administrator(r, room_id),
    {
        let mut r = NewRole::owner(room_id);
        let ghost base = r;
        r.name = "Administrator".to_owned();
        r.color = Some("#44bd82".to_owned());
        r.position = 1;
        r.room_delete = PermissionState::Unset;
        proof {
            assert forall|n: PermissionName|
                n != PermissionName::RoomDelete implies #[trigger] r.flag(n)
                == PermissionState::Allowed by {
                assert(base.flag(n) == PermissionState::Allowed);
            }
        }
        r
    }

    /// The `Stranger` role: someone who is authenticated but holds no
    /// explicit role; most flags are inherited.
    pub fn stranger(room_id: i64) -> (r: NewRole)
        ensures
            is_stranger(r, room_id),
    {
        let mut r = NewRole::default();
        let ghost base = r;
        r.room_id = room_id;
        r.name = "Stranger".to_owned();
        r.color = Some("#d8d8d8".to_owned());
        r.is_default = true;
        r.position = 1001;
        r.ping_everyone = PermissionState::Allowed;
        r.video_create = PermissionState::Allowed;
        r.message_timeout = 0;
        proof {
            assert forall|n: PermissionName|
                n != PermissionName::PingEveryone && n != PermissionName::VideoCreate
                    implies #[trigger] r.flag(n) == PermissionState::Unset by {
                assert(base.flag(n) == PermissionState::Unset);
            }
        }
        r
    }

    /// The `Anonymous` role: someone who is not authenticated; every
    /// flag is inherited.
    pub fn anonymous(room_id: i64) -> (r: NewRole)
        ensures
            is_anonymous(r, room_id),
    {
        let mut r = NewRole::default();
        let ghost base = r;
        r.room_id = room_id;
        r.name = "Anonymous".to_owned();
        r.color = Some("#575757".to_owned());
        r.is_default = true;
        r.position = 1002;
        proof {
            assert forall|n: PermissionName| #[trigger] r.flag(n) == PermissionState::Unset by {
                assert(base.flag(n) == PermissionState::Unset);
            }
        }
        r
    }

    /// The `Everyone` role: the deny-floor. Sensitive flags are
    /// explicitly `Forbidden` rather than `Unset`, so that absent any
    /// other applicable role, resolution converges to an explicit deny.
    pub fn everyone(room_id: i64) -> (r: NewRole)
        ensures
            is_everyone(r, room_id),
    {
        NewRole {
            room_id,
            name: "Everyone".to_owned(),
            color: Some("#8e8e8e".to_owned()),
            is_default: true,
            position: 1003,

            title_update: PermissionState::Forbidden,
            path_update: PermissionState::Forbidden,
            public_update: PermissionState::Forbidden,
            room_delete: PermissionState::Forbidden,
            room_view: PermissionState::Allowed,
            audit_log_read: PermissionState::Forbidden,
            embed_links: PermissionState::Forbidden,
            ping_everyone: PermissionState::Forbidden,

            password_create: PermissionState::Forbidden,
            password_update: PermissionState::Forbidden,
            password_delete: PermissionState::Forbidden,
            password_bypass: PermissionState::Forbidden,

            emote_create: PermissionState::Forbidden,
            emote_update: PermissionState::Forbidden,
            emote_delete: PermissionState::Forbidden,
            emote_view: PermissionState::Allowed,

            role_create: PermissionState::Forbidden,
            role_delete: PermissionState::Forbidden,
            role_update: PermissionState::Forbidden,
            role_view: PermissionState::Allowed,

            video_create: PermissionState::Forbidden,
            video_delete: PermissionState::Forbidden,
            video_watch: PermissionState::Allowed,
            video_move: PermissionState::Forbidden,
            video_iframe: PermissionState::Forbidden,
            video_raw: PermissionState::Forbidden,

            player_pause: PermissionState::Forbidden,
            player_resume: PermissionState::Forbidden,
            player_rewind: PermissionState::Forbidden,

            subtitles_file: PermissionState::Forbidden,
            subtitles_embed: PermissionState::Forbidden,

            message_create: PermissionState::Allowed,
            message_read: PermissionState::Allowed,
            message_history_read: PermissionState::Allowed,
            message_timeout: 1,

            user_kick: PermissionState::Forbidden,
            user_ban: PermissionState::Forbidden,
            user_unban: PermissionState::Forbidden,
            user_timeout: PermissionState::Forbidden,
        }
    }
}

/// Produce the canonical starter role set for a newly created room:
/// Owner, Administrator, Stranger, Anonymous and Everyone, in ascending
/// position order, not yet persisted.
pub fn bootstrap_default_roles(room_id: i64) -> (r: Vec<NewRole>)
    ensures
        is_bootstrap_set(r@, room_id),
{
    let mut v: Vec<NewRole> = Vec::new();
    v.push(NewRole::owner(room_id));
    v.push(NewRole::administator(room_id));
    v.push(NewRole::stranger(room_id));
    v.push(NewRole::anonymous(room_id));
    v.push(NewRole::everyone(room_id));
    v
}

/// Field-by-field agreement of two unsaved role values.
pub open spec fn new_roles_agree(a: NewRole, b: NewRole) -> bool {
    &&& a.room_id == b.room_id
    &&& a.name@ == b.name@
    &&& (match (a.color, b.color) {
        (Some(x), Some(y)) => x@ == y@,
        (None, None) => true,
        _ => false,
    })
    &&& a.is_default == b.is_default
    &&& a.position == b.position
    &&& forall|n: PermissionName| #[trigger] a.flag(n) == b.flag(n)
    &&& a.message_timeout == b.message_timeout
}

/// Bootstrapping is deterministic: any two role sets of the
/// bootstrapped shape for the same room agree in every field.
pub proof fn lemma_bootstrap_deterministic(room_id: i64, a: Seq<NewRole>, b: Seq<NewRole>)
    requires
        is_bootstrap_set(a, room_id),
        is_bootstrap_set(b, room_id),
    ensures
        a.len() == b.len(),
        forall|i: int| 0 <= i < a.len() ==> #[trigger] new_roles_agree(a[i], b[i]),
{
    assert forall|i: int| 0 <= i < a.len() implies #[trigger] new_roles_agree(a[i], b[i]) by {
        if i == 0 {
            assert(all_flags_are(a[0], PermissionState::Allowed));
            assert(forall|n: PermissionName| #[trigger] a[0].flag(n) == b[0].flag(n));
        } else if i == 1 {
            assert forall|n: PermissionName| #[trigger] a[1].flag(n) == b[1].flag(n) by {
                if n != PermissionName::RoomDelete {
                    assert(a[1].flag(n) == PermissionState::Allowed);
                }
            }
        } else if i == 2 {
            assert forall|n: PermissionName| #[trigger] a[2].flag(n) == b[2].flag(n) by {
                if n != PermissionName::PingEveryone && n != PermissionName::VideoCreate {
                    assert(a[2].flag(n) == PermissionState::Unset);
                }
            }
        } else if i == 3 {
            assert(forall|n: PermissionName| #[trigger] a[3].flag(n) == b[3].flag(n));
        } else {
            assert(forall|n: PermissionName| #[trigger] a[4].flag(n) == b[4].flag(n));
        }
    }
}

/// A persisted link between one user and one role.
#[derive(Debug, PartialEq)]
pub struct UserRole {
    pub id: i64,
    pub role_id: i64,
    pub user_id: i64,
    pub created_at: i64,
}

impl Clone for UserRole {
    fn clone(&self) -> (r: UserRole)
        ensures
            r == *self,
    {
        UserRole { id: self.id, role_id: self.role_id, user_id: self.user_id, created_at: self.created_at }
    }
}

/// An unsaved user-role link.
#[derive(Debug, PartialEq)]
pub struct NewUserRole {
    pub role_id: i64,
    pub user_id: i64,
}

impl Role {
    /// Look a role up by identifier.
    pub fn by_id(role_id: i64, store: &crate::store::Store) -> (r: Result<
        Role,
        crate::store::DbError,
    >)
        ensures
            r is Ok <==> store.role_exists(role_id),
            match r {
                Ok(role) => role.id == role_id && exists|i: int|
                    0 <= i < store.roles@.len() && #[trigger] store.roles@[i] == role,
                Err(e) => e == crate::store::DbError::NotFound,
            },
    {
        let n = store.roles.len();
        let mut i: usize = 0;
        while i < n
            invariant
                i <= n,
                n == store.roles@.len(),
                forall|j: int| 0 <= j < i ==> #[trigger] store.roles@[j].id != role_id,
            decreases n - i,
        {
            if store.roles[i].id == role_id {
                return Ok(store.roles[i].clone());
            }
            i = i + 1;
        }
        Err(crate::store::DbError::NotFound)
    }

    /// The first role of a room in table order; the name is kept from
    /// the storage layer, which pages one row at a time here.
    pub fn list_by_room_id(room_id_query: i64, store: &crate::store::Store) -> (r: Result<
        Role,
        crate::store::DbError,
    >)
        ensures
            r is Ok <==> exists|i: int|
                0 <= i < store.roles@.len() && #[trigger] store.roles@[i].room_id
                    == room_id_query,
            match r {
                Ok(role) => exists|i: int|
                    {
                        &&& 0 <= i < store.roles@.len()
                        &&& #[trigger] store.roles@[i] == role
                        &&& role.room_id == room_id_query
                        &&& forall|j: int| 0 <= j < i ==> store.roles@[j].room_id != room_id_query
                    },
                Err(e) => e == crate::store::DbError::NotFound,
            },
    {
        let n = store.roles.len();
        let mut i: usize = 0;
        while i < n
            invariant
                i <= n,
                n == store.roles@.len(),
                forall|j: int| 0 <= j < i ==> #[trigger] store.roles@[j].room_id != room_id_query,
            decreases n - i,
        {
            if store.roles[i].room_id == room_id_query {
                return Ok(store.roles[i].clone());
            }
            i = i + 1;
        }
        Err(crate::store::DbError::NotFound)
    }
}

/// Appending one role row with a fresh integer identifier preserves the
/// store invariant.
proof fn lemma_push_role_wf(prev: crate::store::Store, post: crate::store::Store)
    requires
        prev.wf(),
        prev.next_int_id < i64::MAX,
        post.next_int_id == prev.next_int_id + 1,
        post.next_id == prev.next_id,
        post.roles@ == prev.roles@.push(post.roles@.last()),
        post.roles@.last().id == prev.next_int_id,
        post.channels == prev.channels,
        post.room_channels == prev.room_channels,
        post.dm_channels == prev.dm_channels,
        post.dm_channel_users == prev.dm_channel_users,
        post.messages == prev.messages,
        post.message_mentions == prev.message_mentions,
        post.users == prev.users,
        post.user_roles == prev.user_roles,
    ensures
        post.wf(),
{
    assert(crate::store::role_ids(post.roles@) =~= crate::store::role_ids(prev.roles@).push(
        prev.next_int_id,
    ));
    assert(crate::store::user_role_ids(post.user_roles@) == crate::store::user_role_ids(
        prev.user_roles@,
    ));
    crate::store::lemma_subtypes_complete_preserved(prev, post);
}

/// Appending one user-role row with a fresh integer identifier
/// preserves the store invariant.
proof fn lemma_push_user_role_wf(prev: crate::store::Store, post: crate::store::Store)
    requires
        prev.wf(),
        prev.next_int_id < i64::MAX,
        post.next_int_id == prev.next_int_id + 1,
        post.next_id == prev.next_id,
        post.user_roles@ == prev.user_roles@.push(post.user_roles@.last()),
        post.user_roles@.last().id == prev.next_int_id,
        post.channels == prev.channels,
        post.room_channels == prev.room_channels,
        post.dm_channels == prev.dm_channels,
        post.dm_channel_users == prev.dm_channel_users,
        post.messages == prev.messages,
        post.message_mentions == prev.message_mentions,
        post.users == prev.users,
        post.roles == prev.roles,
    ensures
        post.wf(),
{
    assert(crate::store::user_role_ids(post.user_roles@) =~= crate::store::user_role_ids(
        prev.user_roles@,
    ).push(prev.next_int_id));
    assert(crate::store::role_ids(post.roles@) == crate::store::role_ids(prev.roles@));
    crate::store::lemma_subtypes_complete_preserved(prev, post);
}

impl NewRole {
    /// Persist the role value. A malformed role — a timeout below the
    /// inherit sentinel — is rejected at construction time and never
    /// reaches storage or resolution.
    pub fn create(&self, store: &mut crate::store::Store) -> (r: Result<
        Role,
        crate::store::DbError,
    >)
        requires
            old(store).wf(),
            old(store).has_capacity(1),
        ensures
            final(store).wf(),
            r is Ok <==> self.wf(),
            match r {
                Ok(role) => {
                    &&& final(store).roles@ == old(store).roles@.push(role)
                    &&& !old(store).role_exists(role.id)
                    &&& role.room_id == self.room_id
                    &&& role.name@ == self.name@
                    &&& (match (role.color, self.color) {
                        (Some(a), Some(b)) => a@ == b@,
                        (None, None) => true,
                        _ => false,
                    })
                    &&& role.is_default == self.is_default
                    &&& role.position == self.position
                    &&& (forall|n: crate::permissions::PermissionName|
                        #[trigger] role.flag(n) == self.flag(n))
                    &&& role.message_timeout == self.message_timeout
                    &&& role.created_at == old(store).clock
                },
                Err(e) => e == crate::store::DbError::MalformedRole && *final(store) == *old(
                    store,
                ),
            },
            final(store).channels == old(store).channels,
            final(store).room_channels == old(store).room_channels,
            final(store).dm_channels == old(store).dm_channels,
            final(store).dm_channel_users == old(store).dm_channel_users,
            final(store).messages == old(store).messages,
            final(store).message_mentions == old(store).message_mentions,
            final(store).users == old(store).users,
            final(store).user_roles == old(store).user_roles,
            final(store).clock == old(store).clock,
            final(store).next_id == old(store).next_id,
            final(store).next_int_id <= old(store).next_int_id + 1,
    {
        if self.message_timeout < -1 {
            return Err(crate::store::DbError::MalformedRole);
        }
        let ghost prev = *store;
        let rid = store.fresh_int_id();
        let role = Role {
            id: rid,
            room_id: self.room_id,
            name: self.name.clone(),
            color: match &self.color {
                Some(c) => Some(c.clone()),
                None => None,
            },
            is_default: self.is_default,
            position: self.position,
            title_update: self.title_update,
            path_update: self.path_update,
            public_update: self.public_update,
            room_delete: self.room_delete,
            room_view: self.room_view,
            audit_log_read: self.audit_log_read,
            embed_links: self.embed_links,
            ping_everyone: self.ping_everyone,
            password_create: self.password_create,
            password_update: self.password_update,
            password_delete: self.password_delete,
            password_bypass: self.password_bypass,
            emote_create: self.emote_create,
            emote_update: self.emote_update,
            emote_delete: self.emote_delete,
            emote_view: self.emote_view,
            role_create: self.role_create,
            role_delete: self.role_delete,
            role_update: self.role_update,
            role_view: self.role_view,
            video_create: self.video_create,
            video_delete: self.video_delete,
            video_watch: self.video_watch,
            video_move: self.video_move,
            video_iframe: self.video_iframe,
            video_raw: self.video_raw,
            player_pause: self.player_pause,
            player_resume: self.player_resume,
            player_rewind: self.player_rewind,
            subtitles_file: self.subtitles_file,
            subtitles_embed: self.subtitles_embed,
            message_create: self.message_create,
            message_read: self.message_read,
            message_history_read: self.message_history_read,
            message_timeout: self.message_timeout,
            user_kick: self.user_kick,
            user_ban: self.user_ban,
            user_unban: self.user_unban,
            user_timeout: self.user_timeout,
            created_at: store.clock,
        };
        let result = role.clone();
        store.roles.push(role);
        proof {
            lemma_push_role_wf(prev, *store);
            assert(crate::store::role_ids(prev.roles@).len() == prev.roles@.len());
            assert forall|k: int| 0 <= k < prev.roles@.len() implies #[trigger] prev.roles@[k].id
                != prev.next_int_id by {
                assert(crate::store::role_ids(prev.roles@)[k] == prev.roles@[k].id);
            }
        }
        Ok(result)
    }
}

impl UserRole {
    /// Look a user-role link up by identifier.
    pub fn by_id(user_role_id: i64, store: &crate::store::Store) -> (r: Result<
        UserRole,
        crate::store::DbError,
    >)
        ensures
            r is Ok <==> exists|i: int|
                0 <= i < store.user_roles@.len() && #[trigger] store.user_roles@[i].id
                    == user_role_id,
            match r {
                Ok(ur) => ur.id == user_role_id && exists|i: int|
                    0 <= i < store.user_roles@.len() && #[trigger] store.user_roles@[i] == ur,
                Err(e) => e == crate::store::DbError::NotFound,
            },
    {
        let n = store.user_roles.len();
        let mut i: usize = 0;
        while i < n
            invariant
                i <= n,
                n == store.user_roles@.len(),
                forall|j: int| 0 <= j < i ==> #[trigger] store.user_roles@[j].id != user_role_id,
            decreases n - i,
        {
            if store.user_roles[i].id == user_role_id {
                return Ok(store.user_roles[i].clone());
            }
            i = i + 1;
        }
        Err(crate::store::DbError::NotFound)
    }
}

impl NewUserRole {
    /// Link a user to a role. Fails, leaving the store untouched,
    /// exactly when the role does not exist.
    pub fn create(&self, store: &mut crate::store::Store) -> (r: Result<
        UserRole,
        crate::store::DbError,
    >)
        requires
            old(store).wf(),
            old(store).has_capacity(1),
        ensures
            final(store).wf(),
            r is Ok <==> old(store).role_exists(self.role_id),
            match r {
                Ok(ur) => {
                    &&& final(store).user_roles@ == old(store).user_roles@.push(ur)
                    &&& ur.role_id == self.role_id
                    &&& ur.user_id == self.user_id
                    &&& ur.created_at == old(store).clock
                },
                Err(e) => e == crate::store::DbError::ConstraintViolation && *final(store)
                    == *old(store),
            },
            final(store).channels == old(store).channels,
            final(store).room_channels == old(store).room_channels,
            final(store).dm_channels == old(store).dm_channels,
            final(store).dm_channel_users == old(store).dm_channel_users,
            final(store).messages == old(store).messages,
            final(store).message_mentions == old(store).message_mentions,
            final(store).users == old(store).users,
            final(store).roles == old(store).roles,
            final(store).clock == old(store).clock,
            final(store).next_id == old(store).next_id,
            final(store).next_int_id <= old(store).next_int_id + 1,
    {
        let n = store.roles.len();
        let mut i: usize = 0;
        let mut found = false;
        while i < n
            invariant
                i <= n,
                n == store.roles@.len(),
                *store == *old(store),
                store.wf(),
                found ==> old(store).role_exists(self.role_id),
                !found ==> forall|j: int|
                    0 <= j < i ==> #[trigger] store.roles@[j].id != self.role_id,
            decreases n - i,
        {
            if store.roles[i].id == self.role_id {
                found = true;
            }
            i = i + 1;
        }
        if !found {
            return Err(crate::store::DbError::ConstraintViolation);
        }
        let ghost prev = *store;
        let urid = store.fresh_int_id();
        let ur = UserRole {
            id: urid,
            role_id: self.role_id,
            user_id: self.user_id,
            created_at: store.clock,
        };
        let result = ur.clone();
        store.user_roles.push(ur);
        proof {
            lemma_push_user_role_wf(prev, *store);
        }
        Ok(result)
    }
}

impl Role {
    /// Remove this role's own row; the count of removed rows is
    /// returned, zero when no row carries this identifier.
    pub fn delete(&self, store: &mut crate::store::Store) -> (r: Result<
        usize,
        crate::store::DbError,
    >)
        requires
            old(store).wf(),
        ensures
            final(store).wf(),
            match r {
                Ok(count) => {
                    if old(store).role_exists(self.id) {
                        count == 1 && exists|i: int|
                            {
                                &&& 0 <= i < old(store).roles@.len()
                                &&& old(store).roles@[i].id == self.id
                                &&& final(store).roles@ == old(store).roles@.remove(i)
                            }
                    } else {
                        count == 0 && *final(store) == *old(store)
                    }
                },
                Err(_) => false,
            },
            final(store).channels == old(store).channels,
            final(store).room_channels == old(store).room_channels,
            final(store).dm_channels == old(store).dm_channels,
            final(store).dm_channel_users == old(store).dm_channel_users,
            final(store).messages == old(store).messages,
            final(store).message_mentions == old(store).message_mentions,
            final(store).users == old(store).users,
            final(store).user_roles == old(store).user_roles,
            final(store).clock == old(store).clock,
            final(store).next_id == old(store).next_id,
            final(store).next_int_id == old(store).next_int_id,
    {
        let ghost entry = *store;
        let n = store.roles.len();
        let mut i: usize = 0;
        while i < n
            invariant
                i <= n,
                n == store.roles@.len(),
                *store == *old(store),
                *store == entry,
                entry.wf(),
                forall|j: int| 0 <= j < i ==> #[trigger] store.roles@[j].id != self.id,
            decreases n - i,
        {
            if store.roles[i].id == self.id {
                store.roles.remove(i);
                proof {
                    assert(crate::store::role_ids(store.roles@) =~= crate::store::role_ids(
                        entry.roles@,
                    ).remove(i as int));
                    crate::store::lemma_int_ids_ok_remove(
                        crate::store::role_ids(entry.roles@),
                        entry.next_int_id,
                        i as int,
                    );
                    crate::store::lemma_subtypes_complete_preserved(entry, *store);
                }
                return Ok(1);
            }
            i = i + 1;
        }
        Ok(0)
    }
}

impl UserRole {
    /// Remove this link's own row; the count of removed rows is
    /// returned, zero when no row carries this identifier.
    pub fn delete(&self, store: &mut crate::store::Store) -> (r: Result<
        usize,
        crate::store::DbError,
    >)
        requires
            old(store).wf(),
        ensures
            final(store).wf(),
            match r {
                Ok(count) => {
                    if exists|i: int|
                        0 <= i < old(store).user_roles@.len()
                            && #[trigger] old(store).user_roles@[i].id == self.id {
                        count == 1 && exists|i: int|
                            {
                                &&& 0 <= i < old(store).user_roles@.len()
                                &&& old(store).user_roles@[i].id == self.id
                                &&& final(store).user_roles@ == old(store).user_roles@.remove(i)
                            }
                    } else {
                        count == 0 && *final(store) == *old(store)
                    }
                },
                Err(_) => false,
            },
            final(store).channels == old(store).channels,
            final(store).room_channels == old(store).room_channels,
            final(store).dm_channels == old(store).dm_channels,
            final(store).dm_channel_users == old(store).dm_channel_users,
            final(store).messages == old(store).messages,
            final(store).message_mentions == old(store).message_mentions,
            final(store).users == old(store).users,
            final(store).roles == old(store).roles,
            final(store).clock == old(store).clock,
            final(store).next_id == old(store).next_id,
            final(store).next_int_id == old(store).next_int_id,
    {
        let ghost entry = *store;
        let n = store.user_roles.len();
        let mut i: usize = 0;
        while i < n
            invariant
                i <= n,
                n == store.user_roles@.len(),
                *store == *old(store),
                *store == entry,
                entry.wf(),
                forall|j: int| 0 <= j < i ==> #[trigger] store.user_roles@[j].id != self.id,
            decreases n - i,
        {
            if store.user_roles[i].id == self.id {
                store.user_roles.remove(i);
                proof {
                    assert(crate::store::user_role_ids(store.user_roles@)
                        =~= crate::store::user_role_ids(entry.user_roles@).remove(i as int));
                    crate::store::lemma_int_ids_ok_remove(
                        crate::store::user_role_ids(entry.user_roles@),
                        entry.next_int_id,
                        i as int,
                    );
                    crate::store::lemma_subtypes_complete_preserved(entry, *store);
                }
                return Ok(1);
            }
            i = i + 1;
        }
        Ok(0)
    }
}

impl Role {
    /// Replace the role row carrying this value's identifier with this
    /// value: the identifier is the filter, everything else is written.
    /// A malformed timeout is rejected before anything is written.
    pub fn update(&self, store: &mut crate::store::Store) -> (r: Result<
        Role,
        crate::store::DbError,
    >)
        requires
            old(store).wf(),
        ensures
            final(store).wf(),
            r is Ok <==> (old(store).role_exists(self.id) && self.wf()),
            match r {
                Ok(role) => role == *self && exists|i: int|
                    {
                        &&& 0 <= i < old(store).roles@.len()
                        &&& old(store).roles@[i].id == self.id
                        &&& final(store).roles@ == old(store).roles@.update(i, *self)
                    },
                Err(e) => *final(store) == *old(store) && match e {
                    crate::store::DbError::NotFound => !old(store).role_exists(self.id),
                    crate::store::DbError::MalformedRole => old(store).role_exists(self.id)
                        && !self.wf(),
                    _ => false,
                },
            },
            final(store).channels == old(store).channels,
            final(store).room_channels == old(store).room_channels,
            final(store).dm_channels == old(store).dm_channels,
            final(store).dm_channel_users == old(store).dm_channel_users,
            final(store).messages == old(store).messages,
            final(store).message_mentions == old(store).message_mentions,
            final(store).users == old(store).users,
            final(store).user_roles == old(store).user_roles,
            final(store).clock == old(store).clock,
            final(store).next_id == old(store).next_id,
            final(store).next_int_id == old(store).next_int_id,
    {
        let ghost entry = *store;
        let n = store.roles.len();
        let mut i: usize = 0;
        while i < n
            invariant
                i <= n,
                n == store.roles@.len(),
                *store == *old(store),
                *store == entry,
                entry.wf(),
                forall|j: int| 0 <= j < i ==> #[trigger] store.roles@[j].id != self.id,
            decreases n - i,
        {
            if store.roles[i].id == self.id {
                if self.message_timeout < -1 {
                    return Err(crate::store::DbError::MalformedRole);
                }
                let row = self.clone();
                let result = self.clone();
                store.roles.remove(i);
                store.roles.insert(i, row);
                proof {
                    assert(store.roles@ =~= entry.roles@.update(i as int, *self));
                    assert(crate::store::role_ids(store.roles@) =~= crate::store::role_ids(
                        entry.roles@,
                    ));
                    crate::store::lemma_subtypes_complete_preserved(entry, *store);
                }
                return Ok(result);
            }
            i = i + 1;
        }
        Err(crate::store::DbError::NotFound)
    }
}

impl UserRole {
    /// Replace the link row carrying this value's identifier with this
    /// value; the role it points at must exist.
    pub fn update(&self, store: &mut crate::store::Store) -> (r: Result<
        UserRole,
        crate::store::DbError,
    >)
        requires
            old(store).wf(),
        ensures
            final(store).wf(),
            r is Ok <==> ((exists|i: int|
                0 <= i < old(store).user_roles@.len() && #[trigger] old(store).user_roles@[i].id
                    == self.id) && old(store).role_exists(self.role_id)),
            match r {
                Ok(ur) => ur == *self && exists|i: int|
                    {
                        &&& 0 <= i < old(store).user_roles@.len()
                        &&& old(store).user_roles@[i].id == self.id
                        &&& final(store).user_roles@ == old(store).user_roles@.update(i, *self)
                    },
                Err(e) => *final(store) == *old(store) && match e {
                    crate::store::DbError::NotFound => !(exists|i: int|
                        0 <= i < old(store).user_roles@.len()
                            && #[trigger] old(store).user_roles@[i].id == self.id),
                    crate::store::DbError::ConstraintViolation => (exists|i: int|
                        0 <= i < old(store).user_roles@.len()
                            && #[trigger] old(store).user_roles@[i].id == self.id)
                        && !old(store).role_exists(self.role_id),
                    _ => false,
                },
            },
            final(store).channels == old(store).channels,
            final(store).room_channels == old(store).room_channels,
            final(store).dm_channels == old(store).dm_channels,
            final(store).dm_channel_users == old(store).dm_channel_users,
            final(store).messages == old(store).messages,
            final(store).message_mentions == old(store).message_mentions,
            final(store).users == old(store).users,
            final(store).roles == old(store).roles,
            final(store).clock == old(store).clock,
            final(store).next_id == old(store).next_id,
            final(store).next_int_id == old(store).next_int_id,
    {
        let ghost entry = *store;
        let n = store.user_roles.len();
        let mut i: usize = 0;
        while i < n
            invariant
                i <= n,
                n == store.user_roles@.len(),
                *store == *old(store),
                *store == entry,
                entry.wf(),
                forall|j: int| 0 <= j < i ==> #[trigger] store.user_roles@[j].id != self.id,
            decreases n - i,
        {
            if store.user_roles[i].id == self.id {
                // the foreign key the schema keeps on the link
                let m = store.roles.len();
                let mut k: usize = 0;
                let mut found = false;
                while k < m
                    invariant
                        k <= m,
                        m == store.roles@.len(),
                        *store == *old(store),
                        *store == entry,
                        entry.wf(),
                        found ==> old(store).role_exists(self.role_id),
                        !found ==> forall|j: int|
                            0 <= j < k ==> #[trigger] store.roles@[j].id != self.role_id,
                    decreases m - k,
                {
                    if store.roles[k].id == self.role_id {
                        found = true;
                    }
                    k = k + 1;
                }
                if !found {
                    return Err(crate::store::DbError::ConstraintViolation);
                }
                let row = self.clone();
                let result = self.clone();
                store.user_roles.remove(i);
                store.user_roles.insert(i, row);
                proof {
                    assert(store.user_roles@ =~= entry.user_roles@.update(i as int, *self));
                    assert(crate::store::user_role_ids(store.user_roles@)
                        =~= crate::store::user_role_ids(entry.user_roles@));
                    crate::store::lemma_subtypes_complete_preserved(entry, *store);
                }
                return Ok(result);
            }
            i = i + 1;
        }
        Err(crate::store::DbError::NotFound)
    }
}

} // verus!
