//! The permission resolution engine: merge a user's applicable roles
//! into one effective answer per flag, and compute the effective
//! message timeout.
//!
//! Precedence is by ascending `position`, ties broken by ascending role
//! id, so resolution is deterministic. For a tri-state flag the first
//! non-`Unset` value in that order wins; if every role is `Unset` the
//! answer is `Forbidden` (default-deny). For the numeric timeout the
//! first value `>= 0` wins; if none exists the answer is `0`
//! (fail-open for this one operational parameter, by design).

use vstd::prelude::*;

use crate::permissions::{PermissionName, PermissionState};
use crate::roles::Role;

verus! {

/// Strict precedence order: `a` resolves before `b`.
pub open spec fn precedes(a: Role, b: Role) -> bool {
    a.position < b.position || (a.position == b.position && a.id < b.id)
}

/// Exec counterpart of [`precedes`].
pub fn precedes_exec(a: &Role, b: &Role) -> (r: bool)
    ensures
        r == precedes(*a, *b),
{
    a.position < b.position || (a.position == b.position && a.id < b.id)
}

/// The role whose value decides the named flag: among the roles that
/// carry a non-`Unset` value, the one of highest precedence (and of
/// those, the earliest in the sequence).
pub open spec fn flag_winner(roles: Seq<Role>, n: PermissionName) -> Option<Role>
    decreases roles.len(),
{
    if roles.len() == 0 {
        None
    } else {
        let last = roles.last();
        match flag_winner(roles.drop_last(), n) {
            None => if last.flag(n) != PermissionState::Unset {
                Some(last)
            } else {
                None
            },
            Some(w) => if last.flag(n) != PermissionState::Unset && precedes(last, w) {
                Some(last)
            } else {
                Some(w)
            },
        }
    }
}

/// The effective value of the named flag for this role set: the
/// winner's value, or `Forbidden` when every role leaves it `Unset`.
pub open spec fn resolved(roles: Seq<Role>, n: PermissionName) -> PermissionState {
    match flag_winner(roles, n) {
        None => PermissionState::Forbidden,
        Some(w) => w.flag(n),
    }
}

/// The role whose timeout decides: among the roles with an explicit
/// (non-negative) timeout, the one of highest precedence.
pub open spec fn timeout_winner(roles: Seq<Role>) -> Option<Role>
    decreases roles.len(),
{
    if roles.len() == 0 {
        None
    } else {
        let last = roles.last();
        match timeout_winner(roles.drop_last()) {
            None => if last.message_timeout >= 0 {
                Some(last)
            } else {
                None
            },
            Some(w) => if last.message_timeout >= 0 && precedes(last, w) {
                Some(last)
            } else {
                Some(w)
            },
        }
    }
}

/// The effective message timeout for this role set: the winner's
/// timeout, or `0` when no role carries an explicit value.
pub open spec fn resolved_timeout(roles: Seq<Role>) -> int {
    match timeout_winner(roles) {
        None => 0,
        Some(w) => w.message_timeout as int,
    }
}

/// What the recursion guarantees of a flag winner: it is a role of the
/// set, it carries a decided value, and no role that carries a decided
/// value strictly precedes it.
pub proof fn lemma_flag_winner_props(roles: Seq<Role>, n: PermissionName)
    ensures
        (flag_winner(roles, n) is None) <==> (forall|i: int|
            0 <= i < roles.len() ==> #[trigger] roles[i].flag(n) == PermissionState::Unset),
        match flag_winner(roles, n) {
            None => true,
            Some(w) => {
                &&& w.flag(n) != PermissionState::Unset
                &&& exists|i: int| 0 <= i < roles.len() && roles[i] == w
                &&& forall|i: int|
                    0 <= i < roles.len() && #[trigger] roles[i].flag(n) != PermissionState::Unset
                        ==> !precedes(roles[i], w)
            },
        },
    decreases roles.len(),
{
    if roles.len() > 0 {
        lemma_flag_winner_props(roles.drop_last(), n);
        let prefix = roles.drop_last();
        let last = roles.last();
        assert(forall|i: int| 0 <= i < prefix.len() ==> prefix[i] == roles[i]);
        match flag_winner(roles, n) {
            None => {}
            Some(w) => {
                assert forall|i: int|
                    0 <= i < roles.len() && #[trigger] roles[i].flag(n) != PermissionState::Unset
                        implies !precedes(roles[i], w) by {
                    if i < roles.len() - 1 {
                        assert(roles[i] == prefix[i]);
                    }
                }
            }
        }
    }
}

/// What the recursion guarantees of the timeout winner, in the same
/// shape as [`lemma_flag_winner_props`].
pub proof fn lemma_timeout_winner_props(roles: Seq<Role>)
    ensures
        (timeout_winner(roles) is None) <==> (forall|i: int|
            0 <= i < roles.len() ==> #[trigger] roles[i].message_timeout < 0),
        match timeout_winner(roles) {
            None => true,
            Some(w) => {
                &&& w.message_timeout >= 0
                &&& exists|i: int| 0 <= i < roles.len() && roles[i] == w
                &&& forall|i: int|
                    0 <= i < roles.len() && #[trigger] roles[i].message_timeout >= 0
                        ==> !precedes(roles[i], w)
            },
        },
    decreases roles.len(),
{
    if roles.len() > 0 {
        lemma_timeout_winner_props(roles.drop_last());
        let prefix = roles.drop_last();
        assert(forall|i: int| 0 <= i < prefix.len() ==> prefix[i] == roles[i]);
        match timeout_winner(roles) {
            None => {}
            Some(w) => {
                assert forall|i: int|
                    0 <= i < roles.len() && #[trigger] roles[i].message_timeout >= 0
                        implies !precedes(roles[i], w) by {
                    if i < roles.len() - 1 {
                        assert(roles[i] == prefix[i]);
                    }
                }
            }
        }
    }
}

/// Resolution is total: for every role set and every flag the effective
/// value is `Allowed` or `Forbidden`, never `Unset`.
pub proof fn lemma_resolve_total(roles: Seq<Role>, n: PermissionName)
    ensures
        resolved(roles, n) == PermissionState::Allowed || resolved(roles, n)
            == PermissionState::Forbidden,
{
    lemma_flag_winner_props(roles, n);
}

/// Default-deny: when every applicable role leaves a flag `Unset`, the
/// effective value is `Forbidden`.
pub proof fn lemma_default_deny(roles: Seq<Role>, n: PermissionName)
    requires
        forall|i: int| 0 <= i < roles.len() ==> #[trigger] roles[i].flag(n)
            == PermissionState::Unset,
    ensures
        resolved(roles, n) == PermissionState::Forbidden,
{
    lemma_flag_winner_props(roles, n);
}

/// Precedence: if the role of highest precedence among those carrying a
/// decided value says `Allowed`, the effective value is `Allowed`, no
/// matter what lower-precedence roles say.
pub proof fn lemma_precedence(roles: Seq<Role>, n: PermissionName, i: int)
    requires
        0 <= i < roles.len(),
        roles[i].flag(n) == PermissionState::Allowed,
        forall|j: int|
            0 <= j < roles.len() && roles[j] != roles[i] && #[trigger] roles[j].flag(n)
                != PermissionState::Unset ==> precedes(roles[i], roles[j]),
    ensures
        resolved(roles, n) == PermissionState::Allowed,
{
    lemma_flag_winner_props(roles, n);
    match flag_winner(roles, n) {
        None => {
            assert(roles[i].flag(n) == PermissionState::Unset);
        }
        Some(w) => {
            if w != roles[i] {
                let k = choose|k: int| 0 <= k < roles.len() && roles[k] == w;
                assert(precedes(roles[i], roles[k]));
                assert(!precedes(roles[i], w));
            }
        }
    }
}

/// Timeout default: when every applicable role inherits (timeout `< 0`),
/// the effective timeout is `0`.
pub proof fn lemma_timeout_all_inherit(roles: Seq<Role>)
    requires
        forall|i: int| 0 <= i < roles.len() ==> #[trigger] roles[i].message_timeout < 0,
    ensures
        resolved_timeout(roles) == 0,
{
    lemma_timeout_winner_props(roles);
}

/// Resolve one flag over the applicable role set.
///
/// A single linear scan: the engine keeps the best decided role seen so
/// far under the precedence order, which is exactly what a sort by
/// `(position, id)` followed by a first-non-`Unset` scan would pick.
pub fn resolve(applicable_roles: &Vec<Role>, flag: PermissionName) -> (r: PermissionState)
    ensures
        r == resolved(applicable_roles@, flag),
        r == PermissionState::Allowed || r == PermissionState::Forbidden,
{
    let n = applicable_roles.len();
    let mut best: Option<usize> = None;
    let mut i: usize = 0;
    while i < n
        invariant
            i <= n,
            n == applicable_roles@.len(),
            match best {
                None => flag_winner(applicable_roles@.subrange(0, i as int), flag) is None,
                Some(b) => b < i && flag_winner(applicable_roles@.subrange(0, i as int), flag)
                    == Some(applicable_roles@[b as int]),
            },
        decreases n - i,
    {
        let ghost prefix = applicable_roles@.subrange(0, i as int);
        let decided = applicable_roles[i].get_flag(flag);
        if decided != PermissionState::Unset {
            let better = match best {
                None => true,
                Some(b) => precedes_exec(&applicable_roles[i], &applicable_roles[b]),
            };
            if better {
                best = Some(i);
            }
        }
        i = i + 1;
        proof {
            let stepped = applicable_roles@.subrange(0, i as int);
            assert(stepped.drop_last() =~= prefix);
            assert(stepped.last() == applicable_roles@[i - 1]);
        }
    }
    proof {
        assert(applicable_roles@.subrange(0, n as int) =~= applicable_roles@);
        lemma_flag_winner_props(applicable_roles@, flag);
    }
    match best {
        None => PermissionState::Forbidden,
        Some(b) => applicable_roles[b].get_flag(flag),
    }
}

/// Resolve the effective message timeout over the applicable role set:
/// the explicit timeout of the role of highest precedence that carries
/// one, or `0` when every role inherits.
pub fn resolve_timeout(applicable_roles: &Vec<Role>) -> (r: i32)
    ensures
        r == resolved_timeout(applicable_roles@),
        r >= 0,
{
    let n = applicable_roles.len();
    let mut best: Option<usize> = None;
    let mut i: usize = 0;
    while i < n
        invariant
            i <= n,
            n == applicable_roles@.len(),
            match best {
                None => timeout_winner(applicable_roles@.subrange(0, i as int)) is None,
                Some(b) => b < i && timeout_winner(applicable_roles@.subrange(0, i as int))
                    == Some(applicable_roles@[b as int]),
            },
        decreases n - i,
    {
        let ghost prefix = applicable_roles@.subrange(0, i as int);
        if applicable_roles[i].message_timeout >= 0 {
            let better = match best {
                None => true,
                Some(b) => precedes_exec(&applicable_roles[i], &applicable_roles[b]),
            };
            if better {
                best = Some(i);
            }
        }
        i = i + 1;
        proof {
            let stepped = applicable_roles@.subrange(0, i as int);
            assert(stepped.drop_last() =~= prefix);
            assert(stepped.last() == applicable_roles@[i - 1]);
        }
    }
    proof {
        assert(applicable_roles@.subrange(0, n as int) =~= applicable_roles@);
        lemma_timeout_winner_props(applicable_roles@);
    }
    match best {
        None => 0,
        Some(b) => applicable_roles[b].message_timeout,
    }
}

/// The effective permission vector: one decided value per flag of the
/// catalog, plus the effective message timeout.
#[derive(Debug, Clone, Copy, PartialEq, Eq, Structural)]
pub struct EffectivePermissions {
    pub title_update: PermissionState,
    pub path_update: PermissionState,
    pub public_update: PermissionState,
    pub room_delete: PermissionState,
    pub room_view: PermissionState,
    pub audit_log_read: PermissionState,
    pub embed_links: PermissionState,
    pub ping_everyone: PermissionState,
    pub password_create: PermissionState,
    pub password_update: PermissionState,
    pub password_delete: PermissionState,
    pub password_bypass: PermissionState,
    pub emote_create: PermissionState,
    pub emote_update: PermissionState,
    pub emote_delete: PermissionState,
    pub emote_view: PermissionState,
    pub role_create: PermissionState,
    pub role_delete: PermissionState,
    pub role_update: PermissionState,
    pub role_view: PermissionState,
    pub video_create: PermissionState,
    pub video_delete: PermissionState,
    pub video_watch: PermissionState,
    pub video_move: PermissionState,
    pub video_iframe: PermissionState,
    pub video_raw: PermissionState,
    pub player_pause: PermissionState,
    pub player_resume: PermissionState,
    pub player_rewind: PermissionState,
    pub subtitles_file: PermissionState,
    pub subtitles_embed: PermissionState,
    pub message_create: PermissionState,
    pub message_read: PermissionState,
    pub message_history_read: PermissionState,
    pub user_kick: PermissionState,
    pub user_ban: PermissionState,
    pub user_unban: PermissionState,
    pub user_timeout: PermissionState,
    pub message_timeout: i32,
}

/// Resolve the entire flag vector and the timeout for one applicable
/// role set in one call; every field is the value [`resolve`] would
/// give for its flag, and every field is decided.
pub fn resolve_all(applicable_roles: &Vec<Role>) -> (r: EffectivePermissions)
    ensures
            r.title_update == resolved(applicable_roles@, PermissionName::TitleUpdate),
            r.path_update == resolved(applicable_roles@, PermissionName::PathUpdate),
            r.public_update == resolved(applicable_roles@, PermissionName::PublicUpdate),
            r.room_delete == resolved(applicable_roles@, PermissionName::RoomDelete),
            r.room_view == resolved(applicable_roles@, PermissionName::RoomView),
            r.audit_log_read == resolved(applicable_roles@, PermissionName::AuditLogRead),
            r.embed_links == resolved(applicable_roles@, PermissionName::EmbedLinks),
            r.ping_everyone == resolved(applicable_roles@, PermissionName::PingEveryone),
            r.password_create == resolved(applicable_roles@, PermissionName::PasswordCreate),
            r.password_update == resolved(applicable_roles@, PermissionName::PasswordUpdate),
            r.password_delete == resolved(applicable_roles@, PermissionName::PasswordDelete),
            r.password_bypass == resolved(applicable_roles@, PermissionName::PasswordBypass),
            r.emote_create == resolved(applicable_roles@, PermissionName::EmoteCreate),
            r.emote_update == resolved(applicable_roles@, PermissionName::EmoteUpdate),
            r.emote_delete == resolved(applicable_roles@, PermissionName::EmoteDelete),
            r.emote_view == resolved(applicable_roles@, PermissionName::EmoteView),
            r.role_create == resolved(applicable_roles@, PermissionName::RoleCreate),
            r.role_delete == resolved(applicable_roles@, PermissionName::RoleDelete),
            r.role_update == resolved(applicable_roles@, PermissionName::RoleUpdate),
            r.role_view == resolved(applicable_roles@, PermissionName::RoleView),
            r.video_create == resolved(applicable_roles@, PermissionName::VideoCreate),
            r.video_delete == resolved(applicable_roles@, PermissionName::VideoDelete),
            r.video_watch == resolved(applicable_roles@, PermissionName::VideoWatch),
            r.video_move == resolved(applicable_roles@, PermissionName::VideoMove),
            r.video_iframe == resolved(applicable_roles@, PermissionName::VideoIframe),
            r.video_raw == resolved(applicable_roles@, PermissionName::VideoRaw),
            r.player_pause == resolved(applicable_roles@, PermissionName::PlayerPause),
            r.player_resume == resolved(applicable_roles@, PermissionName::PlayerResume),
            r.player_rewind == resolved(applicable_roles@, PermissionName::PlayerRewind),
            r.subtitles_file == resolved(applicable_roles@, PermissionName::SubtitlesFile),
            r.subtitles_embed == resolved(applicable_roles@, PermissionName::SubtitlesEmbed),
            r.message_create == resolved(applicable_roles@, PermissionName::MessageCreate),
            r.message_read == resolved(applicable_roles@, PermissionName::MessageRead),
            r.message_history_read == resolved(applicable_roles@, PermissionName::MessageHistoryRead),
            r.user_kick == resolved(applicable_roles@, PermissionName::UserKick),
            r.user_ban == resolved(applicable_roles@, PermissionName::UserBan),
            r.user_unban == resolved(applicable_roles@, PermissionName::UserUnban),
            r.user_timeout == resolved(applicable_roles@, PermissionName::UserTimeout),
            r.message_timeout == resolved_timeout(applicable_roles@),
            r.message_timeout >= 0,
{
    EffectivePermissions {
        title_update: resolve(applicable_roles, PermissionName::TitleUpdate),
        path_update: resolve(applicable_roles, PermissionName::PathUpdate),
        public_update: resolve(applicable_roles, PermissionName::PublicUpdate),
        room_delete: resolve(applicable_roles, PermissionName::RoomDelete),
        room_view: resolve(applicable_roles, PermissionName::RoomView),
        audit_log_read: resolve(applicable_roles, PermissionName::AuditLogRead),
        embed_links: resolve(applicable_roles, PermissionName::EmbedLinks),
        ping_everyone: resolve(applicable_roles, PermissionName::PingEveryone),
        password_create: resolve(applicable_roles, PermissionName::PasswordCreate),
        password_update: resolve(applicable_roles, PermissionName::PasswordUpdate),
        password_delete: resolve(applicable_roles, PermissionName::PasswordDelete),
        password_bypass: resolve(applicable_roles, PermissionName::PasswordBypass),
        emote_create: resolve(applicable_roles, PermissionName::EmoteCreate),
        emote_update: resolve(applicable_roles, PermissionName::EmoteUpdate),
        emote_delete: resolve(applicable_roles, PermissionName::EmoteDelete),
        emote_view: resolve(applicable_roles, PermissionName::EmoteView),
        role_create: resolve(applicable_roles, PermissionName::RoleCreate),
        role_delete: resolve(applicable_roles, PermissionName::RoleDelete),
        role_update: resolve(applicable_roles, PermissionName::RoleUpdate),
        role_view: resolve(applicable_roles, PermissionName::RoleView),
        video_create: resolve(applicable_roles, PermissionName::VideoCreate),
        video_delete: resolve(applicable_roles, PermissionName::VideoDelete),
        video_watch: resolve(applicable_roles, PermissionName::VideoWatch),
        video_move: resolve(applicable_roles, PermissionName::VideoMove),
        video_iframe: resolve(applicable_roles, PermissionName::VideoIframe),
        video_raw: resolve(applicable_roles, PermissionName::VideoRaw),
        player_pause: resolve(applicable_roles, PermissionName::PlayerPause),
        player_resume: resolve(applicable_roles, PermissionName::PlayerResume),
        player_rewind: resolve(applicable_roles, PermissionName::PlayerRewind),
        subtitles_file: resolve(applicable_roles, PermissionName::SubtitlesFile),
        subtitles_embed: resolve(applicable_roles, PermissionName::SubtitlesEmbed),
        message_create: resolve(applicable_roles, PermissionName::MessageCreate),
        message_read: resolve(applicable_roles, PermissionName::MessageRead),
        message_history_read: resolve(applicable_roles, PermissionName::MessageHistoryRead),
        user_kick: resolve(applicable_roles, PermissionName::UserKick),
        user_ban: resolve(applicable_roles, PermissionName::UserBan),
        user_unban: resolve(applicable_roles, PermissionName::UserUnban),
        user_timeout: resolve(applicable_roles, PermissionName::UserTimeout),
        message_timeout: resolve_timeout(applicable_roles),
    }
}

} // verus!
