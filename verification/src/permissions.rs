//! The fixed permission catalog: the tri-state value a role carries for
//! each flag, and the names of the flags themselves.

use vstd::prelude::*;

use crate::store::DbError;

verus! {

/// One tri-state permission value.
///
/// `Unset` is the neutral state: it defers the decision to a
/// lower-precedence role. It is distinct from `Forbidden`, which is an
/// explicit deny.
#[derive(Debug, Copy, Clone, PartialEq, Eq, Structural)]
pub enum PermissionState {
    Unset,
    Forbidden,
    Allowed,
}

impl PermissionState {
    /// The integer encoding used by the storage schema.
    pub fn to_i32(self) -> (r: i32)
        ensures
            r == self.as_i32(),
    {
        match self {
            PermissionState::Unset => -1,
            PermissionState::Forbidden => 0,
            PermissionState::Allowed => 1,
        }
    }

    /// The integer encoding as a specification-level value.
    pub open spec fn as_i32(self) -> int {
        match self {
            PermissionState::Unset => -1,
            PermissionState::Forbidden => 0,
            PermissionState::Allowed => 1,
        }
    }

    /// Decode the integer encoding. A value outside the catalog is a
    /// malformed permission and is rejected here, at deserialization
    /// time, so it can never reach resolution — in particular it is
    /// never silently read as `Unset`, which would change inheritance.
    pub fn from_i32(value: i32) -> (r: Result<PermissionState, DbError>)
        ensures
            r == PermissionState::spec_from_i32(value),
    {
        match value {
            -1 => Ok(PermissionState::Unset),
            0 => Ok(PermissionState::Forbidden),
            1 => Ok(PermissionState::Allowed),
            _ => Err(DbError::MalformedRole),
        }
    }

    /// Specification-level decoding of the integer encoding: total on
    /// the catalog, an error everywhere else.
    pub open spec fn spec_from_i32(value: i32) -> Result<PermissionState, DbError> {
        if value == -1 {
            Ok(PermissionState::Unset)
        } else if value == 0 {
            Ok(PermissionState::Forbidden)
        } else if value == 1 {
            Ok(PermissionState::Allowed)
        } else {
            Err(DbError::MalformedRole)
        }
    }
}

/// The integer codec round-trips: encoding any catalog value and
/// decoding it gives the value back, never an error.
pub proof fn lemma_state_codec_roundtrip(s: PermissionState)
    ensures
        PermissionState::spec_from_i32(s.as_i32() as i32) == Ok::<PermissionState, DbError>(s),
{
}

impl Default for PermissionState {
    /// A freshly declared flag is `Unset`: it inherits.
    fn default() -> (r: PermissionState)
        ensures
            r == PermissionState::Unset,
    {
        PermissionState::Unset
    }
}

/// The name of one tri-state flag in the catalog.
///
/// The catalog is a fixed, versioned schema: adding a flag means giving
/// it a value in every bootstrapped default role.
#[derive(Debug, Copy, Clone, PartialEq, Eq, Structural)]
pub enum PermissionName {
    TitleUpdate,
    PathUpdate,
    PublicUpdate,
    RoomDelete,
    RoomView,
    AuditLogRead,
    EmbedLinks,
    PingEveryone,
    PasswordCreate,
    PasswordUpdate,
    PasswordDelete,
    PasswordBypass,
    EmoteCreate,
    EmoteUpdate,
    EmoteDelete,
    EmoteView,
    RoleCreate,
    RoleDelete,
    RoleUpdate,
    RoleView,
    VideoCreate,
    VideoDelete,
    VideoWatch,
    VideoMove,
    VideoIframe,
    VideoRaw,
    PlayerPause,
    PlayerResume,
    PlayerRewind,
    SubtitlesFile,
    SubtitlesEmbed,
    MessageCreate,
    MessageRead,
    MessageHistoryRead,
    UserKick,
    UserBan,
    UserUnban,
    UserTimeout,
}

} // verus!
