//! Authorization core for a multi-room communication platform.
//!
//! The crate covers three pieces of domain logic:
//!
//! - the permission catalog and role model: roughly forty tri-state
//!   permission flags per role, plus one numeric rate-limit field;
//! - the permission resolution engine: merging a user's applicable roles
//!   into one effective answer per flag, with precedence, fall-through,
//!   and default-deny semantics, together with the numeric-inheritance
//!   rule for the message timeout;
//! - the atomic composite-entity creation protocol: a channel always
//!   comes into being together with exactly one specialization row, and
//!   a batch of messages with their mentions is created all-or-nothing.
//!
//! Persistence is modeled by an in-memory [`store::Store`] with the same
//! constraints a relational schema would enforce; every operation on it
//! carries a contract, and rollback on failure is proved, not assumed.

pub mod asserts;
pub mod auth;
pub mod channels;
pub mod messages;
pub mod permissions;
pub mod resolve;
pub mod roles;
pub mod store;
pub mod users;

pub use channels::create_channel;
pub use permissions::{PermissionName, PermissionState};
pub use resolve::{resolve, resolve_all, resolve_timeout};
pub use roles::bootstrap_default_roles;
pub use store::{DbError, Store};
