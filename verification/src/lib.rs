//! A registry of soulbound achievement badges.
//!
//! Badges are issued to principals by a minter, can be revoked by an
//! administrator, and are never transferred. The registry keeps a catalog of
//! badge templates, one ordered record of badge instances per user, a count of
//! current holders per badge and a lifetime count of mints.

pub mod badge;
pub mod error;
pub mod event;
pub mod history;
pub mod laws;
pub mod model;
pub mod principal;
pub mod record;
pub mod registry;
pub mod users;

pub use crate::badge::BadgeInfo;
pub use crate::error::Error;
pub use crate::event::AuditEvent;
pub use crate::principal::Principal;
pub use crate::registry::{CryptoPetBadges, RegistryConfig};
pub use crate::users::UserRecord;
