//! The records that the registry stores.

pub mod user;

pub use self::user::{Person, User, UserRole, UserStatus};
