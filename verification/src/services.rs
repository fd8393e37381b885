//! The registry of users.

pub mod laws;
pub mod registry;
pub mod user_manager;

pub use self::user_manager::UserManager;
