//! Error values, validation, and the handling of text, identifiers and time.

pub mod clock;
pub mod errors;
pub mod ident;
pub mod pattern;
pub mod text;
pub mod validators;

pub use self::errors::UserError;
pub use self::validators::{sanitize_string, validate_email, validate_username};
