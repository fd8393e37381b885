//! An in-memory user registry with a line-oriented command protocol.
//!
//! The registry keeps every user record under its identifier and maintains two
//! secondary indexes, by username and by e-mail address. Every operation is
//! specified against a mathematical model of the registry (a map from
//! identifiers to user records) and proved to refine it.
//!
//! * [`utils`] holds the error values, the validation rules, and the handling
//!   of text, identifiers and time. Regular expressions, identifiers and
//!   calendar dates are the work of the crates `regex`, `uuid` and `chrono`;
//!   what is assumed of them is said where they are called.
//! * [`models`] holds the user record and the operations that change one.
//! * [`services`] holds the registry, its model, and the laws proved of it.
//! * [`dispatcher`] holds the command protocol.
//!
//! Where an operation draws a random identifier or reads the clock, a second
//! operation takes what is drawn as arguments and is specified exactly; the
//! first one is specified as the second for some draw.

pub mod dispatcher;
pub mod models;
pub mod services;
pub mod utils;
