//! The rules that a username and an e-mail address must meet.

use vstd::prelude::*;
use vstd::string::*;
use vstd::utf8::encode_utf8;
use crate::utils::errors::{result_view, UserError, UserErrorView};
use crate::utils::pattern::{regex_search, search};
use crate::utils::text::{trim, trimmed};

verus! {

/// The regular expression that a username must match: one or more letters,
/// digits and underscores, and nothing else.
pub const USERNAME_PATTERN: &'static str = "^[a-zA-Z0-9_]+$";

/// The regular expression that an e-mail address must match: a local part, an
/// `@`, and a domain that ends in a dot and two or more letters.
pub const EMAIL_PATTERN: &'static str = "^[a-zA-Z0-9._%+-]+@[a-zA-Z0-9.-]+\\.[a-zA-Z]{2,}$";

/// The number of bytes that `s` takes in UTF-8.
pub open spec fn byte_len(s: Seq<char>) -> nat {
    encode_utf8(s).len()
}

/// The verdict on a username of acceptable length, given what the search for
/// [`USERNAME_PATTERN`] in it has answered.
pub open spec fn username_pattern_check(searched: Option<bool>) -> Result<(), UserErrorView> {
    match searched {
        None => Err(UserErrorView::ValidationError("Invalid username regex"@)),
        Some(false) => Err(
            UserErrorView::ValidationError(
                "Username can only contain letters, numbers, and underscores"@,
            ),
        ),
        Some(true) => Ok(()),
    }
}

/// The verdict on a username: it must take 3 to 50 bytes and match
/// [`USERNAME_PATTERN`].
pub open spec fn username_check(username: Seq<char>) -> Result<(), UserErrorView> {
    if byte_len(username) < 3 {
        Err(UserErrorView::ValidationError("Username must be at least 3 characters"@))
    } else if byte_len(username) > 50 {
        Err(UserErrorView::ValidationError("Username must be less than 50 characters"@))
    } else {
        username_pattern_check(regex_search(USERNAME_PATTERN@, username))
    }
}

/// The verdict on an e-mail address, given what the search for
/// [`EMAIL_PATTERN`] in it has answered.
pub open spec fn email_pattern_check(searched: Option<bool>) -> Result<(), UserErrorView> {
    match searched {
        None => Err(UserErrorView::ValidationError("Invalid email regex"@)),
        Some(false) => Err(UserErrorView::ValidationError("Invalid email format"@)),
        Some(true) => Ok(()),
    }
}

/// The verdict on an e-mail address: it must match [`EMAIL_PATTERN`].
pub open spec fn email_check(email: Seq<char>) -> Result<(), UserErrorView> {
    email_pattern_check(regex_search(EMAIL_PATTERN@, email))
}

/// A failed validation is always a `ValidationError`.
pub proof fn law_checks_fail_with_validation_error(text: Seq<char>)
    ensures
        username_check(text) matches Err(e) ==> e is ValidationError,
        email_check(text) matches Err(e) ==> e is ValidationError,
{
}

/// Decides on an e-mail address from the answer of the search for
/// [`EMAIL_PATTERN`] in it.
pub fn email_verdict(searched: Option<bool>) -> (verdict: Result<(), UserError>)
    ensures
        result_view(verdict) == email_pattern_check(searched),
{
    match searched {
        None => Err(UserError::ValidationError(String::from_str("Invalid email regex"))),
        Some(false) => Err(UserError::ValidationError(String::from_str("Invalid email format"))),
        Some(true) => Ok(()),
    }
}

/// Checks that `email` has the form of an e-mail address.
pub fn validate_email(email: &str) -> (verdict: Result<(), UserError>)
    ensures
        result_view(verdict) == email_check(email@),
{
    email_verdict(search(EMAIL_PATTERN, email))
}

/// Decides on a username of acceptable length from the answer of the search
/// for [`USERNAME_PATTERN`] in it.
pub fn username_verdict(searched: Option<bool>) -> (verdict: Result<(), UserError>)
    ensures
        result_view(verdict) == username_pattern_check(searched),
{
    match searched {
        None => Err(UserError::ValidationError(String::from_str("Invalid username regex"))),
        Some(false) => Err(
            UserError::ValidationError(
                String::from_str("Username can only contain letters, numbers, and underscores"),
            ),
        ),
        Some(true) => Ok(()),
    }
}

/// Checks that `username` has an acceptable length and holds only letters,
/// digits and underscores.
pub fn validate_username(username: &str) -> (verdict: Result<(), UserError>)
    ensures
        result_view(verdict) == username_check(username@),
{
    let length: usize = username.as_bytes().len();
    if length < 3 {
        return Err(
            UserError::ValidationError(String::from_str("Username must be at least 3 characters")),
        );
    }
    if length > 50 {
        return Err(
            UserError::ValidationError(
                String::from_str("Username must be less than 50 characters"),
            ),
        );
    }
    username_verdict(search(USERNAME_PATTERN, username))
}

/// `input` without the white space at its start and at its end.
pub fn sanitize_string(input: &str) -> (clean: String)
    ensures
        clean@ == trimmed(input@),
{
    trim(input).to_owned()
}

} // verus!
