//! The error values that registry operations return.

use vstd::prelude::*;
use vstd::string::*;

verus! {

/// A failure of a registry operation, with a human-readable detail.
#[derive(Debug, PartialEq, Eq)]
pub enum UserError {
    /// No user matches the identifier, username or e-mail address given.
    UserNotFound(String),
    /// The username, the e-mail address or the identifier is already in use.
    DuplicateUser(String),
    /// A field does not have the required form.
    ValidationError(String),
    /// A storage backend failed. The in-memory registry never returns it.
    DatabaseError(String),
}

/// The mathematical value of a [`UserError`]: its kind and its detail text.
pub ghost enum UserErrorView {
    UserNotFound(Seq<char>),
    DuplicateUser(Seq<char>),
    ValidationError(Seq<char>),
    DatabaseError(Seq<char>),
}

impl UserErrorView {
    /// The detail text carried by the error.
    pub open spec fn detail(self) -> Seq<char> {
        match self {
            UserErrorView::UserNotFound(d) => d,
            UserErrorView::DuplicateUser(d) => d,
            UserErrorView::ValidationError(d) => d,
            UserErrorView::DatabaseError(d) => d,
        }
    }

    /// The fixed text that introduces the detail in the error's message.
    pub open spec fn prefix(self) -> Seq<char> {
        match self {
            UserErrorView::UserNotFound(_) => "User not found: "@,
            UserErrorView::DuplicateUser(_) => "Duplicate user: "@,
            UserErrorView::ValidationError(_) => "Validation error: "@,
            UserErrorView::DatabaseError(_) => "Database error: "@,
        }
    }

    /// The full message: the prefix of the kind followed by the detail.
    pub open spec fn message(self) -> Seq<char> {
        self.prefix() + self.detail()
    }
}

impl View for UserError {
    type V = UserErrorView;

    open spec fn view(&self) -> UserErrorView {
        match self {
            UserError::UserNotFound(d) => UserErrorView::UserNotFound(d@),
            UserError::DuplicateUser(d) => UserErrorView::DuplicateUser(d@),
            UserError::ValidationError(d) => UserErrorView::ValidationError(d@),
            UserError::DatabaseError(d) => UserErrorView::DatabaseError(d@),
        }
    }
}

/// The mathematical value of the outcome of an operation that may fail.
pub open spec fn result_view<T: View>(outcome: Result<T, UserError>) -> Result<
    T::V,
    UserErrorView,
> {
    match outcome {
        Ok(value) => Ok(value@),
        Err(error) => Err(error@),
    }
}

impl UserError {
    /// The detail text carried by the error.
    pub fn detail(&self) -> (d: &str)
        ensures
            d@ == self@.detail(),
    {
        match self {
            UserError::UserNotFound(d) => d.as_str(),
            UserError::DuplicateUser(d) => d.as_str(),
            UserError::ValidationError(d) => d.as_str(),
            UserError::DatabaseError(d) => d.as_str(),
        }
    }

    /// The message of the error as it is shown to a client.
    pub fn message(&self) -> (m: String)
        ensures
            m@ == self@.message(),
    {
        let prefix = match self {
            UserError::UserNotFound(_) => "User not found: ",
            UserError::DuplicateUser(_) => "Duplicate user: ",
            UserError::ValidationError(_) => "Validation error: ",
            UserError::DatabaseError(_) => "Database error: ",
        };
        String::from_str(prefix).concat(self.detail())
    }
}

} // verus!
