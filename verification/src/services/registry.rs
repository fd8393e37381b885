//! The mathematical model of the registry: a map from identifiers to user
//! records, and what each operation answers and leaves behind.

use vstd::prelude::*;
use crate::models::user::{UserRole, UserStatus, UserView};
use crate::utils::clock::Timestamp;
use crate::utils::errors::UserErrorView;
use crate::utils::ident::id_text;
use crate::utils::validators::{email_check, username_check};

verus! {

/// Whether some user of `reg` has the username.
pub open spec fn username_taken(reg: Map<u128, UserView>, username: Seq<char>) -> bool {
    exists|id: u128| #[trigger] reg.contains_key(id) && reg[id].username == username
}

/// The identifier of a user of `reg` that has the username.
pub open spec fn username_owner(reg: Map<u128, UserView>, username: Seq<char>) -> u128 {
    choose|id: u128| #[trigger] reg.contains_key(id) && reg[id].username == username
}

/// Whether some user of `reg` has the e-mail address.
pub open spec fn email_taken(reg: Map<u128, UserView>, email: Seq<char>) -> bool {
    exists|id: u128| #[trigger] reg.contains_key(id) && reg[id].email == email
}

/// The identifier of a user of `reg` that has the e-mail address.
pub open spec fn email_owner(reg: Map<u128, UserView>, email: Seq<char>) -> u128 {
    choose|id: u128| #[trigger] reg.contains_key(id) && reg[id].email == email
}

/// What every registry satisfies: it holds finitely many users, each under its
/// own identifier and with a username and an e-mail address of the required
/// form, and no two of them share a username or an e-mail address.
pub open spec fn well_formed(reg: Map<u128, UserView>) -> bool {
    &&& reg.dom().finite()
    &&& forall|id: u128| #[trigger]
        reg.contains_key(id) ==> {
            &&& reg[id].id == id
            &&& username_check(reg[id].username) is Ok
            &&& email_check(reg[id].email) is Ok
        }
    &&& forall|a: u128, b: u128|
        #![trigger reg.contains_key(a), reg.contains_key(b)]
        reg.contains_key(a) && reg.contains_key(b) && reg[a].username == reg[b].username ==> a
            == b
    &&& forall|a: u128, b: u128|
        #![trigger reg.contains_key(a), reg.contains_key(b)]
        reg.contains_key(a) && reg.contains_key(b) && reg[a].email == reg[b].email ==> a == b
}

/// The error for an identifier that no user has.
pub open spec fn no_such_id(id: u128) -> UserErrorView {
    UserErrorView::UserNotFound("User ID '"@ + id_text(id) + "' not found"@)
}

/// The error for a username that no user has.
pub open spec fn no_such_username(username: Seq<char>) -> UserErrorView {
    UserErrorView::UserNotFound("Username '"@ + username + "' not found"@)
}

/// The error for an e-mail address that no user has.
pub open spec fn no_such_email(email: Seq<char>) -> UserErrorView {
    UserErrorView::UserNotFound("Email '"@ + email + "' not found"@)
}

/// The error for a username that a user already has.
pub open spec fn username_in_use(username: Seq<char>) -> UserErrorView {
    UserErrorView::DuplicateUser("Username '"@ + username + "' already exists"@)
}

/// The error for an e-mail address that a user already has.
pub open spec fn email_in_use(email: Seq<char>) -> UserErrorView {
    UserErrorView::DuplicateUser("Email '"@ + email + "' already exists"@)
}

/// The error for an identifier that a user already has.
pub open spec fn id_in_use(id: u128) -> UserErrorView {
    UserErrorView::DuplicateUser("User ID '"@ + id_text(id) + "' already exists"@)
}

/// The answer to a lookup by identifier.
pub open spec fn find_by_id(reg: Map<u128, UserView>, id: u128) -> Result<UserView, UserErrorView> {
    if reg.contains_key(id) {
        Ok(reg[id])
    } else {
        Err(no_such_id(id))
    }
}

/// The answer to a lookup by username.
pub open spec fn find_by_username(reg: Map<u128, UserView>, username: Seq<char>) -> Result<
    UserView,
    UserErrorView,
> {
    if username_taken(reg, username) {
        Ok(reg[username_owner(reg, username)])
    } else {
        Err(no_such_username(username))
    }
}

/// The answer to a lookup by e-mail address.
pub open spec fn find_by_email(reg: Map<u128, UserView>, email: Seq<char>) -> Result<
    UserView,
    UserErrorView,
> {
    if email_taken(reg, email) {
        Ok(reg[email_owner(reg, email)])
    } else {
        Err(no_such_email(email))
    }
}

/// Whether a user with this username and this e-mail address may join `reg`:
/// both must have the required form, in this order, and then neither may be
/// in use, in this order.
pub open spec fn admission(
    reg: Map<u128, UserView>,
    username: Seq<char>,
    email: Seq<char>,
) -> Result<(), UserErrorView> {
    if username_check(username) is Err {
        username_check(username)
    } else if email_check(email) is Err {
        email_check(email)
    } else if username_taken(reg, username) {
        Err(username_in_use(username))
    } else if email_taken(reg, email) {
        Err(email_in_use(email))
    } else {
        Ok(())
    }
}

/// The answer to the creation of a user, given the identifier drawn for it and
/// the times at which it is made and activated: the new record, active, or
/// the reason why none is made.
pub open spec fn creation(
    reg: Map<u128, UserView>,
    username: Seq<char>,
    email: Seq<char>,
    first_name: Seq<char>,
    last_name: Seq<char>,
    id: u128,
    created_at: Timestamp,
    activated_at: Timestamp,
) -> Result<UserView, UserErrorView> {
    match admission(reg, username, email) {
        Err(error) => Err(error),
        Ok(_) => if reg.contains_key(id) {
            Err(id_in_use(id))
        } else {
            Ok(
                UserView::fresh(id, username, email, first_name, last_name, created_at).with_status(
                    UserStatus::Active,
                    activated_at,
                ),
            )
        },
    }
}

/// The answer to a change of names at `now`.
pub open spec fn renaming(
    reg: Map<u128, UserView>,
    id: u128,
    first_name: Option<Seq<char>>,
    last_name: Option<Seq<char>>,
    now: Timestamp,
) -> Result<UserView, UserErrorView> {
    if reg.contains_key(id) {
        Ok(reg[id].with_names(first_name, last_name, now))
    } else {
        Err(no_such_id(id))
    }
}

/// The answer to a change of role at `now`.
pub open spec fn role_change(
    reg: Map<u128, UserView>,
    id: u128,
    role: UserRole,
    now: Timestamp,
) -> Result<UserView, UserErrorView> {
    if reg.contains_key(id) {
        Ok(reg[id].with_role(role, now))
    } else {
        Err(no_such_id(id))
    }
}

/// The answer to a change of status at `now`.
pub open spec fn status_change(
    reg: Map<u128, UserView>,
    id: u128,
    status: UserStatus,
    now: Timestamp,
) -> Result<UserView, UserErrorView> {
    if reg.contains_key(id) {
        Ok(reg[id].with_status(status, now))
    } else {
        Err(no_such_id(id))
    }
}

/// The answer to the deletion of a user.
pub open spec fn deletion(reg: Map<u128, UserView>, id: u128) -> Result<(), UserErrorView> {
    if reg.contains_key(id) {
        Ok(())
    } else {
        Err(no_such_id(id))
    }
}

/// The registry after an operation that answers with a record: the record is
/// stored under its identifier; after a failure nothing has changed.
pub open spec fn stored(reg: Map<u128, UserView>, outcome: Result<UserView, UserErrorView>) -> Map<
    u128,
    UserView,
> {
    match outcome {
        Ok(user) => reg.insert(user.id, user),
        Err(_) => reg,
    }
}

/// What the creation of a user has done, for the identifier and the times
/// that were drawn for it.
pub open spec fn created(
    before: Map<u128, UserView>,
    after: Map<u128, UserView>,
    outcome: Result<UserView, UserErrorView>,
    username: Seq<char>,
    email: Seq<char>,
    first_name: Seq<char>,
    last_name: Seq<char>,
    id: u128,
    created_at: Timestamp,
    activated_at: Timestamp,
) -> bool {
    &&& outcome == creation(
        before,
        username,
        email,
        first_name,
        last_name,
        id,
        created_at,
        activated_at,
    )
    &&& after == stored(before, outcome)
}

/// Whether `list` holds, in some order and each once, exactly the users of
/// `reg` that are `wanted`.
pub open spec fn lists(
    list: Seq<UserView>,
    reg: Map<u128, UserView>,
    wanted: spec_fn(UserView) -> bool,
) -> bool {
    &&& forall|i: int|
        0 <= i < list.len() ==> reg.contains_key(#[trigger] list[i].id) && reg[list[i].id]
            == list[i] && wanted(list[i])
    &&& forall|i: int, j: int|
        0 <= i < j < list.len() ==> #[trigger] list[i].id != #[trigger] list[j].id
    &&& forall|id: u128| #[trigger]
        reg.contains_key(id) && wanted(reg[id]) ==> exists|i: int|
            0 <= i < list.len() && #[trigger] list[i] == reg[id]
}

} // verus!
