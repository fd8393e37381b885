//! The user record and the operations that change one.

use vstd::prelude::*;
use crate::utils::clock::Timestamp;
use crate::utils::ident::{fresh_id, is_random_id};

verus! {

/// What a user may do.
#[derive(Debug, Clone, Copy, PartialEq, Eq, Structural)]
pub enum UserRole {
    Admin,
    Manager,
    User,
    Guest,
}

/// Where a user stands in its lifecycle.
#[derive(Debug, Clone, Copy, PartialEq, Eq, Structural)]
pub enum UserStatus {
    Active,
    Inactive,
    Suspended,
    Pending,
}

/// A user record.
#[derive(Debug, PartialEq, Eq)]
pub struct User {
    pub id: u128,
    pub username: String,
    pub email: String,
    pub first_name: String,
    pub last_name: String,
    pub role: UserRole,
    pub status: UserStatus,
    pub created_at: Timestamp,
    pub updated_at: Timestamp,
}

/// The name and address of a person who is not (yet) a user.
#[derive(Debug, PartialEq, Eq)]
pub struct Person {
    pub first_name: String,
    pub last_name: String,
    pub email: String,
}

/// The mathematical value of a [`User`].
pub ghost struct UserView {
    pub id: u128,
    pub username: Seq<char>,
    pub email: Seq<char>,
    pub first_name: Seq<char>,
    pub last_name: Seq<char>,
    pub role: UserRole,
    pub status: UserStatus,
    pub created_at: Timestamp,
    pub updated_at: Timestamp,
}

impl UserView {
    /// The record of a user made at `now`: an ordinary user, pending, never
    /// updated since.
    pub open spec fn fresh(
        id: u128,
        username: Seq<char>,
        email: Seq<char>,
        first_name: Seq<char>,
        last_name: Seq<char>,
        now: Timestamp,
    ) -> UserView {
        UserView {
            id,
            username,
            email,
            first_name,
            last_name,
            role: UserRole::User,
            status: UserStatus::Pending,
            created_at: now,
            updated_at: now,
        }
    }

    /// The record after its status was set at `now`.
    pub open spec fn with_status(self, status: UserStatus, now: Timestamp) -> UserView {
        UserView { status, updated_at: now, ..self }
    }

    /// The record after its role was set at `now`.
    pub open spec fn with_role(self, role: UserRole, now: Timestamp) -> UserView {
        UserView { role, updated_at: now, ..self }
    }

    /// The record after a change of names at `now`; a name that is not given
    /// stays as it is.
    pub open spec fn with_names(
        self,
        first_name: Option<Seq<char>>,
        last_name: Option<Seq<char>>,
        now: Timestamp,
    ) -> UserView {
        UserView {
            first_name: match first_name {
                Some(name) => name,
                None => self.first_name,
            },
            last_name: match last_name {
                Some(name) => name,
                None => self.last_name,
            },
            updated_at: now,
            ..self
        }
    }

    /// Whether the record was last updated no earlier than it was made.
    pub open spec fn in_order(self) -> bool {
        self.created_at.not_after(self.updated_at)
    }
}

/// The text of a name that may be absent.
pub open spec fn optional_text(name: Option<String>) -> Option<Seq<char>> {
    match name {
        Some(name) => Some(name@),
        None => None,
    }
}

/// The mathematical values of a list of users.
pub open spec fn views(list: Seq<User>) -> Seq<UserView> {
    Seq::new(list.len(), |i: int| list[i]@)
}

impl View for User {
    type V = UserView;

    open spec fn view(&self) -> UserView {
        UserView {
            id: self.id,
            username: self.username@,
            email: self.email@,
            first_name: self.first_name@,
            last_name: self.last_name@,
            role: self.role,
            status: self.status,
            created_at: self.created_at,
            updated_at: self.updated_at,
        }
    }
}

impl Clone for User {
    fn clone(&self) -> (copy: User)
        ensures
            copy == *self,
    {
        User {
            id: self.id,
            username: self.username.clone(),
            email: self.email.clone(),
            first_name: self.first_name.clone(),
            last_name: self.last_name.clone(),
            role: self.role,
            status: self.status,
            created_at: self.created_at,
            updated_at: self.updated_at,
        }
    }
}

impl Clone for Person {
    fn clone(&self) -> (copy: Person)
        ensures
            copy == *self,
    {
        Person {
            first_name: self.first_name.clone(),
            last_name: self.last_name.clone(),
            email: self.email.clone(),
        }
    }
}

impl User {
    /// A new user with the given identifier, made at `now`.
    pub fn with_identity(
        id: u128,
        username: String,
        email: String,
        first_name: String,
        last_name: String,
        now: Timestamp,
    ) -> (user: User)
        ensures
            user@ == UserView::fresh(id, username@, email@, first_name@, last_name@, now),
    {
        User {
            id,
            username,
            email,
            first_name,
            last_name,
            role: UserRole::User,
            status: UserStatus::Pending,
            created_at: now,
            updated_at: now,
        }
    }

    /// A new user with a random identifier, made now. No field is validated.
    pub fn new(username: String, email: String, first_name: String, last_name: String) -> (user:
        User)
        ensures
            user@ == UserView::fresh(
                user.id,
                username@,
                email@,
                first_name@,
                last_name@,
                user.created_at,
            ),
            is_random_id(user.id),
    {
        User::with_identity(fresh_id(), username, email, first_name, last_name, Timestamp::now())
    }

    /// Makes the user active, as of `now`.
    pub fn activate_at(&mut self, now: Timestamp)
        ensures
            final(self)@ == old(self)@.with_status(UserStatus::Active, now),
    {
        self.status = UserStatus::Active;
        self.updated_at = now;
    }

    /// Makes the user active, as of the current time.
    pub fn activate(&mut self)
        ensures
            final(self)@ == old(self)@.with_status(UserStatus::Active, final(self).updated_at),
    {
        self.activate_at(Timestamp::now());
    }

    /// Makes the user inactive, as of `now`.
    pub fn deactivate_at(&mut self, now: Timestamp)
        ensures
            final(self)@ == old(self)@.with_status(UserStatus::Inactive, now),
    {
        self.status = UserStatus::Inactive;
        self.updated_at = now;
    }

    /// Makes the user inactive, as of the current time.
    pub fn deactivate(&mut self)
        ensures
            final(self)@ == old(self)@.with_status(UserStatus::Inactive, final(self).updated_at),
    {
        self.deactivate_at(Timestamp::now());
    }

    /// Gives the user another role, as of `now`.
    pub fn set_role_at(&mut self, role: UserRole, now: Timestamp)
        ensures
            final(self)@ == old(self)@.with_role(role, now),
    {
        self.role = role;
        self.updated_at = now;
    }

    /// Gives the user another role, as of the current time.
    pub fn set_role(&mut self, role: UserRole)
        ensures
            final(self)@ == old(self)@.with_role(role, final(self).updated_at),
    {
        self.set_role_at(role, Timestamp::now());
    }

    /// Changes the names that are given, as of `now`.
    pub fn rename_at(
        &mut self,
        first_name: Option<String>,
        last_name: Option<String>,
        now: Timestamp,
    )
        ensures
            final(self)@ == old(self)@.with_names(
                optional_text(first_name),
                optional_text(last_name),
                now,
            ),
    {
        if let Some(name) = first_name {
            self.first_name = name;
        }
        if let Some(name) = last_name {
            self.last_name = name;
        }
        self.updated_at = now;
    }
}

} // verus!
