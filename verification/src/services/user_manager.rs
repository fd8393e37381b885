//! The registry: every user under its identifier, with an index by username
//! and an index by e-mail address.

use std::collections::HashMap;
use vstd::prelude::*;
use vstd::hash_map::StringHashMap;
use vstd::std_specs::hash::spec_hash_map_iter;
use vstd::std_specs::iter::IteratorSpec;
use crate::models::user::{optional_text, views, User, UserRole, UserStatus, UserView};
use crate::services::registry::{
    admission, created, creation, deletion, email_owner, email_taken, find_by_email, find_by_id,
    find_by_username, lists, renaming, role_change, status_change, stored, username_owner,
    username_taken, well_formed,
};
use crate::utils::clock::Timestamp;
use crate::utils::errors::{result_view, UserError};
use crate::utils::ident::{fresh_id, show_id};
use crate::utils::text::enclose;
use crate::utils::validators::{email_check, username_check, validate_email, validate_username};

verus! {

broadcast use vstd::std_specs::hash::group_hash_axioms;

/// The registry of users. Its value is the map from identifiers to user
/// records; the two indexes are kept in step with it at all times.
pub struct UserManager {
    users: HashMap<u128, User>,
    username_index: StringHashMap<u128>,
    email_index: StringHashMap<u128>,
}

impl View for UserManager {
    type V = Map<u128, UserView>;

    closed spec fn view(&self) -> Map<u128, UserView> {
        self.users@.map_values(|user: User| user@)
    }
}

/// Whether a user has the role and the status asked for, where one is asked
/// for.
spec fn selected(user: UserView, role: Option<UserRole>, status: Option<UserStatus>) -> bool {
    &&& role matches Some(r) ==> user.role == r
    &&& status matches Some(s) ==> user.status == s
}

impl UserManager {
    /// Every user is stored under its own identifier, has a valid username
    /// and e-mail address, and is found under both in the indexes; every
    /// index entry leads to a user that has the key.
    #[verifier::type_invariant]
    spec fn indexed(self) -> bool {
        &&& forall|id: u128| #[trigger]
            self.users@.contains_key(id) ==> {
                let user = self.users@[id];
                &&& user.id == id
                &&& username_check(user.username@) is Ok
                &&& email_check(user.email@) is Ok
                &&& self.username_index@.contains_key(user.username@)
                &&& self.username_index@[user.username@] == id
                &&& self.email_index@.contains_key(user.email@)
                &&& self.email_index@[user.email@] == id
            }
        &&& forall|username: Seq<char>| #[trigger]
            self.username_index@.contains_key(username) ==> {
                let id = self.username_index@[username];
                &&& self.users@.contains_key(id)
                &&& self.users@[id].username@ == username
            }
        &&& forall|email: Seq<char>| #[trigger]
            self.email_index@.contains_key(email) ==> {
                let id = self.email_index@[email];
                &&& self.users@.contains_key(id)
                &&& self.users@[id].email@ == email
            }
    }

    /// What the representation invariant says about the registry's value.
    proof fn lemma_view(self)
        requires
            self.indexed(),
        ensures
            well_formed(self@),
            self@.dom() == self.users@.dom(),
            forall|id: u128| #[trigger] self@.contains_key(id) ==> self@[id] == self.users@[id]@,
            forall|username: Seq<char>|
                username_taken(self@, username) == #[trigger] self.username_index@.contains_key(
                    username,
                ),
            forall|username: Seq<char>| #[trigger]
                self.username_index@.contains_key(username) ==> username_owner(self@, username)
                    == self.username_index@[username],
            forall|email: Seq<char>|
                email_taken(self@, email) == #[trigger] self.email_index@.contains_key(email),
            forall|email: Seq<char>| #[trigger]
                self.email_index@.contains_key(email) ==> email_owner(self@, email)
                    == self.email_index@[email],
    {
        let reg = self@;
        assert(reg.dom() =~= self.users@.dom());
        assert forall|username: Seq<char>|
            username_taken(reg, username) == #[trigger] self.username_index@.contains_key(
                username,
            ) by {
            if self.username_index@.contains_key(username) {
                let id = self.username_index@[username];
                assert(reg.contains_key(id) && reg[id].username == username);
            }
        }
        assert forall|username: Seq<char>| #[trigger]
            self.username_index@.contains_key(username) implies username_owner(reg, username)
            == self.username_index@[username] by {
            let id = self.username_index@[username];
            assert(reg.contains_key(id) && reg[id].username == username);
            let chosen = username_owner(reg, username);
            assert(reg.contains_key(chosen) && reg[chosen].username == username);
        }
        assert forall|email: Seq<char>|
            email_taken(reg, email) == #[trigger] self.email_index@.contains_key(email) by {
            if self.email_index@.contains_key(email) {
                let id = self.email_index@[email];
                assert(reg.contains_key(id) && reg[id].email == email);
            }
        }
        assert forall|email: Seq<char>| #[trigger]
            self.email_index@.contains_key(email) implies email_owner(reg, email)
            == self.email_index@[email] by {
            let id = self.email_index@[email];
            assert(reg.contains_key(id) && reg[id].email == email);
            let chosen = email_owner(reg, email);
            assert(reg.contains_key(chosen) && reg[chosen].email == email);
        }
    }

    /// An empty registry.
    pub fn new() -> (manager: UserManager)
        ensures
            manager@ == Map::<u128, UserView>::empty(),
            well_formed(manager@),
    {
        let manager = UserManager {
            users: HashMap::new(),
            username_index: StringHashMap::new(),
            email_index: StringHashMap::new(),
        };
        proof {
            manager.lemma_view();
            assert(manager@ =~= Map::<u128, UserView>::empty());
        }
        manager
    }

    /// Shows that the registry is well-formed. Nothing is computed.
    pub fn note_well_formed(&self)
        ensures
            well_formed(self@),
    {
        proof {
            use_type_invariant(self);
            self.lemma_view();
        }
    }

    /// The number of users.
    pub fn len(&self) -> (count: usize)
        ensures
            count == self@.len(),
            well_formed(self@),
    {
        proof {
            use_type_invariant(self);
            self.lemma_view();
        }
        self.users.len()
    }

    /// Checks that a user with this username and this e-mail address may be
    /// created: both have the required form and neither is in use.
    pub fn check_admission(&self, username: &str, email: &str) -> (verdict: Result<(), UserError>)
        ensures
            result_view(verdict) == admission(self@, username@, email@),
            well_formed(self@),
    {
        proof {
            use_type_invariant(self);
            self.lemma_view();
        }
        match validate_username(username) {
            Err(error) => {
                return Err(error);
            },
            Ok(_) => {},
        }
        match validate_email(email) {
            Err(error) => {
                return Err(error);
            },
            Ok(_) => {},
        }
        if self.username_index.contains_key(username) {
            return Err(
                UserError::DuplicateUser(enclose("Username '", username, "' already exists")),
            );
        }
        if self.email_index.contains_key(email) {
            return Err(UserError::DuplicateUser(enclose("Email '", email, "' already exists")));
        }
        Ok(())
    }

    /// Stores a user that is admissible under an identifier that is free.
    fn insert(&mut self, user: User)
        requires
            admission(old(self)@, user.username@, user.email@) is Ok,
            !old(self)@.contains_key(user.id),
        ensures
            final(self)@ == old(self)@.insert(user.id, user@),
            well_formed(final(self)@),
    {
        proof {
            use_type_invariant(&*self);
            self.lemma_view();
        }
        let ghost before = self@;
        let mut taken = UserManager::new();
        std::mem::swap(self, &mut taken);
        let UserManager { mut users, mut username_index, mut email_index } = taken;
        let id = user.id;
        username_index.insert(user.username.clone(), id);
        email_index.insert(user.email.clone(), id);
        users.insert(id, user);
        *self = UserManager { users, username_index, email_index };
        proof {
            self.lemma_view();
            assert(self@ =~= before.insert(id, user@));
        }
    }

    /// Stores another state of a user that is there, with the same username
    /// and e-mail address.
    fn replace(&mut self, user: User)
        requires
            old(self)@.contains_key(user.id),
            old(self)@[user.id].username == user.username@,
            old(self)@[user.id].email == user.email@,
        ensures
            final(self)@ == old(self)@.insert(user.id, user@),
            well_formed(final(self)@),
    {
        proof {
            use_type_invariant(&*self);
            self.lemma_view();
        }
        let ghost before = self@;
        let mut taken = UserManager::new();
        std::mem::swap(self, &mut taken);
        let UserManager { mut users, username_index, email_index } = taken;
        let id = user.id;
        users.insert(id, user);
        *self = UserManager { users, username_index, email_index };
        proof {
            self.lemma_view();
            assert(self@ =~= before.insert(id, user@));
        }
    }

    /// Creates a user with the identifier and the times given: validates the
    /// username and the e-mail address, refuses one that is in use, refuses an
    /// identifier that is in use, and stores the new user, active.
    pub fn create_user_with(
        &mut self,
        username: String,
        email: String,
        first_name: String,
        last_name: String,
        id: u128,
        created_at: Timestamp,
        activated_at: Timestamp,
    ) -> (outcome: Result<User, UserError>)
        ensures
            result_view(outcome) == creation(
                old(self)@,
                username@,
                email@,
                first_name@,
                last_name@,
                id,
                created_at,
                activated_at,
            ),
            final(self)@ == stored(old(self)@, result_view(outcome)),
            well_formed(final(self)@),
    {
        match self.check_admission(username.as_str(), email.as_str()) {
            Err(error) => {
                return Err(error);
            },
            Ok(_) => {},
        }
        if self.get_user_by_id(id).is_ok() {
            return Err(
                UserError::DuplicateUser(
                    enclose("User ID '", show_id(id).as_str(), "' already exists"),
                ),
            );
        }
        let mut user = User::with_identity(id, username, email, first_name, last_name, created_at);
        user.activate_at(activated_at);
        self.insert(user.clone());
        Ok(user)
    }

    /// Creates a user with a random identifier, as of the current time.
    ///
    /// The identifier and the times are drawn before anything is checked;
    /// what is answered and stored is what [`UserManager::create_user_with`]
    /// answers and stores for them.
    pub fn create_user(
        &mut self,
        username: String,
        email: String,
        first_name: String,
        last_name: String,
    ) -> (outcome: Result<User, UserError>)
        ensures
            exists|id: u128, created_at: Timestamp, activated_at: Timestamp| #[trigger]
                created(
                    old(self)@,
                    final(self)@,
                    result_view(outcome),
                    username@,
                    email@,
                    first_name@,
                    last_name@,
                    id,
                    created_at,
                    activated_at,
                ),
            well_formed(final(self)@),
    {
        let id = fresh_id();
        let created_at = Timestamp::now();
        let activated_at = Timestamp::now();
        let ghost before = self@;
        let outcome = self.create_user_with(
            username,
            email,
            first_name,
            last_name,
            id,
            created_at,
            activated_at,
        );
        assert(created(
            before,
            self@,
            result_view(outcome),
            username@,
            email@,
            first_name@,
            last_name@,
            id,
            created_at,
            activated_at,
        ));
        outcome
    }

    /// The user with the identifier.
    pub fn get_user_by_id(&self, user_id: u128) -> (outcome: Result<User, UserError>)
        ensures
            result_view(outcome) == find_by_id(self@, user_id),
            well_formed(self@),
    {
        proof {
            use_type_invariant(self);
            self.lemma_view();
        }
        match self.users.get(&user_id) {
            Some(user) => Ok(user.clone()),
            None => Err(
                UserError::UserNotFound(
                    enclose("User ID '", show_id(user_id).as_str(), "' not found"),
                ),
            ),
        }
    }

    /// The user with the username.
    pub fn get_user_by_username(&self, username: &str) -> (outcome: Result<User, UserError>)
        ensures
            result_view(outcome) == find_by_username(self@, username@),
            well_formed(self@),
    {
        proof {
            use_type_invariant(self);
            self.lemma_view();
        }
        match self.username_index.get(username) {
            Some(user_id) => self.get_user_by_id(*user_id),
            None => Err(UserError::UserNotFound(enclose("Username '", username, "' not found"))),
        }
    }

    /// The user with the e-mail address.
    pub fn get_user_by_email(&self, email: &str) -> (outcome: Result<User, UserError>)
        ensures
            result_view(outcome) == find_by_email(self@, email@),
            well_formed(self@),
    {
        proof {
            use_type_invariant(self);
            self.lemma_view();
        }
        match self.email_index.get(email) {
            Some(user_id) => self.get_user_by_id(*user_id),
            None => Err(UserError::UserNotFound(enclose("Email '", email, "' not found"))),
        }
    }

    /// Changes the names of a user that are given, as of `now`.
    pub fn update_user_at(
        &mut self,
        user_id: u128,
        first_name: Option<String>,
        last_name: Option<String>,
        now: Timestamp,
    ) -> (outcome: Result<User, UserError>)
        ensures
            result_view(outcome) == renaming(
                old(self)@,
                user_id,
                optional_text(first_name),
                optional_text(last_name),
                now,
            ),
            final(self)@ == stored(old(self)@, result_view(outcome)),
            well_formed(final(self)@),
    {
        let mut user = match self.get_user_by_id(user_id) {
            Ok(user) => user,
            Err(error) => {
                return Err(error);
            },
        };
        user.rename_at(first_name, last_name, now);
        self.replace(user.clone());
        Ok(user)
    }

    /// Changes the names of a user that are given, as of the current time.
    pub fn update_user(
        &mut self,
        user_id: u128,
        first_name: Option<String>,
        last_name: Option<String>,
    ) -> (outcome: Result<User, UserError>)
        ensures
            exists|now: Timestamp|
                result_view(outcome) == #[trigger] renaming(
                    old(self)@,
                    user_id,
                    optional_text(first_name),
                    optional_text(last_name),
                    now,
                ),
            final(self)@ == stored(old(self)@, result_view(outcome)),
            well_formed(final(self)@),
    {
        self.update_user_at(user_id, first_name, last_name, Timestamp::now())
    }

    /// Removes a user, together with its two index entries.
    pub fn delete_user(&mut self, user_id: u128) -> (outcome: Result<(), UserError>)
        ensures
            result_view(outcome) == deletion(old(self)@, user_id),
            final(self)@ == old(self)@.remove(user_id),
            well_formed(final(self)@),
    {
        let user = match self.get_user_by_id(user_id) {
            Ok(user) => user,
            Err(error) => {
                assert(self@.remove(user_id) =~= self@);
                return Err(error);
            },
        };
        proof {
            use_type_invariant(&*self);
            self.lemma_view();
        }
        let ghost before = self@;
        let mut taken = UserManager::new();
        std::mem::swap(self, &mut taken);
        let UserManager { mut users, mut username_index, mut email_index } = taken;
        users.remove(&user_id);
        username_index.remove(user.username.as_str());
        email_index.remove(user.email.as_str());
        *self = UserManager { users, username_index, email_index };
        proof {
            self.lemma_view();
            assert(self@ =~= before.remove(user_id));
        }
        Ok(())
    }

    /// The users with the role and the status asked for, each once, in no
    /// particular order.
    fn select(&self, role: Option<UserRole>, status: Option<UserStatus>) -> (list: Vec<User>)
        ensures
            forall|i: int|
                0 <= i < list@.len() ==> self@.contains_key(#[trigger] list@[i].id)
                    && self@[list@[i].id] == list@[i]@ && selected(list@[i]@, role, status),
            forall|i: int, j: int|
                0 <= i < j < list@.len() ==> #[trigger] list@[i].id != #[trigger] list@[j].id,
            forall|id: u128| #[trigger]
                self@.contains_key(id) && selected(self@[id], role, status) ==> exists|i: int|
                    0 <= i < list@.len() && (#[trigger] list@[i])@ == self@[id],
            role is None && status is None ==> list@.len() == self@.len(),
    {
        proof {
            use_type_invariant(self);
            self.lemma_view();
        }
        let ghost walk = spec_hash_map_iter(&self.users).remaining();
        let ghost mut origin: Seq<int> = Seq::empty();
        let mut list: Vec<User> = Vec::new();
        for entry in it: self.users.iter()
            invariant
                it.seq() == walk,
                origin.len() == list@.len(),
                list@.len() <= it.index(),
                role is None && status is None ==> list@.len() == it.index(),
                forall|k: int|
                    0 <= k < list@.len() ==> 0 <= #[trigger] origin[k] < it.index() && list@[k]
                        == *walk[origin[k]].1,
                forall|k: int, l: int|
                    0 <= k < l < list@.len() ==> #[trigger] origin[k] < #[trigger] origin[l],
                forall|k: int|
                    0 <= k < list@.len() ==> selected(#[trigger] list@[k]@, role, status),
                forall|p: int|
                    0 <= p < it.index() && selected((*walk[p].1)@, role, status) ==> exists|k: int|
                        0 <= k < list@.len() && #[trigger] origin[k] == p,
        {
            let user = entry.1;
            let role_fits = match role {
                Some(r) => user.role == r,
                None => true,
            };
            let status_fits = match status {
                Some(s) => user.status == s,
                None => true,
            };
            if role_fits && status_fits {
                let ghost position = it.index();
                let ghost earlier = origin;
                list.push(user.clone());
                proof {
                    origin = origin.push(position);
                    assert forall|p: int|
                        0 <= p <= it.index() && selected(
                            (*walk[p].1)@,
                            role,
                            status,
                        ) implies exists|k: int|
                        0 <= k < list@.len() && #[trigger] origin[k] == p by {
                        if p == position {
                            assert(origin[list@.len() - 1] == p);
                        } else {
                            let k = choose|k: int|
                                0 <= k < earlier.len() && #[trigger] earlier[k] == p;
                            assert(origin[k] == p);
                        }
                    }
                }
            } else {
                assert(user == walk[it.index()].1);
            }
        }
        proof {
            let reg = self@;
            assert(walk.len() == self.users@.dom().len());
            assert forall|i: int| 0 <= i < list@.len() implies reg.contains_key(
                #[trigger] list@[i].id,
            ) && reg[list@[i].id] == list@[i]@ by {
                assert(self.users@.contains_key(*walk[origin[i]].0));
            }
            assert forall|i: int, j: int| 0 <= i < j < list@.len() implies #[trigger] list@[i].id
                != #[trigger] list@[j].id by {
                assert(self.users@.contains_key(*walk[origin[i]].0));
                assert(self.users@.contains_key(*walk[origin[j]].0));
                if list@[i].id == list@[j].id {
                    assert(walk[origin[i]] == walk[origin[j]]);
                }
            }
            assert forall|id: u128| #[trigger]
                reg.contains_key(id) && selected(reg[id], role, status) implies exists|i: int|
                0 <= i < list@.len() && (#[trigger] list@[i])@ == reg[id] by {
                assert(self.users@.contains_key(id));
                let pair = (&id, &self.users@[id]);
                assert(walk.contains(pair));
                let p = choose|p: int| 0 <= p < walk.len() && walk[p] == pair;
                let k = choose|k: int| 0 <= k < list@.len() && #[trigger] origin[k] == p;
                assert(list@[k]@ == reg[id]);
            }
        }
        list
    }

    /// What `select` has found is a list of the users that `wanted` accepts,
    /// if `wanted` accepts the users with the role and the status asked for.
    proof fn lemma_selected(
        self,
        list: Seq<User>,
        role: Option<UserRole>,
        status: Option<UserStatus>,
        wanted: spec_fn(UserView) -> bool,
    )
        requires
            forall|i: int|
                0 <= i < list.len() ==> self@.contains_key(#[trigger] list[i].id)
                    && self@[list[i].id] == list[i]@ && selected(list[i]@, role, status),
            forall|i: int, j: int|
                0 <= i < j < list.len() ==> #[trigger] list[i].id != #[trigger] list[j].id,
            forall|id: u128| #[trigger]
                self@.contains_key(id) && selected(self@[id], role, status) ==> exists|i: int|
                    0 <= i < list.len() && (#[trigger] list[i])@ == self@[id],
            forall|user: UserView| #[trigger] wanted(user) == selected(user, role, status),
        ensures
            lists(views(list), self@, wanted),
    {
        let shown = views(list);
        let reg = self@;
        assert forall|i: int| 0 <= i < shown.len() implies reg.contains_key(#[trigger] shown[i].id)
            && reg[shown[i].id] == shown[i] && wanted(shown[i]) by {
            assert(reg.contains_key(list[i].id));
        }
        assert forall|i: int, j: int| 0 <= i < j < shown.len() implies #[trigger] shown[i].id
            != #[trigger] shown[j].id by {
            assert(list[i].id != list[j].id);
        }
        assert forall|id: u128| #[trigger] reg.contains_key(id) && wanted(reg[id]) implies exists|
            i: int,
        |
            0 <= i < shown.len() && #[trigger] shown[i] == reg[id] by {
            assert(selected(reg[id], role, status));
            let i = choose|i: int| 0 <= i < list.len() && (#[trigger] list[i])@ == reg[id];
            assert(shown[i] == reg[id]);
        }
    }

    /// All users, each once, in no particular order.
    pub fn list_users(&self) -> (list: Vec<User>)
        ensures
            lists(views(list@), self@, |user: UserView| true),
            list@.len() == self@.len(),
            well_formed(self@),
    {
        proof {
            use_type_invariant(self);
            self.lemma_view();
        }
        let list = self.select(None, None);
        proof {
            self.lemma_selected(list@, None, None, |user: UserView| true);
        }
        list
    }

    /// The active users, each once, in no particular order.
    pub fn get_active_users(&self) -> (list: Vec<User>)
        ensures
            lists(views(list@), self@, |user: UserView| user.status == UserStatus::Active),
            well_formed(self@),
    {
        proof {
            use_type_invariant(self);
            self.lemma_view();
        }
        let list = self.select(None, Some(UserStatus::Active));
        proof {
            self.lemma_selected(
                list@,
                None,
                Some(UserStatus::Active),
                |user: UserView| user.status == UserStatus::Active,
            );
        }
        list
    }

    /// The users with the role, each once, in no particular order.
    pub fn get_users_by_role(&self, role: UserRole) -> (list: Vec<User>)
        ensures
            lists(views(list@), self@, |user: UserView| user.role == role),
            well_formed(self@),
    {
        proof {
            use_type_invariant(self);
            self.lemma_view();
        }
        let list = self.select(Some(role), None);
        proof {
            self.lemma_selected(list@, Some(role), None, |user: UserView| user.role == role);
        }
        list
    }

    /// Gives a user another role, as of `now`.
    pub fn set_user_role_at(&mut self, user_id: u128, role: UserRole, now: Timestamp) -> (outcome:
        Result<User, UserError>)
        ensures
            result_view(outcome) == role_change(old(self)@, user_id, role, now),
            final(self)@ == stored(old(self)@, result_view(outcome)),
            well_formed(final(self)@),
    {
        let mut user = match self.get_user_by_id(user_id) {
            Ok(user) => user,
            Err(error) => {
                return Err(error);
            },
        };
        user.set_role_at(role, now);
        self.replace(user.clone());
        Ok(user)
    }

    /// Gives a user another role, as of the current time.
    pub fn set_user_role(&mut self, user_id: u128, role: UserRole) -> (outcome: Result<
        User,
        UserError,
    >)
        ensures
            exists|now: Timestamp|
                result_view(outcome) == #[trigger] role_change(old(self)@, user_id, role, now),
            final(self)@ == stored(old(self)@, result_view(outcome)),
            well_formed(final(self)@),
    {
        self.set_user_role_at(user_id, role, Timestamp::now())
    }

    /// Makes a user active, as of `now`.
    pub fn activate_user_at(&mut self, user_id: u128, now: Timestamp) -> (outcome: Result<
        User,
        UserError,
    >)
        ensures
            result_view(outcome) == status_change(old(self)@, user_id, UserStatus::Active, now),
            final(self)@ == stored(old(self)@, result_view(outcome)),
            well_formed(final(self)@),
    {
        let mut user = match self.get_user_by_id(user_id) {
            Ok(user) => user,
            Err(error) => {
                return Err(error);
            },
        };
        user.activate_at(now);
        self.replace(user.clone());
        Ok(user)
    }

    /// Makes a user active, as of the current time.
    pub fn activate_user(&mut self, user_id: u128) -> (outcome: Result<User, UserError>)
        ensures
            exists|now: Timestamp|
                result_view(outcome) == #[trigger] status_change(
                    old(self)@,
                    user_id,
                    UserStatus::Active,
                    now,
                ),
            final(self)@ == stored(old(self)@, result_view(outcome)),
            well_formed(final(self)@),
    {
        self.activate_user_at(user_id, Timestamp::now())
    }

    /// Makes a user inactive, as of `now`.
    pub fn deactivate_user_at(&mut self, user_id: u128, now: Timestamp) -> (outcome: Result<
        User,
        UserError,
    >)
        ensures
            result_view(outcome) == status_change(old(self)@, user_id, UserStatus::Inactive, now),
            final(self)@ == stored(old(self)@, result_view(outcome)),
            well_formed(final(self)@),
    {
        let mut user = match self.get_user_by_id(user_id) {
            Ok(user) => user,
            Err(error) => {
                return Err(error);
            },
        };
        user.deactivate_at(now);
        self.replace(user.clone());
        Ok(user)
    }

    /// Makes a user inactive, as of the current time.
    pub fn deactivate_user(&mut self, user_id: u128) -> (outcome: Result<User, UserError>)
        ensures
            exists|now: Timestamp|
                result_view(outcome) == #[trigger] status_change(
                    old(self)@,
                    user_id,
                    UserStatus::Inactive,
                    now,
                ),
            final(self)@ == stored(old(self)@, result_view(outcome)),
            well_formed(final(self)@),
    {
        self.deactivate_user_at(user_id, Timestamp::now())
    }
}

} // verus!
