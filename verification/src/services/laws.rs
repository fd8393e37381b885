//! Laws of the registry, proved of its mathematical model. The operations of
//! `UserManager` are specified by the same functions, so each law holds of
//! the registry that runs.

use vstd::prelude::*;
use crate::models::user::{UserRole, UserStatus, UserView};
use crate::services::registry::{
    admission, creation, deletion, email_owner, email_taken, find_by_email, find_by_id,
    find_by_username, lists, no_such_email, no_such_username, renaming, role_change,
    status_change, stored, username_owner, username_taken, well_formed,
};
use crate::utils::clock::Timestamp;
use crate::utils::errors::UserErrorView;
use crate::utils::validators::{byte_len, email_check, username_check};

verus! {

/// One operation that may change the registry, with everything it is given
/// and everything it draws.
pub ghost enum Step {
    Create {
        username: Seq<char>,
        email: Seq<char>,
        first_name: Seq<char>,
        last_name: Seq<char>,
        id: u128,
        created_at: Timestamp,
        activated_at: Timestamp,
    },
    Rename { id: u128, first: Option<Seq<char>>, last: Option<Seq<char>>, now: Timestamp },
    SetRole { id: u128, role: UserRole, now: Timestamp },
    SetStatus { id: u128, status: UserStatus, now: Timestamp },
    Delete { id: u128 },
}

impl Step {
    /// Whether the operation succeeds on `reg`.
    pub open spec fn succeeds(self, reg: Map<u128, UserView>) -> bool {
        match self {
            Step::Create {
                username,
                email,
                first_name,
                last_name,
                id,
                created_at,
                activated_at,
            } => creation(
                reg,
                username,
                email,
                first_name,
                last_name,
                id,
                created_at,
                activated_at,
            ) is Ok,
            Step::Rename { id, first, last, now } => renaming(reg, id, first, last, now) is Ok,
            Step::SetRole { id, role, now } => role_change(reg, id, role, now) is Ok,
            Step::SetStatus { id, status, now } => status_change(reg, id, status, now) is Ok,
            Step::Delete { id } => deletion(reg, id) is Ok,
        }
    }

    /// The registry that the operation leaves behind.
    pub open spec fn after(self, reg: Map<u128, UserView>) -> Map<u128, UserView> {
        match self {
            Step::Create {
                username,
                email,
                first_name,
                last_name,
                id,
                created_at,
                activated_at,
            } => stored(
                reg,
                creation(
                    reg,
                    username,
                    email,
                    first_name,
                    last_name,
                    id,
                    created_at,
                    activated_at,
                ),
            ),
            Step::Rename { id, first, last, now } => stored(
                reg,
                renaming(reg, id, first, last, now),
            ),
            Step::SetRole { id, role, now } => stored(reg, role_change(reg, id, role, now)),
            Step::SetStatus { id, status, now } => stored(
                reg,
                status_change(reg, id, status, now),
            ),
            Step::Delete { id } => reg.remove(id),
        }
    }
}

/// The registry after a sequence of operations, carried out in order.
pub open spec fn after_all(reg: Map<u128, UserView>, steps: Seq<Step>) -> Map<u128, UserView>
    decreases steps.len(),
{
    if steps.len() == 0 {
        reg
    } else {
        steps.last().after(after_all(reg, steps.drop_last()))
    }
}

/// How many creations of a sequence of operations succeed.
pub open spec fn creations(reg: Map<u128, UserView>, steps: Seq<Step>) -> nat
    decreases steps.len(),
{
    if steps.len() == 0 {
        0
    } else {
        let earlier = steps.drop_last();
        let counted: nat = if steps.last() is Create && steps.last().succeeds(
            after_all(reg, earlier),
        ) {
            1
        } else {
            0
        };
        creations(reg, earlier) + counted
    }
}

/// How many deletions of a sequence of operations succeed.
pub open spec fn deletions(reg: Map<u128, UserView>, steps: Seq<Step>) -> nat
    decreases steps.len(),
{
    if steps.len() == 0 {
        0
    } else {
        let earlier = steps.drop_last();
        let counted: nat = if steps.last() is Delete && steps.last().succeeds(
            after_all(reg, earlier),
        ) {
            1
        } else {
            0
        };
        deletions(reg, earlier) + counted
    }
}

/// In a well-formed registry a username in use is the username of exactly
/// one user, which a lookup by that username finds; and likewise for an
/// e-mail address.
pub proof fn lemma_owners(reg: Map<u128, UserView>, id: u128)
    requires
        well_formed(reg),
        reg.contains_key(id),
    ensures
        username_taken(reg, reg[id].username),
        username_owner(reg, reg[id].username) == id,
        email_taken(reg, reg[id].email),
        email_owner(reg, reg[id].email) == id,
{
    let by_name = username_owner(reg, reg[id].username);
    assert(reg.contains_key(by_name) && reg[by_name].username == reg[id].username);
    let by_email = email_owner(reg, reg[id].email);
    assert(reg.contains_key(by_email) && reg[by_email].email == reg[id].email);
}

/// Storing a new state of a user that is there, with the same identifier,
/// username and e-mail address, keeps the registry well-formed and keeps
/// every username and e-mail address in use or free as it was.
pub proof fn lemma_revision_keeps_well_formed(reg: Map<u128, UserView>, revised: UserView)
    requires
        well_formed(reg),
        reg.contains_key(revised.id),
        reg[revised.id].username == revised.username,
        reg[revised.id].email == revised.email,
    ensures
        well_formed(reg.insert(revised.id, revised)),
        reg.insert(revised.id, revised).dom() == reg.dom(),
        forall|username: Seq<char>|
            username_taken(reg.insert(revised.id, revised), username) == username_taken(
                reg,
                username,
            ),
        forall|email: Seq<char>|
            email_taken(reg.insert(revised.id, revised), email) == email_taken(reg, email),
{
    let next = reg.insert(revised.id, revised);
    assert(next.dom() =~= reg.dom());
    assert forall|username: Seq<char>| username_taken(next, username) == username_taken(
        reg,
        username,
    ) by {
        if username_taken(next, username) {
            let id = choose|id: u128| #[trigger]
                next.contains_key(id) && next[id].username == username;
            assert(reg.contains_key(id) && reg[id].username == username);
        }
        if username_taken(reg, username) {
            let id = choose|id: u128| #[trigger]
                reg.contains_key(id) && reg[id].username == username;
            assert(next.contains_key(id) && next[id].username == username);
        }
    }
    assert forall|email: Seq<char>| email_taken(next, email) == email_taken(reg, email) by {
        if email_taken(next, email) {
            let id = choose|id: u128| #[trigger] next.contains_key(id) && next[id].email == email;
            assert(reg.contains_key(id) && reg[id].email == email);
        }
        if email_taken(reg, email) {
            let id = choose|id: u128| #[trigger] reg.contains_key(id) && reg[id].email == email;
            assert(next.contains_key(id) && next[id].email == email);
        }
    }
}

/// Every operation keeps the registry well-formed: identifiers, usernames and
/// e-mail addresses stay unique, and every stored username and e-mail address
/// has the required form.
pub proof fn law_step_keeps_well_formed(reg: Map<u128, UserView>, step: Step)
    requires
        well_formed(reg),
    ensures
        well_formed(step.after(reg)),
{
    match step {
        Step::Create { username, email, first_name, last_name, id, created_at, activated_at } => {
            let outcome = creation(
                reg,
                username,
                email,
                first_name,
                last_name,
                id,
                created_at,
                activated_at,
            );
            if let Ok(user) = outcome {
                let next = reg.insert(id, user);
                assert forall|a: u128, b: u128|
                    #![trigger next.contains_key(a), next.contains_key(b)]
                    next.contains_key(a) && next.contains_key(b) && next[a].username
                        == next[b].username implies a == b by {
                    if a != b {
                        let other = if a == id {
                            b
                        } else {
                            a
                        };
                        assert(reg.contains_key(other));
                    }
                }
                assert forall|a: u128, b: u128|
                    #![trigger next.contains_key(a), next.contains_key(b)]
                    next.contains_key(a) && next.contains_key(b) && next[a].email
                        == next[b].email implies a == b by {
                    if a != b {
                        let other = if a == id {
                            b
                        } else {
                            a
                        };
                        assert(reg.contains_key(other));
                    }
                }
            }
        },
        Step::Rename { id, first, last, now } => {
            if reg.contains_key(id) {
                lemma_revision_keeps_well_formed(reg, reg[id].with_names(first, last, now));
            }
        },
        Step::SetRole { id, role, now } => {
            if reg.contains_key(id) {
                lemma_revision_keeps_well_formed(reg, reg[id].with_role(role, now));
            }
        },
        Step::SetStatus { id, status, now } => {
            if reg.contains_key(id) {
                lemma_revision_keeps_well_formed(reg, reg[id].with_status(status, now));
            }
        },
        Step::Delete { id } => {},
    }
}

/// Whatever operations are carried out, in whatever order, the registry stays
/// well-formed.
pub proof fn law_steps_keep_well_formed(reg: Map<u128, UserView>, steps: Seq<Step>)
    requires
        well_formed(reg),
    ensures
        well_formed(after_all(reg, steps)),
    decreases steps.len(),
{
    if steps.len() > 0 {
        law_steps_keep_well_formed(reg, steps.drop_last());
        law_step_keeps_well_formed(after_all(reg, steps.drop_last()), steps.last());
    }
}

/// A creation with a username and an e-mail address that have the required
/// form and are not in use, and with an identifier that is not in use,
/// succeeds: the new user is active and is stored under its identifier.
pub proof fn law_creation_succeeds(
    reg: Map<u128, UserView>,
    username: Seq<char>,
    email: Seq<char>,
    first_name: Seq<char>,
    last_name: Seq<char>,
    id: u128,
    created_at: Timestamp,
    activated_at: Timestamp,
)
    requires
        username_check(username) is Ok,
        email_check(email) is Ok,
        !username_taken(reg, username),
        !email_taken(reg, email),
        !reg.contains_key(id),
    ensures
        ({
            let outcome = creation(
                reg,
                username,
                email,
                first_name,
                last_name,
                id,
                created_at,
                activated_at,
            );
            &&& outcome is Ok
            &&& outcome->Ok_0.status == UserStatus::Active
            &&& outcome->Ok_0.role == UserRole::User
            &&& outcome->Ok_0.id == id
            &&& outcome->Ok_0.username == username
            &&& outcome->Ok_0.email == email
            &&& outcome->Ok_0.first_name == first_name
            &&& outcome->Ok_0.last_name == last_name
            &&& outcome->Ok_0.created_at == created_at
            &&& outcome->Ok_0.updated_at == activated_at
            &&& stored(reg, outcome) == reg.insert(id, outcome->Ok_0)
        }),
{
}

/// A creation with a username that is in use fails with `DuplicateUser`, if
/// the e-mail address has the required form, and leaves the registry as it
/// was.
pub proof fn law_duplicate_username_is_refused(
    reg: Map<u128, UserView>,
    username: Seq<char>,
    email: Seq<char>,
    first_name: Seq<char>,
    last_name: Seq<char>,
    id: u128,
    created_at: Timestamp,
    activated_at: Timestamp,
)
    requires
        well_formed(reg),
        username_taken(reg, username),
        email_check(email) is Ok,
    ensures
        ({
            let outcome = creation(
                reg,
                username,
                email,
                first_name,
                last_name,
                id,
                created_at,
                activated_at,
            );
            &&& outcome matches Err(error) && error is DuplicateUser
            &&& stored(reg, outcome) == reg
        }),
{
    let owner = username_owner(reg, username);
    assert(reg.contains_key(owner) && reg[owner].username == username);
}

/// A creation with an e-mail address that is in use fails with
/// `DuplicateUser`, if the username has the required form, and leaves the
/// registry as it was.
pub proof fn law_duplicate_email_is_refused(
    reg: Map<u128, UserView>,
    username: Seq<char>,
    email: Seq<char>,
    first_name: Seq<char>,
    last_name: Seq<char>,
    id: u128,
    created_at: Timestamp,
    activated_at: Timestamp,
)
    requires
        well_formed(reg),
        email_taken(reg, email),
        username_check(username) is Ok,
    ensures
        ({
            let outcome = creation(
                reg,
                username,
                email,
                first_name,
                last_name,
                id,
                created_at,
                activated_at,
            );
            &&& outcome matches Err(error) && error is DuplicateUser
            &&& stored(reg, outcome) == reg
        }),
{
    let owner = email_owner(reg, email);
    assert(reg.contains_key(owner) && reg[owner].email == email);
}

/// A creation with a username that has not the required form fails with
/// `ValidationError` and leaves the registry as it was.
pub proof fn law_invalid_username_is_refused(
    reg: Map<u128, UserView>,
    username: Seq<char>,
    email: Seq<char>,
    first_name: Seq<char>,
    last_name: Seq<char>,
    id: u128,
    created_at: Timestamp,
    activated_at: Timestamp,
)
    requires
        username_check(username) is Err,
    ensures
        ({
            let outcome = creation(
                reg,
                username,
                email,
                first_name,
                last_name,
                id,
                created_at,
                activated_at,
            );
            &&& outcome matches Err(error) && error is ValidationError
            &&& stored(reg, outcome) == reg
        }),
{
}

/// A creation with a username of fewer than 3 or more than 50 bytes fails
/// with `ValidationError` and leaves the registry as it was.
pub proof fn law_username_of_wrong_length_is_refused(
    reg: Map<u128, UserView>,
    username: Seq<char>,
    email: Seq<char>,
    first_name: Seq<char>,
    last_name: Seq<char>,
    id: u128,
    created_at: Timestamp,
    activated_at: Timestamp,
)
    requires
        byte_len(username) < 3 || byte_len(username) > 50,
    ensures
        ({
            let outcome = creation(
                reg,
                username,
                email,
                first_name,
                last_name,
                id,
                created_at,
                activated_at,
            );
            &&& outcome matches Err(error) && error is ValidationError
            &&& stored(reg, outcome) == reg
        }),
{
}

/// A creation with an e-mail address that has not the required form fails
/// with `ValidationError` and leaves the registry as it was.
pub proof fn law_invalid_email_is_refused(
    reg: Map<u128, UserView>,
    username: Seq<char>,
    email: Seq<char>,
    first_name: Seq<char>,
    last_name: Seq<char>,
    id: u128,
    created_at: Timestamp,
    activated_at: Timestamp,
)
    requires
        email_check(email) is Err,
    ensures
        ({
            let outcome = creation(
                reg,
                username,
                email,
                first_name,
                last_name,
                id,
                created_at,
                activated_at,
            );
            &&& outcome matches Err(error) && error is ValidationError
            &&& stored(reg, outcome) == reg
        }),
{
}

/// After a user was created and then deleted, the registry is as it was
/// before: no lookup by its username or by its e-mail address finds anyone,
/// and both may be used for a new user.
pub proof fn law_deletion_frees_username_and_email(
    reg: Map<u128, UserView>,
    username: Seq<char>,
    email: Seq<char>,
    first_name: Seq<char>,
    last_name: Seq<char>,
    id: u128,
    created_at: Timestamp,
    activated_at: Timestamp,
)
    requires
        well_formed(reg),
        creation(
            reg,
            username,
            email,
            first_name,
            last_name,
            id,
            created_at,
            activated_at,
        ) is Ok,
    ensures
        ({
            let with_user = stored(
                reg,
                creation(
                    reg,
                    username,
                    email,
                    first_name,
                    last_name,
                    id,
                    created_at,
                    activated_at,
                ),
            );
            let without = with_user.remove(id);
            &&& find_by_username(with_user, username) is Ok
            &&& find_by_email(with_user, email) is Ok
            &&& deletion(with_user, id) is Ok
            &&& without == reg
            &&& find_by_id(without, id) is Err
            &&& find_by_username(without, username) == Err::<UserView, UserErrorView>(
                no_such_username(username),
            )
            &&& find_by_email(without, email) == Err::<UserView, UserErrorView>(
                no_such_email(email),
            )
            &&& admission(without, username, email) is Ok
        }),
{
    let outcome = creation(
        reg,
        username,
        email,
        first_name,
        last_name,
        id,
        created_at,
        activated_at,
    );
    let with_user = stored(reg, outcome);
    assert(with_user.contains_key(id) && with_user[id].username == username);
    assert(with_user.contains_key(id) && with_user[id].email == email);
    assert(with_user.remove(id) =~= reg);
}

/// The lookups by identifier, by username and by e-mail address of a user
/// that is there all find that user.
pub proof fn law_lookups_agree(reg: Map<u128, UserView>, id: u128)
    requires
        well_formed(reg),
        reg.contains_key(id),
    ensures
        find_by_id(reg, id) == Ok::<UserView, UserErrorView>(reg[id]),
        find_by_username(reg, reg[id].username) == Ok::<UserView, UserErrorView>(reg[id]),
        find_by_email(reg, reg[id].email) == Ok::<UserView, UserErrorView>(reg[id]),
        reg[id].id == id,
{
    lemma_owners(reg, id);
}

/// The identifiers of the users of `reg` that are `wanted`.
pub open spec fn wanted_ids(reg: Map<u128, UserView>, wanted: spec_fn(UserView) -> bool) -> Set<
    u128,
> {
    reg.dom().filter(|id: u128| wanted(reg[id]))
}

/// A list of the users that are wanted has one entry for each of them: as
/// many entries as there are such users, whatever the order. A list of all
/// users has as many entries as the registry has users.
pub proof fn law_lists_are_complete(
    list: Seq<UserView>,
    reg: Map<u128, UserView>,
    wanted: spec_fn(UserView) -> bool,
)
    requires
        well_formed(reg),
        lists(list, reg, wanted),
    ensures
        list.len() == wanted_ids(reg, wanted).len(),
        (forall|user: UserView| #[trigger] wanted(user)) ==> list.len() == reg.len(),
{
    let ids = Seq::new(list.len(), |i: int| list[i].id);
    assert(ids.no_duplicates()) by {
        assert forall|i: int, j: int| 0 <= i < ids.len() && 0 <= j < ids.len() && i != j implies ids[i]
            != ids[j] by {
            if i < j {
                assert(list[i].id != list[j].id);
            } else {
                assert(list[j].id != list[i].id);
            }
        }
    }
    ids.unique_seq_to_set();
    assert(ids.to_set() =~= wanted_ids(reg, wanted)) by {
        assert forall|id: u128| ids.to_set().contains(id) implies wanted_ids(reg, wanted).contains(
            id,
        ) by {
            let i = choose|i: int| 0 <= i < ids.len() && ids[i] == id;
            assert(reg.contains_key(list[i].id));
        }
        assert forall|id: u128| wanted_ids(reg, wanted).contains(id) implies ids.to_set().contains(
            id,
        ) by {
            assert(reg.contains_key(id) && wanted(reg[id]));
            let i = choose|i: int| 0 <= i < list.len() && #[trigger] list[i] == reg[id];
            assert(reg.contains_key(list[i].id));
            assert(ids[i] == id);
        }
    }
    if forall|user: UserView| #[trigger] wanted(user) {
        assert(wanted_ids(reg, wanted) =~= reg.dom());
    }
}

/// A change of names changes the names that are given and the time of the
/// last update, and nothing else; the user was then updated no earlier than
/// it was made, if it was made no later than the time of the change.
pub proof fn law_renaming_changes_names_only(
    reg: Map<u128, UserView>,
    id: u128,
    first_name: Option<Seq<char>>,
    last_name: Option<Seq<char>>,
    now: Timestamp,
)
    requires
        reg.contains_key(id),
    ensures
        ({
            let outcome = renaming(reg, id, first_name, last_name, now);
            let before = reg[id];
            &&& outcome is Ok
            &&& outcome->Ok_0.first_name == (match first_name {
                Some(name) => name,
                None => before.first_name,
            })
            &&& outcome->Ok_0.last_name == (match last_name {
                Some(name) => name,
                None => before.last_name,
            })
            &&& outcome->Ok_0.updated_at == now
            &&& outcome->Ok_0.id == before.id
            &&& outcome->Ok_0.username == before.username
            &&& outcome->Ok_0.email == before.email
            &&& outcome->Ok_0.role == before.role
            &&& outcome->Ok_0.status == before.status
            &&& outcome->Ok_0.created_at == before.created_at
            &&& before.created_at.not_after(now) ==> outcome->Ok_0.in_order()
        }),
{
}

/// A user is made in order, and stays in order under every change that
/// happens no earlier than it was made.
pub proof fn law_changes_keep_order(
    user: UserView,
    first_name: Option<Seq<char>>,
    last_name: Option<Seq<char>>,
    role: UserRole,
    status: UserStatus,
    now: Timestamp,
)
    ensures
        UserView::fresh(
            user.id,
            user.username,
            user.email,
            user.first_name,
            user.last_name,
            now,
        ).in_order(),
        user.created_at.not_after(now) ==> user.with_names(first_name, last_name, now).in_order(),
        user.created_at.not_after(now) ==> user.with_role(role, now).in_order(),
        user.created_at.not_after(now) ==> user.with_status(status, now).in_order(),
{
}

/// Whether every user of `reg` was last updated no earlier than it was made.
pub open spec fn all_in_order(reg: Map<u128, UserView>) -> bool {
    forall|id: u128| #[trigger] reg.contains_key(id) ==> reg[id].in_order()
}

impl Step {
    /// Whether the operation happens no earlier than the user it changes was
    /// made: a user is activated no earlier than it is created, and changed
    /// no earlier than it was created.
    pub open spec fn timely(self, reg: Map<u128, UserView>) -> bool {
        match self {
            Step::Create { created_at, activated_at, .. } => created_at.not_after(activated_at),
            Step::Rename { id, now, .. } => reg.contains_key(id) ==> reg[id].created_at.not_after(
                now,
            ),
            Step::SetRole { id, now, .. } => reg.contains_key(id) ==> reg[id].created_at.not_after(
                now,
            ),
            Step::SetStatus { id, now, .. } => reg.contains_key(id)
                ==> reg[id].created_at.not_after(now),
            Step::Delete { .. } => true,
        }
    }
}

/// Whether each of the operations, carried out in order, is timely when its
/// turn comes.
pub open spec fn all_timely(reg: Map<u128, UserView>, steps: Seq<Step>) -> bool
    decreases steps.len(),
{
    steps.len() > 0 ==> all_timely(reg, steps.drop_last()) && steps.last().timely(
        after_all(reg, steps.drop_last()),
    )
}

/// As long as the clock is not set back behind the creation of a user that is
/// changed, every user was last updated no earlier than it was made.
pub proof fn law_timely_steps_keep_order(reg: Map<u128, UserView>, steps: Seq<Step>)
    requires
        all_in_order(reg),
        all_timely(reg, steps),
    ensures
        all_in_order(after_all(reg, steps)),
    decreases steps.len(),
{
    if steps.len() > 0 {
        law_timely_steps_keep_order(reg, steps.drop_last());
        let mid = after_all(reg, steps.drop_last());
        let done = steps.last().after(mid);
        assert forall|id: u128| #[trigger] done.contains_key(id) implies done[id].in_order() by {
            if mid.contains_key(id) && done[id] == mid[id] {
                assert(mid[id].in_order());
            }
        }
    }
}

/// The number of users after a sequence of operations is the number before,
/// plus the creations that succeeded, minus the deletions that succeeded.
pub proof fn law_count_after_steps(reg: Map<u128, UserView>, steps: Seq<Step>)
    requires
        well_formed(reg),
    ensures
        after_all(reg, steps).len() == reg.len() + creations(reg, steps) - deletions(reg, steps),
    decreases steps.len(),
{
    if steps.len() > 0 {
        let earlier = steps.drop_last();
        law_count_after_steps(reg, earlier);
        law_steps_keep_well_formed(reg, earlier);
        let mid = after_all(reg, earlier);
        match steps.last() {
            Step::Create { .. } => {},
            Step::Rename { id, first, last, now } => {
                if mid.contains_key(id) {
                    lemma_revision_keeps_well_formed(mid, mid[id].with_names(first, last, now));
                }
            },
            Step::SetRole { id, role, now } => {
                if mid.contains_key(id) {
                    lemma_revision_keeps_well_formed(mid, mid[id].with_role(role, now));
                }
            },
            Step::SetStatus { id, status, now } => {
                if mid.contains_key(id) {
                    lemma_revision_keeps_well_formed(mid, mid[id].with_status(status, now));
                }
            },
            Step::Delete { id } => {
                if !mid.contains_key(id) {
                    assert(mid.remove(id) =~= mid);
                }
            },
        }
    }
}

/// Starting from an empty registry, the number of users is the number of
/// creations that succeeded minus the number of deletions that succeeded.
pub proof fn law_count_from_empty(steps: Seq<Step>)
    ensures
        after_all(Map::empty(), steps).len() == creations(Map::empty(), steps) - deletions(
            Map::empty(),
            steps,
        ),
{
    law_count_after_steps(Map::empty(), steps);
}

/// Whether the steps are creations whose usernames and e-mail addresses have
/// the required form, whose usernames, e-mail addresses and identifiers
/// differ from one another, and none of which is in use in `reg`.
pub open spec fn distinct_creations(reg: Map<u128, UserView>, steps: Seq<Step>) -> bool {
    &&& forall|i: int|
        0 <= i < steps.len() ==> {
            &&& #[trigger] steps[i] is Create
            &&& username_check(steps[i]->Create_username) is Ok
            &&& email_check(steps[i]->Create_email) is Ok
            &&& !username_taken(reg, steps[i]->Create_username)
            &&& !email_taken(reg, steps[i]->Create_email)
            &&& !reg.contains_key(steps[i]->Create_id)
        }
    &&& forall|i: int, j: int|
        0 <= i < j < steps.len() ==> (#[trigger] steps[i])->Create_username != (
        #[trigger] steps[j])->Create_username && steps[i]->Create_email
            != steps[j]->Create_email && steps[i]->Create_id != steps[j]->Create_id
}

/// Creations with valid usernames and e-mail addresses that differ from one
/// another and from those in use, under identifiers that differ likewise, all
/// succeed, in whatever order they are carried out: afterwards the registry
/// holds one more user for each, each under its identifier, and is
/// well-formed.
pub proof fn law_distinct_creations_all_succeed(reg: Map<u128, UserView>, steps: Seq<Step>)
    requires
        well_formed(reg),
        distinct_creations(reg, steps),
    ensures
        creations(reg, steps) == steps.len(),
        after_all(reg, steps).len() == reg.len() + steps.len(),
        well_formed(after_all(reg, steps)),
        forall|i: int|
            0 <= i < steps.len() ==> after_all(reg, steps).contains_key(
                (#[trigger] steps[i])->Create_id,
            ) && after_all(reg, steps)[steps[i]->Create_id].username
                == steps[i]->Create_username && after_all(
                reg,
                steps,
            )[steps[i]->Create_id].email == steps[i]->Create_email,
        forall|id: u128|
            after_all(reg, steps).contains_key(id) ==> reg.contains_key(id) || exists|i: int|
                0 <= i < steps.len() && (#[trigger] steps[i])->Create_id == id,
        forall|id: u128| reg.contains_key(id) ==> after_all(reg, steps).contains_key(id)
            && after_all(reg, steps)[id] == reg[id],
    decreases steps.len(),
{
    law_steps_keep_well_formed(reg, steps);
    law_count_after_steps(reg, steps);
    if steps.len() > 0 {
        let earlier = steps.drop_last();
        let last = steps.last();
        assert(distinct_creations(reg, earlier)) by {
            assert(forall|i: int| 0 <= i < earlier.len() ==> earlier[i] == steps[i]);
        }
        law_distinct_creations_all_succeed(reg, earlier);
        let mid = after_all(reg, earlier);
        let username = last->Create_username;
        let email = last->Create_email;
        let id = last->Create_id;
        assert(last == steps[steps.len() - 1]);
        assert(!mid.contains_key(id)) by {
            if mid.contains_key(id) {
                let i = choose|i: int|
                    0 <= i < earlier.len() && (#[trigger] earlier[i])->Create_id == id;
                assert(earlier[i] == steps[i]);
            }
        }
        assert(!username_taken(mid, username)) by {
            if username_taken(mid, username) {
                let owner = username_owner(mid, username);
                assert(mid.contains_key(owner) && mid[owner].username == username);
                if reg.contains_key(owner) {
                    assert(reg[owner].username == username);
                } else {
                    let i = choose|i: int|
                        0 <= i < earlier.len() && (#[trigger] earlier[i])->Create_id == owner;
                    assert(earlier[i] == steps[i]);
                }
            }
        }
        assert(!email_taken(mid, email)) by {
            if email_taken(mid, email) {
                let owner = email_owner(mid, email);
                assert(mid.contains_key(owner) && mid[owner].email == email);
                if reg.contains_key(owner) {
                    assert(reg[owner].email == email);
                } else {
                    let i = choose|i: int|
                        0 <= i < earlier.len() && (#[trigger] earlier[i])->Create_id == owner;
                    assert(earlier[i] == steps[i]);
                }
            }
        }
        let done = after_all(reg, steps);
        assert(last.succeeds(mid));
        assert(done == mid.insert(id, done[id]));
        assert forall|i: int| 0 <= i < steps.len() implies done.contains_key(
            (#[trigger] steps[i])->Create_id,
        ) && done[steps[i]->Create_id].username == steps[i]->Create_username
            && done[steps[i]->Create_id].email == steps[i]->Create_email by {
            if i < earlier.len() {
                assert(earlier[i] == steps[i]);
            }
        }
        assert forall|other: u128| done.contains_key(other) implies reg.contains_key(other)
            || exists|i: int| 0 <= i < steps.len() && (#[trigger] steps[i])->Create_id == other by {
            if other == id {
                assert(steps[steps.len() - 1]->Create_id == other);
            } else if !reg.contains_key(other) {
                let i = choose|i: int|
                    0 <= i < earlier.len() && (#[trigger] earlier[i])->Create_id == other;
                assert(steps[i]->Create_id == other);
            }
        }
    }
}

} // verus!
