//! The command protocol: a request is one line of words, the first of which
//! names the command; the response is one block of text.

use vstd::prelude::*;
use vstd::string::*;
use vstd::utf8::encode_utf8;
use crate::models::user::{views, User, UserRole, UserStatus, UserView};
use crate::services::laws::{law_step_keeps_well_formed, Step};
use crate::services::registry::{
    created, creation, deletion, find_by_email, find_by_id, find_by_username, lists, stored,
    well_formed,
};
use crate::services::user_manager::UserManager;
use crate::utils::clock::Timestamp;
use crate::utils::errors::{result_view, UserError, UserErrorView};
use crate::utils::ident::{id_text, parse_id, parsed_id, show_id};
use crate::utils::text::{
    contains_char, decode_lossy, law_trimming_keeps_the_words, lossy_text, same_text,
    split_whitespace, texts, trim, words,
};

verus! {

/// The response to a request without any word.
pub const EMPTY_REQUEST: &'static str = "ERROR: Empty request";

/// The response to a `CREATE` with too few words.
pub const CREATE_USAGE: &'static str = "ERROR: Usage: CREATE username email first_name last_name";

/// The response to a `GET` without a second word.
pub const GET_USAGE: &'static str = "ERROR: Usage: GET <username|email|id>";

/// The response to a `DELETE` without a second word.
pub const DELETE_USAGE: &'static str = "ERROR: Usage: DELETE <username|email|id>";

/// The response to a deletion that was carried out.
pub const DELETED: &'static str = "OK: User deleted";

/// The response to a `LIST` when there are no users.
pub const NO_USERS: &'static str = "No users found";

/// The response to a request whose first word is no command.
pub const UNKNOWN_COMMAND: &'static str =
    "ERROR: Unknown command. Type HELP for available commands.";

/// The response to `HELP`.
pub const HELP_TEXT: &'static str =
    "Available commands:\n\
     CREATE username email first_name last_name - Create a new user\n\
     GET <username|email|id> - Get user information\n\
     LIST - List all users\n\
     DELETE <username|email|id> - Delete a user\n\
     HELP - Show this help message";

/// The name of a role.
pub open spec fn role_name(role: UserRole) -> Seq<char> {
    match role {
        UserRole::Admin => "Admin"@,
        UserRole::Manager => "Manager"@,
        UserRole::User => "User"@,
        UserRole::Guest => "Guest"@,
    }
}

/// The name of a status.
pub open spec fn status_name(status: UserStatus) -> Seq<char> {
    match status {
        UserStatus::Active => "Active"@,
        UserStatus::Inactive => "Inactive"@,
        UserStatus::Suspended => "Suspended"@,
        UserStatus::Pending => "Pending"@,
    }
}

/// The description of a user, one field per line.
pub open spec fn user_info(user: UserView) -> Seq<char> {
    "User ID: "@ + id_text(user.id) + "\nUsername: "@ + user.username + "\nEmail: "@ + user.email
        + "\nName: "@ + user.first_name + " "@ + user.last_name + "\nRole: "@ + role_name(
        user.role,
    ) + "\nStatus: "@ + status_name(user.status) + "\nCreated: "@ + user.created_at.text()
        + "\nUpdated: "@ + user.updated_at.text()
}

/// The line that stands for a user in a list: its username, and its e-mail
/// address in brackets.
pub open spec fn user_line(user: UserView) -> Seq<char> {
    user.username + " ("@ + user.email + ")"@
}

/// The lines of the users, in order, with a line break between each two.
pub open spec fn user_lines(list: Seq<UserView>) -> Seq<char>
    decreases list.len(),
{
    if list.len() == 0 {
        Seq::empty()
    } else if list.len() == 1 {
        user_line(list[0])
    } else {
        user_lines(list.drop_last()) + "\n"@ + user_line(list.last())
    }
}

/// The response that lists the users in this order.
pub open spec fn listing(list: Seq<UserView>) -> Seq<char> {
    if list.len() == 0 {
        NO_USERS@
    } else {
        "Users:\n"@ + user_lines(list)
    }
}

/// The response that reports a failure.
pub open spec fn error_line(error: UserErrorView) -> Seq<char> {
    "ERROR: "@ + error.detail()
}

/// The response to a creation.
pub open spec fn create_response(outcome: Result<UserView, UserErrorView>) -> Seq<char> {
    match outcome {
        Ok(user) => "OK: User created with ID: "@ + id_text(user.id),
        Err(error) => error_line(error),
    }
}

/// The response to a lookup.
pub open spec fn get_response(outcome: Result<UserView, UserErrorView>) -> Seq<char> {
    match outcome {
        Ok(user) => user_info(user),
        Err(error) => error_line(error),
    }
}

/// The response to a deletion.
pub open spec fn delete_response(outcome: Result<(), UserErrorView>) -> Seq<char> {
    match outcome {
        Ok(_) => DELETED@,
        Err(error) => error_line(error),
    }
}

/// The user that a word of a request names, given what the word is as an
/// identifier: the user with that identifier if it is one; otherwise the user
/// with the word as e-mail address if the word holds an `@`, and else the user
/// with the word as username.
pub open spec fn lookup_as(
    reg: Map<u128, UserView>,
    word: Seq<char>,
    parsed: Option<u128>,
) -> Result<UserView, UserErrorView> {
    match parsed {
        Some(id) => find_by_id(reg, id),
        None => if word.contains('@') {
            find_by_email(reg, word)
        } else {
            find_by_username(reg, word)
        },
    }
}

/// The user that a word of a request names.
pub open spec fn lookup(reg: Map<u128, UserView>, word: Seq<char>) -> Result<
    UserView,
    UserErrorView,
> {
    lookup_as(reg, word, parsed_id(word))
}

/// The identifier that a word of a request names, given what the word is as
/// an identifier: that identifier, whether a user has it or not, if it is
/// one; otherwise the identifier of the user that the word names.
pub open spec fn target_as(
    reg: Map<u128, UserView>,
    word: Seq<char>,
    parsed: Option<u128>,
) -> Result<u128, UserErrorView> {
    match parsed {
        Some(id) => Ok(id),
        None => match lookup_as(reg, word, parsed) {
            Ok(user) => Ok(user.id),
            Err(error) => Err(error),
        },
    }
}

/// The identifier that a word of a request names.
pub open spec fn target(reg: Map<u128, UserView>, word: Seq<char>) -> Result<u128, UserErrorView> {
    target_as(reg, word, parsed_id(word))
}

/// Whether `response` and the registry `after` are what a request makes of the
/// registry `before`, where a creation draws the identifier `id` and the times
/// `created_at` and `activated_at`, and a listing walks the users in the
/// order `order`.
pub open spec fn answers(
    request: Seq<char>,
    before: Map<u128, UserView>,
    after: Map<u128, UserView>,
    response: Seq<char>,
    id: u128,
    created_at: Timestamp,
    activated_at: Timestamp,
    order: Seq<UserView>,
) -> bool {
    let parts = words(request);
    if parts.len() == 0 {
        response == EMPTY_REQUEST@ && after == before
    } else if parts[0] == "CREATE"@ {
        if parts.len() < 5 {
            response == CREATE_USAGE@ && after == before
        } else {
            let outcome = creation(
                before,
                parts[1],
                parts[2],
                parts[3],
                parts[4],
                id,
                created_at,
                activated_at,
            );
            response == create_response(outcome) && after == stored(before, outcome)
        }
    } else if parts[0] == "GET"@ {
        if parts.len() < 2 {
            response == GET_USAGE@ && after == before
        } else {
            response == get_response(lookup(before, parts[1])) && after == before
        }
    } else if parts[0] == "LIST"@ {
        lists(order, before, |user: UserView| true) && response == listing(order) && after
            == before
    } else if parts[0] == "DELETE"@ {
        if parts.len() < 2 {
            response == DELETE_USAGE@ && after == before
        } else {
            match target(before, parts[1]) {
                Err(error) => response == error_line(error) && after == before,
                Ok(user_id) => response == delete_response(deletion(before, user_id)) && after
                    == before.remove(user_id),
            }
        }
    } else if parts[0] == "HELP"@ {
        response == HELP_TEXT@ && after == before
    } else {
        response == UNKNOWN_COMMAND@ && after == before
    }
}

/// Whatever the request, the draws and the order of a listing, a well-formed
/// registry stays well-formed; and only a `CREATE` and a `DELETE` can change
/// it.
pub proof fn law_requests_keep_well_formed(
    request: Seq<char>,
    before: Map<u128, UserView>,
    after: Map<u128, UserView>,
    response: Seq<char>,
    id: u128,
    created_at: Timestamp,
    activated_at: Timestamp,
    order: Seq<UserView>,
)
    requires
        well_formed(before),
        answers(request, before, after, response, id, created_at, activated_at, order),
    ensures
        well_formed(after),
        after != before ==> words(request).len() > 0 && (words(request)[0] == "CREATE"@ || words(
            request,
        )[0] == "DELETE"@),
{
    let parts = words(request);
    if parts.len() >= 5 && parts[0] == "CREATE"@ {
        law_step_keeps_well_formed(
            before,
            Step::Create {
                username: parts[1],
                email: parts[2],
                first_name: parts[3],
                last_name: parts[4],
                id,
                created_at,
                activated_at,
            },
        );
    } else if parts.len() >= 2 && parts[0] == "DELETE"@ {
        if let Ok(user_id) = target(before, parts[1]) {
            law_step_keeps_well_formed(before, Step::Delete { id: user_id });
        }
    }
}

/// The name of a role.
pub fn role_label(role: UserRole) -> (name: &'static str)
    ensures
        name@ == role_name(role),
{
    match role {
        UserRole::Admin => "Admin",
        UserRole::Manager => "Manager",
        UserRole::User => "User",
        UserRole::Guest => "Guest",
    }
}

/// The name of a status.
pub fn status_label(status: UserStatus) -> (name: &'static str)
    ensures
        name@ == status_name(status),
{
    match status {
        UserStatus::Active => "Active",
        UserStatus::Inactive => "Inactive",
        UserStatus::Suspended => "Suspended",
        UserStatus::Pending => "Pending",
    }
}

/// Describes a user, one field per line.
pub fn format_user_info(user: &User) -> (text: String)
    ensures
        text@ == user_info(user@),
{
    let mut text = String::from_str("User ID: ");
    text.append(show_id(user.id).as_str());
    text.append("\nUsername: ");
    text.append(user.username.as_str());
    text.append("\nEmail: ");
    text.append(user.email.as_str());
    text.append("\nName: ");
    text.append(user.first_name.as_str());
    text.append(" ");
    text.append(user.last_name.as_str());
    text.append("\nRole: ");
    text.append(role_label(user.role));
    text.append("\nStatus: ");
    text.append(status_label(user.status));
    text.append("\nCreated: ");
    text.append(user.created_at.render().as_str());
    text.append("\nUpdated: ");
    text.append(user.updated_at.render().as_str());
    text
}

/// Lists users in the order given: a heading and one line for each, or a
/// remark that there are none.
pub fn format_user_list(users: &Vec<User>) -> (text: String)
    ensures
        text@ == listing(views(users@)),
{
    if users.len() == 0 {
        return String::from_str(NO_USERS);
    }
    let ghost all = views(users@);
    let mut lines = String::new();
    let mut i: usize = 0;
    while i < users.len()
        invariant
            all == views(users@),
            i <= users.len(),
            lines@ == user_lines(all.take(i as int)),
        decreases users.len() - i,
    {
        let ghost shown = all.take(i as int);
        let ghost next = all.take(i + 1);
        assert(next.drop_last() =~= shown);
        assert(next.last() == users@[i as int]@);
        if i > 0 {
            lines.append("\n");
        }
        lines.append(users[i].username.as_str());
        lines.append(" (");
        lines.append(users[i].email.as_str());
        lines.append(")");
        assert(lines@ =~= user_lines(next)) by {
            let line = user_line(users@[i as int]@);
            assert(line =~= users@[i as int].username@ + " ("@ + users@[i as int].email@ + ")"@);
            if i == 0 {
                assert(Seq::<char>::empty() + users@[i as int].username@ =~= users@[i
                    as int].username@);
            }
        }
        i = i + 1;
    }
    assert(all.take(users@.len() as int) =~= all);
    let mut text = String::from_str("Users:\n");
    text.append(lines.as_str());
    text
}

/// Reports a failure.
pub fn format_error(error: &UserError) -> (text: String)
    ensures
        text@ == error_line(error@),
{
    let mut text = String::from_str("ERROR: ");
    text.append(error.detail());
    text
}

/// The response to a creation, given its outcome.
pub fn format_created(outcome: &Result<User, UserError>) -> (text: String)
    ensures
        text@ == create_response(result_view(*outcome)),
{
    match outcome {
        Ok(user) => {
            let mut text = String::from_str("OK: User created with ID: ");
            text.append(show_id(user.id).as_str());
            text
        },
        Err(error) => format_error(error),
    }
}

/// The response to a lookup, given its outcome.
pub fn format_found(outcome: &Result<User, UserError>) -> (text: String)
    ensures
        text@ == get_response(result_view(*outcome)),
{
    match outcome {
        Ok(user) => format_user_info(user),
        Err(error) => format_error(error),
    }
}

/// The response to a deletion, given its outcome.
pub fn format_deleted(outcome: &Result<(), UserError>) -> (text: String)
    ensures
        text@ == delete_response(result_view(*outcome)),
{
    match outcome {
        Ok(_) => String::from_str(DELETED),
        Err(error) => format_error(error),
    }
}

/// Finds the user that a word of a request names, given what the word is as
/// an identifier.
pub fn find_user_as(user_manager: &UserManager, word: &str, parsed: Option<u128>) -> (outcome:
    Result<User, UserError>)
    ensures
        result_view(outcome) == lookup_as(user_manager@, word@, parsed),
{
    match parsed {
        Some(id) => user_manager.get_user_by_id(id),
        None => if contains_char(word, '@') {
            user_manager.get_user_by_email(word)
        } else {
            user_manager.get_user_by_username(word)
        },
    }
}

/// Finds the user that a word of a request names.
pub fn find_user(user_manager: &UserManager, word: &str) -> (outcome: Result<User, UserError>)
    ensures
        result_view(outcome) == lookup(user_manager@, word@),
{
    find_user_as(user_manager, word, parse_id(word))
}

/// Finds the identifier that a word of a request names, given what the word
/// is as an identifier.
pub fn find_target_as(user_manager: &UserManager, word: &str, parsed: Option<u128>) -> (outcome:
    Result<u128, UserError>)
    ensures
        result_view(outcome) == target_as(user_manager@, word@, parsed),
{
    match parsed {
        Some(id) => Ok(id),
        None => match find_user_as(user_manager, word, parsed) {
            Ok(user) => Ok(user.id),
            Err(error) => Err(error),
        },
    }
}

/// Finds the identifier that a word of a request names.
pub fn find_target(user_manager: &UserManager, word: &str) -> (outcome: Result<u128, UserError>)
    ensures
        result_view(outcome) == target(user_manager@, word@),
{
    find_target_as(user_manager, word, parse_id(word))
}

/// Carries out one request on the registry and gives the response.
///
/// What is answered and what becomes of the registry is fixed by
/// [`answers`], up to what a creation draws (an identifier and two times) and
/// the order in which a listing walks the users.
pub fn handle_request(request: &str, user_manager: &mut UserManager) -> (response: String)
    ensures
        exists|id: u128, created_at: Timestamp, activated_at: Timestamp, order: Seq<UserView>|
            #[trigger] answers(
                request@,
                old(user_manager)@,
                final(user_manager)@,
                response@,
                id,
                created_at,
                activated_at,
                order,
            ),
        well_formed(final(user_manager)@),
{
    let ghost before = user_manager@;
    let ghost any_time: Timestamp = arbitrary();
    user_manager.note_well_formed();
    let parts = split_whitespace(trim(request));
    proof {
        law_trimming_keeps_the_words(request@);
    }
    assert(texts(parts@).len() == parts@.len());
    assert forall|i: int| 0 <= i < parts@.len() implies #[trigger] parts@[i]@ == words(
        request@,
    )[i] by {
        assert(parts@[i]@ == texts(parts@)[i]);
    }
    if parts.len() == 0 {
        let response = String::from_str(EMPTY_REQUEST);
        assert(answers(request@, before, user_manager@, response@, 0, any_time, any_time, seq![]));
        return response;
    }
    let command = parts[0].as_str();
    if same_text(command, "CREATE") {
        if parts.len() < 5 {
            let response = String::from_str(CREATE_USAGE);
            assert(answers(
                request@,
                before,
                user_manager@,
                response@,
                0,
                any_time,
                any_time,
                seq![],
            ));
            return response;
        }
        let outcome = user_manager.create_user(
            parts[1].clone(),
            parts[2].clone(),
            parts[3].clone(),
            parts[4].clone(),
        );
        let ghost (id, created_at, activated_at) = choose|
            id: u128,
            created_at: Timestamp,
            activated_at: Timestamp,
        |
            created(
                before,
                user_manager@,
                result_view(outcome),
                parts@[1]@,
                parts@[2]@,
                parts@[3]@,
                parts@[4]@,
                id,
                created_at,
                activated_at,
            );
        let response = format_created(&outcome);
        assert(answers(
            request@,
            before,
            user_manager@,
            response@,
            id,
            created_at,
            activated_at,
            seq![],
        ));
        response
    } else if same_text(command, "GET") {
        let response = if parts.len() < 2 {
            String::from_str(GET_USAGE)
        } else {
            format_found(&find_user(user_manager, parts[1].as_str()))
        };
        assert(answers(request@, before, user_manager@, response@, 0, any_time, any_time, seq![]));
        response
    } else if same_text(command, "LIST") {
        let users = user_manager.list_users();
        let response = format_user_list(&users);
        assert(answers(
            request@,
            before,
            user_manager@,
            response@,
            0,
            any_time,
            any_time,
            views(users@),
        ));
        response
    } else if same_text(command, "DELETE") {
        if parts.len() < 2 {
            let response = String::from_str(DELETE_USAGE);
            assert(answers(
                request@,
                before,
                user_manager@,
                response@,
                0,
                any_time,
                any_time,
                seq![],
            ));
            return response;
        }
        let response = match find_target(user_manager, parts[1].as_str()) {
            Err(error) => format_error(&error),
            Ok(user_id) => format_deleted(&user_manager.delete_user(user_id)),
        };
        assert(answers(request@, before, user_manager@, response@, 0, any_time, any_time, seq![]));
        response
    } else if same_text(command, "HELP") {
        let response = String::from_str(HELP_TEXT);
        assert(answers(request@, before, user_manager@, response@, 0, any_time, any_time, seq![]));
        response
    } else {
        let response = String::from_str(UNKNOWN_COMMAND);
        assert(answers(request@, before, user_manager@, response@, 0, any_time, any_time, seq![]));
        response
    }
}

/// The bytes of a reply that may be absent.
pub open spec fn optional_bytes(reply: Option<Vec<u8>>) -> Option<Seq<u8>> {
    match reply {
        Some(bytes) => Some(bytes@),
        None => None,
    }
}

/// Whether `reply` and the registry `after` are what the bytes received from
/// a client make of the registry `before`: nothing received gets no reply;
/// otherwise the bytes, decoded leniently, are one request, and the reply is
/// the response `response` to it, encoded in UTF-8.
pub open spec fn serves(
    received: Seq<u8>,
    before: Map<u128, UserView>,
    after: Map<u128, UserView>,
    reply: Option<Seq<u8>>,
    response: Seq<char>,
    id: u128,
    created_at: Timestamp,
    activated_at: Timestamp,
    order: Seq<UserView>,
) -> bool {
    if received.len() == 0 {
        reply is None && after == before
    } else {
        &&& reply == Some(encode_utf8(response))
        &&& answers(
            lossy_text(received),
            before,
            after,
            response,
            id,
            created_at,
            activated_at,
            order,
        )
    }
}

/// Serves what was received from a client in one read: decodes the request,
/// carries it out and encodes the response. Nothing received gets no reply.
pub fn handle_bytes(received: &[u8], user_manager: &mut UserManager) -> (reply: Option<Vec<u8>>)
    ensures
        exists|
            response: Seq<char>,
            id: u128,
            created_at: Timestamp,
            activated_at: Timestamp,
            order: Seq<UserView>,
        | #[trigger]
            serves(
                received@,
                old(user_manager)@,
                final(user_manager)@,
                optional_bytes(reply),
                response,
                id,
                created_at,
                activated_at,
                order,
            ),
        well_formed(final(user_manager)@),
{
    let ghost before = user_manager@;
    user_manager.note_well_formed();
    if received.len() == 0 {
        let ghost any_time: Timestamp = arbitrary();
        assert(serves(
            received@,
            before,
            user_manager@,
            None,
            Seq::empty(),
            0,
            any_time,
            any_time,
            Seq::empty(),
        ));
        return None;
    }
    let request = decode_lossy(received);
    let response = handle_request(request.as_str(), user_manager);
    let ghost (id, created_at, activated_at, order) = choose|
        id: u128,
        created_at: Timestamp,
        activated_at: Timestamp,
        order: Seq<UserView>,
    |
        answers(
            request@,
            before,
            user_manager@,
            response@,
            id,
            created_at,
            activated_at,
            order,
        );
    let bytes = response.as_str().as_bytes_vec();
    assert(serves(
        received@,
        before,
        user_manager@,
        Some(bytes@),
        response@,
        id,
        created_at,
        activated_at,
        order,
    ));
    Some(bytes)
}

} // verus!
