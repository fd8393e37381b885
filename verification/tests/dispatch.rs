use user_management::dispatcher::{
    find_target, find_target_as, find_user, find_user_as, format_created, format_deleted,
    format_error, format_found, format_user_info, format_user_list, handle_bytes, handle_request,
    role_label, status_label,
};
use user_management::models::{User, UserRole, UserStatus};
use user_management::services::UserManager;
use user_management::utils::clock::Timestamp;
use user_management::utils::UserError;

const HELP: &str = "Available commands:\n\
CREATE username email first_name last_name - Create a new user\n\
GET <username|email|id> - Get user information\n\
LIST - List all users\n\
DELETE <username|email|id> - Delete a user\n\
HELP - Show this help message";

fn at(secs: i64) -> Timestamp {
    Timestamp::from_parts(secs, 0).unwrap()
}

fn with_alice_and_bob() -> UserManager {
    let mut manager = UserManager::new();
    manager
        .create_user_with(
            "alice".to_string(),
            "alice@x.com".to_string(),
            "Alice".to_string(),
            "Liddell".to_string(),
            0x67e5504410b1426f9247bb680e5fe0c8,
            at(1_431_648_000),
            at(1_431_648_001),
        )
        .unwrap();
    manager
        .create_user_with(
            "bob".to_string(),
            "bob@test.com".to_string(),
            "Bob".to_string(),
            "Jones".to_string(),
            0xa1a2a3a4b1b2c1c2d1d2d3d4d5d6d7d8,
            at(1_431_648_002),
            at(1_431_648_003),
        )
        .unwrap();
    manager
}

const ALICE_INFO: &str = "User ID: 67e55044-10b1-426f-9247-bb680e5fe0c8\n\
Username: alice\n\
Email: alice@x.com\n\
Name: Alice Liddell\n\
Role: User\n\
Status: Active\n\
Created: 2015-05-15 00:00:00 UTC\n\
Updated: 2015-05-15 00:00:01 UTC";

#[test]
fn empty_request_is_rejected() {
    let mut manager = UserManager::new();
    assert_eq!(handle_request("", &mut manager), "ERROR: Empty request");
    assert_eq!(handle_request("   \t\r\n", &mut manager), "ERROR: Empty request");
}

#[test]
fn create_answers_with_a_parseable_identifier() {
    let mut manager = UserManager::new();
    let response = handle_request("CREATE bob bob@test.com Bob Jones", &mut manager);
    let prefix = "OK: User created with ID: ";
    assert!(response.starts_with(prefix), "{}", response);
    let id = uuid::Uuid::parse_str(&response[prefix.len()..]).unwrap();
    let stored = manager.get_user_by_id(id.as_u128()).unwrap();
    assert_eq!(stored.username, "bob");
    assert_eq!(stored.email, "bob@test.com");
    assert_eq!(stored.first_name, "Bob");
    assert_eq!(stored.last_name, "Jones");
    assert_eq!(stored.status, UserStatus::Active);
    assert_eq!(stored.role, UserRole::User);
    assert_eq!(manager.len(), 1);
}

#[test]
fn create_ignores_what_follows_the_fifth_word() {
    let mut manager = UserManager::new();
    let response = handle_request("CREATE bob bob@test.com Bob Jones Junior III", &mut manager);
    assert!(response.starts_with("OK: User created with ID: "), "{}", response);
    assert_eq!(manager.get_user_by_username("bob").unwrap().last_name, "Jones");
}

#[test]
fn create_with_too_few_words_shows_the_usage() {
    let mut manager = UserManager::new();
    for request in
        ["CREATE", "CREATE bob", "CREATE bob bob@test.com", "CREATE bob bob@test.com Bob"]
    {
        assert_eq!(
            handle_request(request, &mut manager),
            "ERROR: Usage: CREATE username email first_name last_name"
        );
    }
    assert_eq!(manager.len(), 0);
}

#[test]
fn create_reports_what_the_registry_refuses() {
    let mut manager = with_alice_and_bob();
    assert_eq!(
        handle_request("CREATE ab ab@test.com A B", &mut manager),
        "ERROR: Username must be at least 3 characters"
    );
    assert_eq!(
        handle_request("CREATE carol no-at-sign A B", &mut manager),
        "ERROR: Invalid email format"
    );
    assert_eq!(
        handle_request("CREATE bob other@test.com A B", &mut manager),
        "ERROR: Username 'bob' already exists"
    );
    assert_eq!(
        handle_request("CREATE carol bob@test.com A B", &mut manager),
        "ERROR: Email 'bob@test.com' already exists"
    );
    assert_eq!(manager.len(), 2);
}

#[test]
fn get_of_an_unknown_username_is_reported() {
    let mut manager = UserManager::new();
    assert_eq!(
        handle_request("GET nonexistent", &mut manager),
        "ERROR: Username 'nonexistent' not found"
    );
}

#[test]
fn get_of_an_unknown_email_or_identifier_is_reported() {
    let mut manager = with_alice_and_bob();
    assert_eq!(
        handle_request("GET nobody@x.com", &mut manager),
        "ERROR: Email 'nobody@x.com' not found"
    );
    assert_eq!(
        handle_request("GET 00000000-0000-0000-0000-000000000001", &mut manager),
        "ERROR: User ID '00000000-0000-0000-0000-000000000001' not found"
    );
}

#[test]
fn get_without_an_identifier_shows_the_usage() {
    let mut manager = with_alice_and_bob();
    assert_eq!(handle_request("GET", &mut manager), "ERROR: Usage: GET <username|email|id>");
}

#[test]
fn get_describes_the_user_by_any_of_its_keys() {
    let mut manager = with_alice_and_bob();
    assert_eq!(handle_request("GET alice", &mut manager), ALICE_INFO);
    assert_eq!(handle_request("GET alice@x.com", &mut manager), ALICE_INFO);
    assert_eq!(
        handle_request("GET 67e55044-10b1-426f-9247-bb680e5fe0c8", &mut manager),
        ALICE_INFO
    );
    // Other ways of writing the same identifier.
    assert_eq!(handle_request("GET 67e5504410b1426f9247bb680e5fe0c8", &mut manager), ALICE_INFO);
    assert_eq!(
        handle_request("GET 67E55044-10B1-426F-9247-BB680E5FE0C8", &mut manager),
        ALICE_INFO
    );
    assert_eq!(
        handle_request("  GET   alice   and more words\n", &mut manager),
        ALICE_INFO
    );
    assert_eq!(manager.len(), 2);
}

#[test]
fn format_user_info_shows_every_field() {
    let user = User {
        id: 0xa1a2a3a4b1b2c1c2d1d2d3d4d5d6d7d8,
        username: "carol".to_string(),
        email: "carol@x.org".to_string(),
        first_name: "Carol".to_string(),
        last_name: "Danvers".to_string(),
        role: UserRole::Manager,
        status: UserStatus::Suspended,
        created_at: Timestamp::from_parts(0, 0).unwrap(),
        updated_at: Timestamp::from_parts(1_700_000_000, 500_000_000).unwrap(),
    };
    assert_eq!(
        format_user_info(&user),
        "User ID: a1a2a3a4-b1b2-c1c2-d1d2-d3d4d5d6d7d8\n\
         Username: carol\n\
         Email: carol@x.org\n\
         Name: Carol Danvers\n\
         Role: Manager\n\
         Status: Suspended\n\
         Created: 1970-01-01 00:00:00 UTC\n\
         Updated: 2023-11-14 22:13:20.500 UTC"
    );
}

#[test]
fn identifiers_are_shown_as_uuid_shows_them() {
    for id in [
        0u128,
        1,
        0x0123456789abcdef0123456789abcdef,
        u128::MAX,
        0x67e5504410b1426f9247bb680e5fe0c8,
    ] {
        let mut user = User::with_identity(
            id,
            String::new(),
            String::new(),
            String::new(),
            String::new(),
            at(0),
        );
        user.role = UserRole::Guest;
        let info = format_user_info(&user);
        let expected = format!("User ID: {}\n", uuid::Uuid::from_u128(id));
        assert!(info.starts_with(&expected), "{}", info);
    }
    let user = User::with_identity(
        0x0123456789abcdef0123456789abcdef,
        String::new(),
        String::new(),
        String::new(),
        String::new(),
        at(0),
    );
    assert!(format_user_info(&user).starts_with("User ID: 01234567-89ab-cdef-0123-456789abcdef\n"));
}

#[test]
fn roles_and_statuses_have_their_names() {
    assert_eq!(role_label(UserRole::Admin), "Admin");
    assert_eq!(role_label(UserRole::Manager), "Manager");
    assert_eq!(role_label(UserRole::User), "User");
    assert_eq!(role_label(UserRole::Guest), "Guest");
    assert_eq!(status_label(UserStatus::Active), "Active");
    assert_eq!(status_label(UserStatus::Inactive), "Inactive");
    assert_eq!(status_label(UserStatus::Suspended), "Suspended");
    assert_eq!(status_label(UserStatus::Pending), "Pending");
    assert_eq!(role_label(UserRole::Manager), format!("{:?}", UserRole::Manager));
    assert_eq!(status_label(UserStatus::Suspended), format!("{:?}", UserStatus::Suspended));
}

#[test]
fn list_of_an_empty_registry_says_so() {
    let mut manager = UserManager::new();
    assert_eq!(handle_request("LIST", &mut manager), "No users found");
    assert_eq!(format_user_list(&Vec::new()), "No users found");
}

#[test]
fn list_shows_one_line_for_each_user() {
    let mut manager = with_alice_and_bob();
    let response = handle_request("LIST", &mut manager);
    let either = [
        "Users:\nalice (alice@x.com)\nbob (bob@test.com)",
        "Users:\nbob (bob@test.com)\nalice (alice@x.com)",
    ];
    assert!(either.contains(&response.as_str()), "{}", response);
    assert_eq!(handle_request("LIST all of them", &mut manager), response);
    manager.delete_user(0xa1a2a3a4b1b2c1c2d1d2d3d4d5d6d7d8).unwrap();
    assert_eq!(handle_request("LIST", &mut manager), "Users:\nalice (alice@x.com)");
}

#[test]
fn format_user_list_keeps_the_order_given() {
    let manager = with_alice_and_bob();
    let alice = manager.get_user_by_username("alice").unwrap();
    let bob = manager.get_user_by_username("bob").unwrap();
    assert_eq!(
        format_user_list(&vec![alice.clone(), bob.clone()]),
        "Users:\nalice (alice@x.com)\nbob (bob@test.com)"
    );
    assert_eq!(
        format_user_list(&vec![bob.clone(), alice.clone(), bob]),
        "Users:\nbob (bob@test.com)\nalice (alice@x.com)\nbob (bob@test.com)"
    );
    assert_eq!(format_user_list(&vec![alice]), "Users:\nalice (alice@x.com)");
}

#[test]
fn delete_removes_the_user_by_any_of_its_keys() {
    let mut manager = with_alice_and_bob();
    assert_eq!(handle_request("DELETE alice", &mut manager), "OK: User deleted");
    assert_eq!(
        handle_request("GET alice", &mut manager),
        "ERROR: Username 'alice' not found"
    );
    assert_eq!(
        handle_request("GET alice@x.com", &mut manager),
        "ERROR: Email 'alice@x.com' not found"
    );
    assert_eq!(handle_request("DELETE bob@test.com", &mut manager), "OK: User deleted");
    assert_eq!(handle_request("LIST", &mut manager), "No users found");

    let mut manager = with_alice_and_bob();
    assert_eq!(
        handle_request("DELETE a1a2a3a4-b1b2-c1c2-d1d2-d3d4d5d6d7d8", &mut manager),
        "OK: User deleted"
    );
    assert_eq!(handle_request("LIST", &mut manager), "Users:\nalice (alice@x.com)");
}

#[test]
fn delete_of_an_unknown_user_is_reported() {
    let mut manager = with_alice_and_bob();
    assert_eq!(
        handle_request("DELETE carol", &mut manager),
        "ERROR: Username 'carol' not found"
    );
    assert_eq!(
        handle_request("DELETE carol@x.com", &mut manager),
        "ERROR: Email 'carol@x.com' not found"
    );
    assert_eq!(
        handle_request("DELETE 00000000-0000-0000-0000-000000000001", &mut manager),
        "ERROR: User ID '00000000-0000-0000-0000-000000000001' not found"
    );
    assert_eq!(handle_request("DELETE", &mut manager), "ERROR: Usage: DELETE <username|email|id>");
    assert_eq!(manager.len(), 2);
}

#[test]
fn help_lists_the_commands() {
    let mut manager = UserManager::new();
    assert_eq!(handle_request("HELP", &mut manager), HELP);
    assert_eq!(handle_request(" HELP me ", &mut manager), HELP);
}

#[test]
fn unknown_commands_are_reported() {
    let mut manager = with_alice_and_bob();
    let unknown = "ERROR: Unknown command. Type HELP for available commands.";
    assert_eq!(handle_request("help", &mut manager), unknown);
    assert_eq!(handle_request("create bob bob@test.com Bob Jones", &mut manager), unknown);
    assert_eq!(handle_request("UPDATE alice", &mut manager), unknown);
    assert_eq!(handle_request("GETS alice", &mut manager), unknown);
    assert_eq!(manager.len(), 2);
}

#[test]
fn a_created_user_can_be_fetched_and_deleted_by_the_identifier_shown() {
    let mut manager = UserManager::new();
    let response = handle_request("CREATE bob bob@test.com Bob Jones", &mut manager);
    let id = &response["OK: User created with ID: ".len()..];
    let info = handle_request(&format!("GET {}", id), &mut manager);
    let expected = format!(
        "User ID: {}\nUsername: bob\nEmail: bob@test.com\nName: Bob Jones\n\
         Role: User\nStatus: Active\nCreated: ",
        id
    );
    assert!(info.starts_with(&expected), "{}", info);
    assert_eq!(handle_request(&format!("DELETE {}", id), &mut manager), "OK: User deleted");
    assert_eq!(
        handle_request(&format!("GET {}", id), &mut manager),
        format!("ERROR: User ID '{}' not found", id)
    );
}

#[test]
fn format_error_shows_the_detail() {
    assert_eq!(
        format_error(&UserError::UserNotFound("Username 'x' not found".to_string())),
        "ERROR: Username 'x' not found"
    );
    assert_eq!(
        format_error(&UserError::DatabaseError("disk full".to_string())),
        "ERROR: disk full"
    );
}

#[test]
fn a_word_is_taken_as_identifier_then_as_email_then_as_username() {
    let manager = with_alice_and_bob();
    let alice = manager.get_user_by_username("alice").unwrap();
    let bob = manager.get_user_by_username("bob").unwrap();
    assert_eq!(find_user(&manager, "alice"), Ok(alice.clone()));
    assert_eq!(find_user(&manager, "alice@x.com"), Ok(alice.clone()));
    assert_eq!(find_user(&manager, "67e55044-10b1-426f-9247-bb680e5fe0c8"), Ok(alice.clone()));
    // What the word is as an identifier decides, whatever else the word could be.
    assert_eq!(find_user_as(&manager, "alice", Some(bob.id)), Ok(bob.clone()));
    assert_eq!(find_user_as(&manager, "alice@x.com", Some(bob.id)), Ok(bob.clone()));
    assert_eq!(find_user_as(&manager, "alice@x.com", None), Ok(alice.clone()));
    assert_eq!(find_user_as(&manager, "alice", None), Ok(alice.clone()));
    assert_eq!(
        find_user_as(&manager, "alice", Some(5)),
        Err(UserError::UserNotFound(
            "User ID '00000000-0000-0000-0000-000000000005' not found".to_string()
        ))
    );
    assert_eq!(
        find_user_as(&manager, "bob@x", None),
        Err(UserError::UserNotFound("Email 'bob@x' not found".to_string()))
    );
    assert_eq!(
        find_user_as(&manager, "bobby", None),
        Err(UserError::UserNotFound("Username 'bobby' not found".to_string()))
    );
}

#[test]
fn the_target_of_a_deletion_is_an_identifier_even_if_nobody_has_it() {
    let manager = with_alice_and_bob();
    assert_eq!(find_target(&manager, "alice"), Ok(0x67e5504410b1426f9247bb680e5fe0c8));
    assert_eq!(find_target(&manager, "bob@test.com"), Ok(0xa1a2a3a4b1b2c1c2d1d2d3d4d5d6d7d8));
    assert_eq!(find_target(&manager, "00000000-0000-0000-0000-000000000005"), Ok(5));
    assert_eq!(find_target_as(&manager, "alice", Some(5)), Ok(5));
    assert_eq!(find_target_as(&manager, "alice", None), Ok(0x67e5504410b1426f9247bb680e5fe0c8));
    assert_eq!(
        find_target(&manager, "carol"),
        Err(UserError::UserNotFound("Username 'carol' not found".to_string()))
    );
    assert_eq!(
        find_target_as(&manager, "carol@x.com", None),
        Err(UserError::UserNotFound("Email 'carol@x.com' not found".to_string()))
    );
}

#[test]
fn bytes_are_decoded_served_and_encoded() {
    let mut manager = with_alice_and_bob();
    assert_eq!(handle_bytes(b"", &mut manager), None);
    assert_eq!(handle_bytes(b"GET alice\n", &mut manager), Some(ALICE_INFO.as_bytes().to_vec()));
    assert_eq!(handle_bytes(b"HELP", &mut manager), Some(HELP.as_bytes().to_vec()));
    assert_eq!(handle_bytes(b" \n", &mut manager), Some(b"ERROR: Empty request".to_vec()));
    // Bytes that are no UTF-8 become replacement characters.
    assert_eq!(
        handle_bytes(b"GET \xff\xfe", &mut manager),
        Some("ERROR: Username '\u{fffd}\u{fffd}' not found".as_bytes().to_vec())
    );
    assert_eq!(
        handle_bytes("GET z\u{fc}rich".as_bytes(), &mut manager),
        Some("ERROR: Username 'z\u{fc}rich' not found".as_bytes().to_vec())
    );
}

#[test]
fn the_outcome_of_an_operation_decides_the_response() {
    let manager = with_alice_and_bob();
    let alice = manager.get_user_by_username("alice").unwrap();
    let missing = UserError::UserNotFound("Username 'x' not found".to_string());
    let taken = UserError::DuplicateUser("Username 'alice' already exists".to_string());
    assert_eq!(
        format_created(&Ok(alice.clone())),
        "OK: User created with ID: 67e55044-10b1-426f-9247-bb680e5fe0c8"
    );
    assert_eq!(format_created(&Err(taken)), "ERROR: Username 'alice' already exists");
    assert_eq!(format_found(&Ok(alice)), ALICE_INFO);
    assert_eq!(format_found(&Err(missing)), "ERROR: Username 'x' not found");
    assert_eq!(format_deleted(&Ok(())), "OK: User deleted");
    assert_eq!(
        format_deleted(&Err(UserError::UserNotFound("User ID 'y' not found".to_string()))),
        "ERROR: User ID 'y' not found"
    );
}
