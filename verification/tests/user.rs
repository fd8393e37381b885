use user_management::models::{Person, User, UserRole, UserStatus};
use user_management::utils::clock::Timestamp;

fn at(secs: i64) -> Timestamp {
    Timestamp::from_parts(secs, 0).unwrap()
}

fn alice() -> User {
    User::with_identity(
        7,
        "alice".to_string(),
        "alice@x.com".to_string(),
        "A".to_string(),
        "L".to_string(),
        at(100),
    )
}

#[test]
fn a_new_user_is_an_ordinary_user_and_pending() {
    let user = alice();
    assert_eq!(user.id, 7);
    assert_eq!(user.username, "alice");
    assert_eq!(user.email, "alice@x.com");
    assert_eq!(user.first_name, "A");
    assert_eq!(user.last_name, "L");
    assert_eq!(user.role, UserRole::User);
    assert_eq!(user.status, UserStatus::Pending);
    assert_eq!(user.created_at, at(100));
    assert_eq!(user.updated_at, at(100));
}

#[test]
fn new_draws_an_identifier_and_reads_the_clock() {
    let first = User::new("a".to_string(), "b".to_string(), "c".to_string(), "d".to_string());
    let second = User::new("a".to_string(), "b".to_string(), "c".to_string(), "d".to_string());
    assert_ne!(first.id, second.id);
    assert_eq!(first.username, "a");
    assert_eq!(first.email, "b");
    assert_eq!(first.first_name, "c");
    assert_eq!(first.last_name, "d");
    assert_eq!(first.role, UserRole::User);
    assert_eq!(first.status, UserStatus::Pending);
    assert_eq!(first.created_at, first.updated_at);
    // The identifier is a random one in the sense of RFC 4122.
    let id = uuid::Uuid::from_u128(first.id);
    assert_eq!(id.get_version_num(), 4);
    assert_eq!(id.get_variant(), uuid::Variant::RFC4122);
    assert_eq!((first.id >> 76) & 0xf, 4);
    assert_eq!((first.id >> 62) & 0x3, 2);
    assert_eq!((second.id >> 76) & 0xf, 4);
    assert_eq!((second.id >> 62) & 0x3, 2);
}

#[test]
fn new_does_not_validate() {
    let user = User::new("!".to_string(), "nowhere".to_string(), String::new(), String::new());
    assert_eq!(user.username, "!");
    assert_eq!(user.email, "nowhere");
}

#[test]
fn activate_at_sets_the_status_and_the_time_of_update() {
    let mut user = alice();
    user.activate_at(at(200));
    assert_eq!(user.status, UserStatus::Active);
    assert_eq!(user.updated_at, at(200));
    assert_eq!(user.created_at, at(100));
    assert_eq!(user.role, UserRole::User);
    assert_eq!(user.username, "alice");
}

#[test]
fn deactivate_at_sets_the_status_and_the_time_of_update() {
    let mut user = alice();
    user.deactivate_at(at(300));
    assert_eq!(user.status, UserStatus::Inactive);
    assert_eq!(user.updated_at, at(300));
    assert_eq!(user.created_at, at(100));
}

#[test]
fn set_role_at_sets_the_role_and_the_time_of_update() {
    let mut user = alice();
    user.set_role_at(UserRole::Admin, at(400));
    assert_eq!(user.role, UserRole::Admin);
    assert_eq!(user.status, UserStatus::Pending);
    assert_eq!(user.updated_at, at(400));
    assert_eq!(user.created_at, at(100));
}

#[test]
fn rename_at_changes_the_names_that_are_given() {
    let mut user = alice();
    user.rename_at(Some("Bob".to_string()), None, at(500));
    assert_eq!(user.first_name, "Bob");
    assert_eq!(user.last_name, "L");
    assert_eq!(user.updated_at, at(500));
    user.rename_at(None, Some("Smith".to_string()), at(600));
    assert_eq!(user.first_name, "Bob");
    assert_eq!(user.last_name, "Smith");
    assert_eq!(user.updated_at, at(600));
    user.rename_at(None, None, at(700));
    assert_eq!(user.first_name, "Bob");
    assert_eq!(user.last_name, "Smith");
    assert_eq!(user.updated_at, at(700));
}

#[test]
fn the_mutators_read_the_clock() {
    let mut user = alice();
    let before = Timestamp::now();
    user.activate();
    assert_eq!(user.status, UserStatus::Active);
    assert!(before.is_not_after(user.updated_at));
    user.deactivate();
    assert_eq!(user.status, UserStatus::Inactive);
    assert!(before.is_not_after(user.updated_at));
    user.set_role(UserRole::Guest);
    assert_eq!(user.role, UserRole::Guest);
    assert!(before.is_not_after(user.updated_at));
    assert_eq!(user.created_at, at(100));
}

#[test]
fn a_clone_is_equal() {
    let user = alice();
    assert_eq!(user.clone(), user);
    let person = Person {
        first_name: "A".to_string(),
        last_name: "L".to_string(),
        email: "alice@x.com".to_string(),
    };
    assert_eq!(person.clone(), person);
}
