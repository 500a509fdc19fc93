use better_than_basic::users::{LoginResult, Users, UsersError};

fn hashed(password: &str) -> String {
    bcrypt::hash(password, 4).unwrap()
}

#[test]
fn login_answers_for_each_case() {
    let users = Users::new(vec![
        ("alice".to_string(), hashed("secret")),
        ("bob".to_string(), hashed("hunter2")),
    ])
    .unwrap();
    assert_eq!(users.login("alice", "secret"), LoginResult::Correct);
    assert_eq!(users.login("alice", "wrong"), LoginResult::WrongPassword);
    assert_eq!(users.login("bob", "hunter2"), LoginResult::Correct);
    assert_eq!(users.login("bob", "secret"), LoginResult::WrongPassword);
    assert_eq!(users.login("carol", "secret"), LoginResult::UserNotFound);
}

#[test]
fn usernames_match_exactly() {
    let users = Users::new(vec![("alice".to_string(), hashed("secret"))]).unwrap();
    assert_eq!(users.login("Alice", "secret"), LoginResult::UserNotFound);
    assert_eq!(users.login("alice ", "secret"), LoginResult::UserNotFound);
    assert_eq!(users.login("", "secret"), LoginResult::UserNotFound);
}

#[test]
fn empty_store_finds_nobody() {
    let users = Users::new(vec![]).unwrap();
    assert_eq!(users.login("alice", "secret"), LoginResult::UserNotFound);
}

#[test]
fn malformed_hash_is_refused() {
    let r = Users::new(vec![
        ("alice".to_string(), hashed("secret")),
        ("bob".to_string(), "plaintext".to_string()),
    ]);
    assert!(matches!(r, Err(UsersError::MalformedHash)));
}

#[test]
fn duplicate_username_is_refused() {
    let r = Users::new(vec![
        ("alice".to_string(), hashed("secret")),
        ("alice".to_string(), hashed("other")),
    ]);
    assert!(matches!(r, Err(UsersError::DuplicateUsername)));
}

#[test]
fn malformed_hash_is_reported_before_duplicates() {
    let r = Users::new(vec![
        ("alice".to_string(), hashed("secret")),
        ("alice".to_string(), "$2y$xx$nothing".to_string()),
    ]);
    assert!(matches!(r, Err(UsersError::MalformedHash)));
}
