use better_than_basic::errors::LoginError;

#[test]
fn identifiers_decode_to_their_kinds() {
    assert_eq!(LoginError::from_string("username_missing"), Some(LoginError::UsernameMissing));
    assert_eq!(LoginError::from_string("username_not_found"), Some(LoginError::UsernameNotFound));
    assert_eq!(LoginError::from_string("password_missing"), Some(LoginError::PasswordMissing));
    assert_eq!(LoginError::from_string("password_incorrect"), Some(LoginError::PasswordIncorrect));
}

#[test]
fn unknown_identifier_decodes_to_nothing() {
    assert_eq!(LoginError::from_string("bogus"), None);
    assert_eq!(LoginError::from_string(""), None);
    assert_eq!(LoginError::from_string("Username_missing"), None);
}

#[test]
fn as_str_gives_identifiers() {
    assert_eq!(LoginError::UsernameMissing.as_str(), "username_missing");
    assert_eq!(LoginError::UsernameNotFound.as_str(), "username_not_found");
    assert_eq!(LoginError::PasswordMissing.as_str(), "password_missing");
    assert_eq!(LoginError::PasswordIncorrect.as_str(), "password_incorrect");
}

#[test]
fn fields_of_error_kinds() {
    assert_eq!(LoginError::UsernameMissing.get_field(), "username");
    assert_eq!(LoginError::UsernameNotFound.get_field(), "username");
    assert_eq!(LoginError::PasswordMissing.get_field(), "password");
    assert_eq!(LoginError::PasswordIncorrect.get_field(), "password");
}

#[test]
fn to_query_joins_pairs() {
    assert_eq!(LoginError::to_query(vec![]), "");
    assert_eq!(LoginError::to_query(vec![LoginError::PasswordIncorrect]), "error=password_incorrect");
    assert_eq!(
        LoginError::to_query(vec![LoginError::UsernameMissing, LoginError::PasswordMissing]),
        "error=username_missing&error=password_missing"
    );
}

#[test]
fn from_strings_keeps_order_and_drops_unknown() {
    let ids = vec![
        "password_missing".to_string(),
        "nonsense".to_string(),
        "username_not_found".to_string(),
    ];
    assert_eq!(
        LoginError::from_strings(&ids),
        vec![LoginError::PasswordMissing, LoginError::UsernameNotFound]
    );
    assert_eq!(LoginError::from_strings(&vec![]), vec![]);
}

#[test]
fn round_trip_through_identifiers() {
    let errors = vec![
        LoginError::UsernameNotFound,
        LoginError::PasswordIncorrect,
        LoginError::UsernameMissing,
        LoginError::PasswordMissing,
    ];
    let mut ids: Vec<String> = vec!["extra".to_string()];
    for e in &errors {
        ids.push(e.as_str().to_string());
        ids.push("unknown_kind".to_string());
    }
    assert_eq!(LoginError::from_strings(&ids), errors);
}

#[test]
fn round_trip_through_query_string() {
    let errors = vec![LoginError::UsernameMissing, LoginError::PasswordMissing];
    let query = LoginError::to_query(errors.clone());
    let ids: Vec<String> = query
        .split('&')
        .map(|pair| pair.trim_start_matches("error=").to_string())
        .collect();
    assert_eq!(LoginError::from_strings(&ids), errors);
}
