use better_than_basic::auth::{
    attempt, check, check_auth, non_empty_string, one_or_none, process_login,
    redirect_with_errors, session_token, single_value, AuthStatus, LoginReply,
};
use better_than_basic::errors::LoginError;
use better_than_basic::sessions::Sessions;
use better_than_basic::users::Users;

fn store() -> Users {
    Users::new(vec![("alice".to_string(), bcrypt::hash("secret", 4).unwrap())]).unwrap()
}

fn values(v: &[&str]) -> Vec<String> {
    v.iter().map(|s| s.to_string()).collect()
}

#[test]
fn alice_scenario() {
    let users = store();
    let mut sessions = Sessions::new().unwrap();
    let token = attempt(&users, &mut sessions, Some("alice"), Some("secret")).unwrap();
    assert_eq!(token.len(), 50);
    assert_eq!(check(&mut sessions, Some(&token)), AuthStatus::Authorized);
    assert_eq!(
        attempt(&users, &mut sessions, Some("alice"), Some("wrong")),
        Err(vec![LoginError::PasswordIncorrect])
    );
    assert_eq!(
        attempt(&users, &mut sessions, Some("bob"), Some("anything")),
        Err(vec![LoginError::UsernameNotFound])
    );
    assert_eq!(
        attempt(&users, &mut sessions, Some(""), Some("")),
        Err(vec![LoginError::UsernameMissing, LoginError::PasswordMissing])
    );
}

#[test]
fn missing_fields() {
    let users = store();
    let mut sessions = Sessions::new().unwrap();
    assert_eq!(
        attempt(&users, &mut sessions, None, None),
        Err(vec![LoginError::UsernameMissing, LoginError::PasswordMissing])
    );
    assert_eq!(
        attempt(&users, &mut sessions, None, Some("secret")),
        Err(vec![LoginError::UsernameMissing])
    );
    assert_eq!(
        attempt(&users, &mut sessions, Some(""), Some("secret")),
        Err(vec![LoginError::UsernameMissing])
    );
    assert_eq!(
        attempt(&users, &mut sessions, Some("alice"), None),
        Err(vec![LoginError::PasswordMissing])
    );
    assert_eq!(
        attempt(&users, &mut sessions, Some("nobody"), Some("")),
        Err(vec![LoginError::PasswordMissing])
    );
}

#[test]
fn successive_logins_get_distinct_tokens() {
    let users = store();
    let mut sessions = Sessions::new().unwrap();
    let a = attempt(&users, &mut sessions, Some("alice"), Some("secret")).unwrap();
    let b = attempt(&users, &mut sessions, Some("alice"), Some("secret")).unwrap();
    assert_ne!(a, b);
    assert_eq!(check(&mut sessions, Some(&a)), AuthStatus::Authorized);
    assert_eq!(check(&mut sessions, Some(&b)), AuthStatus::Authorized);
}

#[test]
fn check_without_token_is_unauthorized() {
    let mut sessions = Sessions::new().unwrap();
    sessions.create_session();
    assert_eq!(check(&mut sessions, None), AuthStatus::Unauthorized);
    assert_eq!(check(&mut sessions, Some("made-up")), AuthStatus::Unauthorized);
}

#[test]
fn form_value_helpers() {
    assert_eq!(non_empty_string(String::new()), None);
    assert_eq!(non_empty_string("x".to_string()), Some("x".to_string()));
    assert_eq!(one_or_none(&values(&[])), None);
    assert_eq!(one_or_none(&values(&["a"])), Some("a".to_string()));
    assert_eq!(one_or_none(&values(&["a", "b"])), None);
    assert_eq!(single_value(None), None);
    assert_eq!(single_value(Some(&values(&[""]))), None);
    assert_eq!(single_value(Some(&values(&["alice"]))), Some("alice".to_string()));
    assert_eq!(single_value(Some(&values(&["alice", "bob"]))), None);
}

#[test]
fn redirect_locations() {
    assert_eq!(
        redirect_with_errors(vec![LoginError::UsernameMissing, LoginError::PasswordMissing], None),
        "/?error=username_missing&error=password_missing"
    );
    assert_eq!(
        redirect_with_errors(vec![LoginError::PasswordIncorrect], Some("https://app/x".to_string())),
        "/?error=password_incorrect&return=https://app/x"
    );
}

#[test]
fn process_login_success_sets_cookie() {
    let users = store();
    let mut sessions = Sessions::new().unwrap();
    let reply = process_login(
        &users,
        &mut sessions,
        Some(&values(&["alice"])),
        Some(&values(&["secret"])),
        Some(&values(&["https://app/home"])),
    );
    match reply {
        LoginReply::Accepted { token, set_cookie, return_to } => {
            assert_eq!(set_cookie, format!("session-id={}; HttpOnly; Path=/", token));
            assert_eq!(return_to, Some("https://app/home".to_string()));
            let cookies = vec![format!("session-id={}", token)];
            assert_eq!(check_auth(&mut sessions, &cookies), AuthStatus::Authorized);
        }
        LoginReply::Rejected { .. } => panic!("valid credentials were rejected"),
    }
}

#[test]
fn process_login_failure_redirects_with_errors() {
    let users = store();
    let mut sessions = Sessions::new().unwrap();
    let reply = process_login(
        &users,
        &mut sessions,
        Some(&values(&["alice"])),
        Some(&values(&["nope"])),
        None,
    );
    match reply {
        LoginReply::Rejected { location } => {
            assert_eq!(location, "/?error=password_incorrect")
        }
        LoginReply::Accepted { .. } => panic!("a wrong password was accepted"),
    }
    let reply = process_login(&users, &mut sessions, None, None, Some(&values(&["/back"])));
    match reply {
        LoginReply::Rejected { location } => assert_eq!(
            location,
            "/?error=username_missing&error=password_missing&return=/back"
        ),
        LoginReply::Accepted { .. } => panic!("an empty form was accepted"),
    }
}

#[test]
fn session_token_from_cookies() {
    assert_eq!(session_token(&values(&[])), None);
    assert_eq!(session_token(&values(&["other=1"])), None);
    assert_eq!(session_token(&values(&["other=1", "session-id=abc"])), Some("abc".to_string()));
    assert_eq!(session_token(&values(&[" session-id = xyz "])), Some("xyz".to_string()));
    assert_eq!(
        session_token(&values(&["session-id=first", "session-id=second"])),
        Some("first".to_string())
    );
    assert_eq!(session_token(&values(&["garbage", "session-id=t"])), Some("t".to_string()));
}

#[test]
fn check_auth_on_cookies() {
    let mut sessions = Sessions::new().unwrap();
    let token = sessions.create_session();
    let good = vec!["theme=dark".to_string(), format!("session-id={}", token)];
    assert_eq!(check_auth(&mut sessions, &good), AuthStatus::Authorized);
    let bad = vec!["session-id=forged".to_string()];
    assert_eq!(check_auth(&mut sessions, &bad), AuthStatus::Unauthorized);
    assert_eq!(check_auth(&mut sessions, &vec![]), AuthStatus::Unauthorized);
}
