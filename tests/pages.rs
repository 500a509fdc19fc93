use better_than_basic::errors::LoginError;
use better_than_basic::i18n::I18n;
use better_than_basic::pages::{login_page, success_page};

fn lookup<'a>(pairs: &'a [(&'static str, &'static str)], key: &str) -> Option<&'a str> {
    pairs.iter().find(|p| p.0 == key).map(|p| p.1)
}

#[test]
fn english_catalog() {
    let data = I18n::new("en").get_catalog(vec![], vec![]);
    assert_eq!(data.i18n.len(), 10);
    assert_eq!(lookup(&data.i18n, "locale"), Some("en"));
    assert_eq!(lookup(&data.i18n, "login_title"), Some("Login"));
    assert_eq!(lookup(&data.i18n, "success_message"), Some("You are now logged in."));
    assert!(data.errors.is_empty());
    assert!(data.form_data.is_empty());
}

#[test]
fn french_catalog() {
    let data = I18n::new("fr").get_catalog(vec![LoginError::PasswordIncorrect], vec![]);
    assert_eq!(lookup(&data.i18n, "locale"), Some("fr"));
    assert_eq!(lookup(&data.i18n, "success_title"), Some("Succès!"));
    assert_eq!(
        data.errors,
        vec![("password", "Nom d'utilisateur ou mot de passe invalide.")]
    );
}

#[test]
fn catalog_keys_are_sorted() {
    let data = I18n::new("en").get_catalog(vec![], vec![]);
    let keys: Vec<&str> = data.i18n.iter().map(|p| p.0).collect();
    let mut sorted = keys.clone();
    sorted.sort();
    assert_eq!(keys, sorted);
}

#[test]
fn supported_locales() {
    assert!(I18n::supports("en"));
    assert!(I18n::supports("fr"));
    assert!(!I18n::supports("de"));
    assert!(!I18n::supports(""));
}

#[test]
fn error_messages_by_field() {
    let data = I18n::new("en").get_catalog(
        vec![LoginError::UsernameMissing, LoginError::PasswordMissing],
        vec![],
    );
    assert_eq!(
        data.errors,
        vec![
            ("password", "You must enter a password"),
            ("username", "You must enter a username"),
        ]
    );
}

#[test]
fn last_error_of_a_field_wins() {
    let data = I18n::new("en").get_catalog(
        vec![LoginError::UsernameMissing, LoginError::UsernameNotFound],
        vec![("return", "/x".to_string())],
    );
    assert_eq!(
        data.errors,
        vec![("username", "Could not find a user with that username")]
    );
    assert_eq!(data.form_data, vec![("return", "/x".to_string())]);
}

#[test]
fn login_page_from_parameters() {
    let errors = vec!["password_incorrect".to_string(), "junk".to_string()];
    let ret = vec!["https://app/".to_string()];
    let data = login_page(Some(&errors), Some(&ret));
    assert_eq!(data.errors, vec![("password", "Incorrect password")]);
    assert_eq!(data.form_data, vec![("return", "https://app/".to_string())]);
    assert_eq!(lookup(&data.i18n, "locale"), Some("en"));

    let data = login_page(None, Some(&vec!["".to_string()]));
    assert!(data.errors.is_empty());
    assert!(data.form_data.is_empty());
}

#[test]
fn success_page_has_strings_only() {
    let data = success_page();
    assert_eq!(lookup(&data.i18n, "success_title"), Some("Success!"));
    assert!(data.errors.is_empty());
    assert!(data.form_data.is_empty());
}
