use vstd::prelude::*;

use crate::errors::{field_of, LoginError};
use crate::page_data::{form_view, pairs_view, PageData};

verus! {

/// A language the pages can be shown in.
#[derive(Clone, Copy, Debug, PartialEq, Eq, Structural)]
pub enum Locale {
    En,
    Fr,
}

/// The locale a locale code names, if it is one the pages are written in.
pub open spec fn locale_of(code: Seq<char>) -> Option<Locale> {
    if code == "en"@ {
        Some(Locale::En)
    } else if code == "fr"@ {
        Some(Locale::Fr)
    } else {
        None
    }
}

/// The interface strings of a locale, by key, in increasing key order.
pub open spec fn catalog(locale: Locale) -> Seq<(Seq<char>, Seq<char>)> {
    match locale {
        Locale::En => seq![
            ("locale"@, "en"@),
            ("login_button"@, "Login"@),
            ("login_subtitle"@, "You need to login to access this page:"@),
            ("login_title"@, "Login"@),
            ("password_label"@, "Password:"@),
            ("password_placeholder"@, "password"@),
            ("success_message"@, "You are now logged in."@),
            ("success_title"@, "Success!"@),
            ("username_label"@, "Username:"@),
            ("username_placeholder"@, "username"@),
        ],
        Locale::Fr => seq![
            ("locale"@, "fr"@),
            ("login_button"@, "Identifier"@),
            ("login_subtitle"@, "Vous devez s'identifier pour utiliser cette page:"@),
            ("login_title"@, "Identification"@),
            ("password_label"@, "Mot de passe:"@),
            ("password_placeholder"@, "mot de passe"@),
            ("success_message"@, "Votre compte a été validé."@),
            ("success_title"@, "Succès!"@),
            ("username_label"@, "Nom d'utilisateur:"@),
            ("username_placeholder"@, "nom d'utilisateur"@),
        ],
    }
}

/// The message shown for an error in a locale.
pub open spec fn error_message(locale: Locale, e: LoginError) -> Seq<char> {
    match locale {
        Locale::En => match e {
            LoginError::UsernameMissing => "You must enter a username"@,
            LoginError::UsernameNotFound => "Could not find a user with that username"@,
            LoginError::PasswordMissing => "You must enter a password"@,
            LoginError::PasswordIncorrect => "Incorrect password"@,
        },
        Locale::Fr => match e {
            LoginError::UsernameMissing => "Vous devez entrer un nom d'utilisateur"@,
            LoginError::UsernameNotFound => "Nom d'utilisateur ou mot de passe invalide."@,
            LoginError::PasswordMissing => "Vous devez entrer un mot de passe"@,
            LoginError::PasswordIncorrect => "Nom d'utilisateur ou mot de passe invalide."@,
        },
    }
}

/// Whether an error belongs to the password field.
pub open spec fn is_password_error(e: LoginError) -> bool {
    e == LoginError::PasswordMissing || e == LoginError::PasswordIncorrect
}

/// The last error in a list that belongs to the password field (`password`
/// true) or to the username field (`password` false).
pub open spec fn last_error_of(errors: Seq<LoginError>, password: bool) -> Option<LoginError>
    decreases errors.len(),
{
    if errors.len() == 0 {
        None
    } else if is_password_error(errors.last()) == password {
        Some(errors.last())
    } else {
        last_error_of(errors.drop_last(), password)
    }
}

/// The entry of one field in the error messages, if it has an error.
pub open spec fn field_entry(locale: Locale, e: Option<LoginError>) -> Seq<(Seq<char>, Seq<char>)> {
    match e {
        Some(e) => seq![(field_of(e), error_message(locale, e))],
        None => Seq::empty(),
    }
}

/// The error messages of a page, by field in increasing key order
/// (`password` before `username`): for each field, the message of the last
/// error that belongs to it.
pub open spec fn error_entries(locale: Locale, errors: Seq<LoginError>) -> Seq<
    (Seq<char>, Seq<char>),
> {
    field_entry(locale, last_error_of(errors, true)) + field_entry(
        locale,
        last_error_of(errors, false),
    )
}

/// The message catalog of one locale.
pub struct I18n {
    locale: Locale,
    strings: Vec<(&'static str, &'static str)>,
}

impl I18n {
    /// The locale of this catalog.
    pub closed spec fn locale(&self) -> Locale {
        self.locale
    }

    /// The interface strings of this catalog.
    pub closed spec fn strings(&self) -> Seq<(Seq<char>, Seq<char>)> {
        pairs_view(self.strings@)
    }

    /// Whether a catalog exists for a locale code.
    pub fn supports(locale: &str) -> (r: bool)
        ensures
            r == locale_of(locale@) is Some,
    {
        crate::text::str_eq(locale, "en") || crate::text::str_eq(locale, "fr")
    }

    /// The catalog of the locale `en` or `fr`.
    pub fn new(locale: &str) -> (r: I18n)
        requires
            locale_of(locale@) is Some,
        ensures
            r.locale() == locale_of(locale@)->0,
            r.strings() == catalog(r.locale()),
    {
        let mut strings: Vec<(&'static str, &'static str)> = Vec::new();
        if crate::text::str_eq(locale, "en") {
            strings.push(("locale", "en"));
            strings.push(("login_button", "Login"));
            strings.push(("login_subtitle", "You need to login to access this page:"));
            strings.push(("login_title", "Login"));
            strings.push(("password_label", "Password:"));
            strings.push(("password_placeholder", "password"));
            strings.push(("success_message", "You are now logged in."));
            strings.push(("success_title", "Success!"));
            strings.push(("username_label", "Username:"));
            strings.push(("username_placeholder", "username"));
            let r = I18n { locale: Locale::En, strings };
            assert(r.strings() =~= catalog(Locale::En));
            r
        } else {
            strings.push(("locale", "fr"));
            strings.push(("login_button", "Identifier"));
            strings.push(
                ("login_subtitle", "Vous devez s'identifier pour utiliser cette page:"),
            );
            strings.push(("login_title", "Identification"));
            strings.push(("password_label", "Mot de passe:"));
            strings.push(("password_placeholder", "mot de passe"));
            strings.push(("success_message", "Votre compte a été validé."));
            strings.push(("success_title", "Succès!"));
            strings.push(("username_label", "Nom d'utilisateur:"));
            strings.push(("username_placeholder", "nom d'utilisateur"));
            let r = I18n { locale: Locale::Fr, strings };
            assert(r.strings() =~= catalog(Locale::Fr));
            r
        }
    }

    /// The message this catalog shows for an error.
    pub fn error_message(&self, e: LoginError) -> (r: &'static str)
        ensures
            r@ == error_message(self.locale(), e),
    {
        match self.locale {
            Locale::En => match e {
                LoginError::UsernameMissing => "You must enter a username",
                LoginError::UsernameNotFound => "Could not find a user with that username",
                LoginError::PasswordMissing => "You must enter a password",
                LoginError::PasswordIncorrect => "Incorrect password",
            },
            Locale::Fr => match e {
                LoginError::UsernameMissing => "Vous devez entrer un nom d'utilisateur",
                LoginError::UsernameNotFound => "Nom d'utilisateur ou mot de passe invalide.",
                LoginError::PasswordMissing => "Vous devez entrer un mot de passe",
                LoginError::PasswordIncorrect => "Nom d'utilisateur ou mot de passe invalide.",
            },
        }
    }

    /// The data of a page: this catalog's strings, the message of the last
    /// error of each form field, and the given form values.
    pub fn get_catalog(&self, errors: Vec<LoginError>, form_data: Vec<(&'static str, String)>) -> (r:
        PageData)
        ensures
            pairs_view(r.i18n@) == self.strings(),
            pairs_view(r.errors@) == error_entries(self.locale(), errors@),
            form_view(r.form_data@) == form_view(form_data@),
    {
        let mut strings: Vec<(&'static str, &'static str)> = Vec::new();
        let n = self.strings.len();
        let mut i: usize = 0;
        while i < n
            invariant
                n == self.strings@.len(),
                i <= n,
                strings@ == self.strings@.take(i as int),
            decreases n - i,
        {
            strings.push(self.strings[i]);
            assert(strings@ =~= self.strings@.take(i as int + 1));
            i = i + 1;
        }
        assert(self.strings@.take(n as int) =~= self.strings@);
        let mut last_password: Option<LoginError> = None;
        let mut last_username: Option<LoginError> = None;
        let m = errors.len();
        let mut j: usize = 0;
        while j < m
            invariant
                m == errors@.len(),
                j <= m,
                last_password == last_error_of(errors@.take(j as int), true),
                last_username == last_error_of(errors@.take(j as int), false),
            decreases m - j,
        {
            let e = errors[j];
            assert(errors@.take(j as int + 1).drop_last() =~= errors@.take(j as int));
            match e {
                LoginError::PasswordMissing | LoginError::PasswordIncorrect => {
                    last_password = Some(e);
                },
                LoginError::UsernameMissing | LoginError::UsernameNotFound => {
                    last_username = Some(e);
                },
            }
            j = j + 1;
        }
        assert(errors@.take(m as int) =~= errors@);
        let mut messages: Vec<(&'static str, &'static str)> = Vec::new();
        match last_password {
            Some(e) => messages.push((e.get_field(), self.error_message(e))),
            None => {},
        }
        match last_username {
            Some(e) => messages.push((e.get_field(), self.error_message(e))),
            None => {},
        }
        assert(pairs_view(messages@) =~= error_entries(self.locale(), errors@));
        let r = PageData { i18n: strings, errors: messages, form_data };
        r
    }
}

} // verus!
