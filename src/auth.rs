use vstd::prelude::*;

use crate::errors::{query_of, LoginError};
use crate::sessions::{lemma_issued_is_live, Sessions};
use crate::text::{str_eq, views};
use crate::users::{login_result, LoginResult, Users};

verus! {

/// Name of the cookie that carries the session token.
pub const SESSION_COOKIE: &'static str = "session-id";

/// Path for which the session cookie is set.
pub const COOKIE_PATH: &'static str = "/";

/// The name and value of a cookie header string, as the cookie crate parses
/// them, or none if it does not parse.
pub uninterp spec fn cookie_pair(s: Seq<char>) -> Option<(Seq<char>, Seq<char>)>;

/// Relies on cookie::Cookie::parse, name and value: the name and value of one
/// cookie string, or none where it does not parse.
#[verifier::external_body]
fn parse_cookie(s: &str) -> (r: Option<(String, String)>)
    ensures
        match r {
            Some(p) => cookie_pair(s@) == Some((p.0@, p.1@)),
            None => cookie_pair(s@) is None,
        },
{
    match cookie::Cookie::parse(s) {
        Ok(c) => Some((c.name().to_string(), c.value().to_string())),
        Err(_) => None,
    }
}

/// Relies on cookie::CookieBuilder with http_only and path, and on the
/// cookie's Display: `name=value; HttpOnly; Path=path`.
#[verifier::external_body]
fn http_only_cookie(name: &str, value: &str, path: &str) -> (r: String)
    ensures
        r@ == name@ + "="@ + value@ + "; HttpOnly; Path="@ + path@,
{
    cookie::Cookie::build(name, value).http_only(true).path(path).finish().to_string()
}

/// The `Set-Cookie` value that hands a session token to the browser.
pub open spec fn session_cookie(token: Seq<char>) -> Seq<char> {
    SESSION_COOKIE@ + "="@ + token + "; HttpOnly; Path="@ + COOKIE_PATH@
}

/// The value of the first cookie named `session-id` among cookie strings.
pub open spec fn session_cookie_value(cookies: Seq<Seq<char>>) -> Option<Seq<char>>
    decreases cookies.len(),
{
    if cookies.len() == 0 {
        None
    } else {
        match cookie_pair(cookies[0]) {
            Some(p) => if p.0 == SESSION_COOKIE@ {
                Some(p.1)
            } else {
                session_cookie_value(cookies.drop_first())
            },
            None => session_cookie_value(cookies.drop_first()),
        }
    }
}

/// The view of an optional string slice.
pub open spec fn str_view(v: Option<&str>) -> Option<Seq<char>> {
    match v {
        Some(s) => Some(s@),
        None => None,
    }
}

/// The view of an optional string.
pub open spec fn string_view(v: Option<String>) -> Option<Seq<char>> {
    match v {
        Some(s) => Some(s@),
        None => None,
    }
}

/// The views of the values of an optional form parameter.
pub open spec fn param_view(v: Option<&Vec<String>>) -> Option<Seq<Seq<char>>> {
    match v {
        Some(values) => Some(views(values@)),
        None => None,
    }
}

/// A form parameter is taken when it has exactly one value and that value
/// is not empty.
pub open spec fn form_value(param: Option<Seq<Seq<char>>>) -> Option<Seq<char>> {
    match param {
        Some(values) => if values.len() == 1 && values[0].len() > 0 {
            Some(values[0])
        } else {
            None
        },
        None => None,
    }
}

/// A login field counts as given when it is present and not empty.
pub open spec fn given(v: Option<Seq<char>>) -> bool {
    v is Some && v->0.len() > 0
}

/// The errors for missing fields.
pub open spec fn missing_errors(username_given: bool, password_given: bool) -> Seq<LoginError> {
    if !username_given && !password_given {
        seq![LoginError::UsernameMissing, LoginError::PasswordMissing]
    } else if !username_given {
        seq![LoginError::UsernameMissing]
    } else if !password_given {
        seq![LoginError::PasswordMissing]
    } else {
        Seq::empty()
    }
}

/// The errors a login attempt ends with; none when it succeeds.
pub open spec fn expected_errors(
    creds: Seq<(Seq<char>, Seq<char>)>,
    username: Option<Seq<char>>,
    password: Option<Seq<char>>,
) -> Seq<LoginError> {
    if !given(username) || !given(password) {
        missing_errors(given(username), given(password))
    } else {
        match login_result(creds, username->0, password->0) {
            LoginResult::UserNotFound => seq![LoginError::UsernameNotFound],
            LoginResult::WrongPassword => seq![LoginError::PasswordIncorrect],
            LoginResult::Correct => Seq::empty(),
        }
    }
}

/// Where a failed login sends the browser back to: the login page with the
/// errors in its query string, and the return address if there is one.
pub open spec fn error_location(errors: Seq<LoginError>, return_url: Option<Seq<char>>) -> Seq<
    char,
> {
    "/?"@ + query_of(errors) + match return_url {
        Some(u) => "&return="@ + u,
        None => Seq::empty(),
    }
}

/// The answer of the forward-auth check.
#[derive(Clone, Copy, Debug, PartialEq, Eq, Structural)]
pub enum AuthStatus {
    Authorized,
    Unauthorized,
}

/// What to answer a login form submission with.
pub enum LoginReply {
    /// Send the browser back to the login page at `location`.
    Rejected { location: String },
    /// Set `set_cookie`, which carries the new session `token`, and send the
    /// browser to `return_to`, or to the success page if there is none.
    Accepted { token: String, set_cookie: String, return_to: Option<String> },
}

/// `None` for an empty string, the string otherwise.
pub fn non_empty_string(value: String) -> (r: Option<String>)
    ensures
        value@.len() == 0 ==> r is None,
        value@.len() > 0 ==> r == Some(value),
{
    if value.unicode_len() == 0 {
        None
    } else {
        Some(value)
    }
}

/// The only value of a list, or `None` unless it has exactly one.
pub fn one_or_none(value: &Vec<String>) -> (r: Option<String>)
    ensures
        value@.len() == 1 ==> r == Some(value@[0]),
        value@.len() != 1 ==> r is None,
{
    if value.len() == 1 {
        Some(value[0].clone())
    } else {
        None
    }
}

/// The value of a form parameter: its only value, if it has exactly one and
/// that one is not empty.
pub fn single_value(param: Option<&Vec<String>>) -> (r: Option<String>)
    ensures
        string_view(r) == form_value(param_view(param)),
{
    match param {
        Some(values) => match one_or_none(values) {
            Some(v) => non_empty_string(v),
            None => None,
        },
        None => None,
    }
}

/// One login attempt: checks that both fields are given, then the
/// credentials, and on success issues a session token.
pub fn attempt(
    users: &Users,
    sessions: &mut Sessions,
    username: Option<&str>,
    password: Option<&str>,
) -> (r: Result<String, Vec<LoginError>>)
    requires
        old(sessions).wf(),
    ensures
        final(sessions).wf(),
        match r {
            Ok(token) => {
                &&& expected_errors(users@, str_view(username), str_view(password)).len() == 0
                &&& Sessions::issue_step(*old(sessions), *final(sessions), token@)
            },
            Err(errors) => {
                &&& errors@ == expected_errors(users@, str_view(username), str_view(password))
                &&& errors@.len() > 0
                &&& *final(sessions) == *old(sessions)
            },
        },
        !given(str_view(username)) ==> r is Err && (r->Err_0@ == seq![LoginError::UsernameMissing]
            || r->Err_0@ == seq![LoginError::UsernameMissing, LoginError::PasswordMissing]),
        r is Ok && old(sessions).capacity() > 0 ==> final(sessions)@.contains(r->Ok_0@),
{
    let username_given = match username {
        Some(u) => u.unicode_len() > 0,
        None => false,
    };
    let password_given = match password {
        Some(p) => p.unicode_len() > 0,
        None => false,
    };
    if !username_given && !password_given {
        return Err(vec![LoginError::UsernameMissing, LoginError::PasswordMissing]);
    }
    if !username_given {
        return Err(vec![LoginError::UsernameMissing]);
    }
    if !password_given {
        return Err(vec![LoginError::PasswordMissing]);
    }
    let u = username.unwrap();
    let p = password.unwrap();
    match users.login(u, p) {
        LoginResult::UserNotFound => Err(vec![LoginError::UsernameNotFound]),
        LoginResult::WrongPassword => Err(vec![LoginError::PasswordIncorrect]),
        LoginResult::Correct => {
            let token = sessions.create_session();
            Ok(token)
        },
    }
}

/// The location a failed login redirects to: `/?` with the errors as a
/// query string, then `&return=` and the return address if there is one.
pub fn redirect_with_errors(errors: Vec<LoginError>, return_url: Option<String>) -> (r: String)
    ensures
        r@ == error_location(errors@, string_view(return_url)),
{
    let mut path = String::from_str("/?");
    let query = LoginError::to_query(errors);
    path.append(query.as_str());
    match return_url {
        Some(u) => {
            path.append("&return=");
            path.append(u.as_str());
        },
        None => {},
    }
    path
}

/// Handles a login form submission from its `username`, `password` and
/// `return` parameters.
pub fn process_login(
    users: &Users,
    sessions: &mut Sessions,
    username: Option<&Vec<String>>,
    password: Option<&Vec<String>>,
    return_to: Option<&Vec<String>>,
) -> (r: LoginReply)
    requires
        old(sessions).wf(),
    ensures
        final(sessions).wf(),
        ({
            let errors = expected_errors(
                users@,
                form_value(param_view(username)),
                form_value(param_view(password)),
            );
            let ret = form_value(param_view(return_to));
            match r {
                LoginReply::Rejected { location } => {
                    &&& errors.len() > 0
                    &&& location@ == error_location(errors, ret)
                    &&& *final(sessions) == *old(sessions)
                },
                LoginReply::Accepted { token, set_cookie, return_to } => {
                    &&& errors.len() == 0
                    &&& Sessions::issue_step(*old(sessions), *final(sessions), token@)
                    &&& set_cookie@ == session_cookie(token@)
                    &&& string_view(return_to) == ret
                },
            }
        }),
{
    let u = single_value(username);
    let p = single_value(password);
    let ret = single_value(return_to);
    let u_ref: Option<&str> = match &u {
        Some(s) => Some(s.as_str()),
        None => None,
    };
    let p_ref: Option<&str> = match &p {
        Some(s) => Some(s.as_str()),
        None => None,
    };
    match attempt(users, sessions, u_ref, p_ref) {
        Ok(token) => {
            let set_cookie = http_only_cookie(SESSION_COOKIE, token.as_str(), COOKIE_PATH);
            LoginReply::Accepted { token, set_cookie, return_to: ret }
        },
        Err(errors) => LoginReply::Rejected { location: redirect_with_errors(errors, ret) },
    }
}

/// The session token among cookie strings: the value of the first cookie
/// named `session-id`.
pub fn session_token(cookies: &Vec<String>) -> (r: Option<String>)
    ensures
        string_view(r) == session_cookie_value(views(cookies@)),
{
    let n = cookies.len();
    let mut i: usize = 0;
    assert(views(cookies@).subrange(0, n as int) =~= views(cookies@));
    while i < n
        invariant
            n == cookies@.len(),
            i <= n,
            session_cookie_value(views(cookies@)) == session_cookie_value(
                views(cookies@).subrange(i as int, n as int),
            ),
        decreases n - i,
    {
        let ghost rest = views(cookies@).subrange(i as int, n as int);
        assert(rest.drop_first() =~= views(cookies@).subrange(i as int + 1, n as int));
        assert(rest[0] == cookies@[i as int]@);
        match parse_cookie(cookies[i].as_str()) {
            Some(pair) => {
                if str_eq(pair.0.as_str(), SESSION_COOKIE) {
                    return Some(pair.1);
                }
            },
            None => {},
        }
        i = i + 1;
    }
    None
}

/// The forward-auth check: an absent token is unauthorized; a present one
/// is authorized exactly when it is a live session.
pub fn check(sessions: &mut Sessions, token: Option<&str>) -> (r: AuthStatus)
    requires
        old(sessions).wf(),
    ensures
        final(sessions).wf(),
        match token {
            None => r == AuthStatus::Unauthorized && *final(sessions) == *old(sessions),
            Some(t) => Sessions::check_step(
                *old(sessions),
                *final(sessions),
                t@,
                r == AuthStatus::Authorized,
            ),
        },
        token is Some && !old(sessions).issued().contains(token->0@) ==> r
            == AuthStatus::Unauthorized,
{
    match token {
        None => AuthStatus::Unauthorized,
        Some(t) => if sessions.check_session(t) {
            AuthStatus::Authorized
        } else {
            AuthStatus::Unauthorized
        },
    }
}

/// The forward-auth check on a request's cookie strings.
pub fn check_auth(sessions: &mut Sessions, cookies: &Vec<String>) -> (r: AuthStatus)
    requires
        old(sessions).wf(),
    ensures
        final(sessions).wf(),
        match session_cookie_value(views(cookies@)) {
            None => r == AuthStatus::Unauthorized && *final(sessions) == *old(sessions),
            Some(t) => Sessions::check_step(
                *old(sessions),
                *final(sessions),
                t,
                r == AuthStatus::Authorized,
            ),
        },
{
    let token = session_token(cookies);
    match &token {
        Some(t) => check(sessions, Some(t.as_str())),
        None => check(sessions, None),
    }
}

/// A login with valid credentials succeeds, and a check of the token it
/// hands out, made right afterwards, is authorized, provided the registry
/// has room for at least one session.
pub proof fn lemma_login_then_check(
    users: Users,
    username: Seq<char>,
    password: Seq<char>,
    before: Sessions,
    after: Sessions,
    token: Seq<char>,
)
    requires
        before.wf(),
        before.capacity() > 0,
        username.len() > 0,
        password.len() > 0,
        login_result(users@, username, password) == LoginResult::Correct,
        Sessions::issue_step(before, after, token),
    ensures
        expected_errors(users@, Some(username), Some(password)).len() == 0,
        after@.contains(token),
        forall|later: Sessions, found: bool|
            #[trigger] Sessions::check_step(after, later, token, found) ==> found,
{
    lemma_issued_is_live(before, after, token);
}

} // verus!
