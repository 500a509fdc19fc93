use vstd::prelude::*;

use crate::text::{str_eq, views};

verus! {

/// Why a login attempt was turned down.
#[derive(Clone, Copy, Debug, PartialEq, Eq, Structural, PartialOrd, Ord, Hash)]
pub enum LoginError {
    UsernameMissing,
    UsernameNotFound,
    PasswordMissing,
    PasswordIncorrect,
}

/// The stable identifier of an error kind, used in query strings.
pub open spec fn error_id(e: LoginError) -> Seq<char> {
    match e {
        LoginError::UsernameMissing => "username_missing"@,
        LoginError::UsernameNotFound => "username_not_found"@,
        LoginError::PasswordMissing => "password_missing"@,
        LoginError::PasswordIncorrect => "password_incorrect"@,
    }
}

/// The error kind that an identifier names, if any.
pub open spec fn error_from_id(s: Seq<char>) -> Option<LoginError> {
    if s == "username_missing"@ {
        Some(LoginError::UsernameMissing)
    } else if s == "username_not_found"@ {
        Some(LoginError::UsernameNotFound)
    } else if s == "password_missing"@ {
        Some(LoginError::PasswordMissing)
    } else if s == "password_incorrect"@ {
        Some(LoginError::PasswordIncorrect)
    } else {
        None
    }
}

/// The form field that an error kind is shown next to.
pub open spec fn field_of(e: LoginError) -> Seq<char> {
    match e {
        LoginError::UsernameMissing | LoginError::UsernameNotFound => "username"@,
        LoginError::PasswordMissing | LoginError::PasswordIncorrect => "password"@,
    }
}

/// Decoding a list of identifiers: known ones become error kinds, in order;
/// unknown ones are dropped.
pub open spec fn decode(ids: Seq<Seq<char>>) -> Seq<LoginError>
    decreases ids.len(),
{
    if ids.len() == 0 {
        Seq::empty()
    } else {
        let front = decode(ids.drop_last());
        match error_from_id(ids.last()) {
            Some(e) => front.push(e),
            None => front,
        }
    }
}

/// One `error=<identifier>` pair of a query string.
pub open spec fn query_pair(e: LoginError) -> Seq<char> {
    "error="@ + error_id(e)
}

/// The query string that carries a list of errors: one pair per error,
/// joined by `&`.
pub open spec fn query_of(errors: Seq<LoginError>) -> Seq<char>
    decreases errors.len(),
{
    if errors.len() == 0 {
        Seq::empty()
    } else if errors.len() == 1 {
        query_pair(errors[0])
    } else {
        query_of(errors.drop_last()) + "&"@ + query_pair(errors.last())
    }
}

impl LoginError {
    /// The stable identifier of this error kind.
    pub fn as_str(&self) -> (r: &'static str)
        ensures
            r@ == error_id(*self),
    {
        match *self {
            LoginError::UsernameMissing => "username_missing",
            LoginError::UsernameNotFound => "username_not_found",
            LoginError::PasswordMissing => "password_missing",
            LoginError::PasswordIncorrect => "password_incorrect",
        }
    }

    /// Decodes identifiers into error kinds, keeping their order and
    /// dropping the identifiers that name no error kind.
    pub fn from_strings(errors: &Vec<String>) -> (r: Vec<LoginError>)
        ensures
            r@ == decode(views(errors@)),
    {
        let mut out: Vec<LoginError> = Vec::new();
        let mut i: usize = 0;
        while i < errors.len()
            invariant
                i <= errors@.len(),
                out@ == decode(views(errors@).take(i as int)),
            decreases errors@.len() - i,
        {
            let ghost ids = views(errors@);
            assert(ids.take(i as int + 1).drop_last() =~= ids.take(i as int));
            match LoginError::from_string(errors[i].as_str()) {
                Some(e) => out.push(e),
                None => {},
            }
            i = i + 1;
        }
        assert(views(errors@).take(errors@.len() as int) =~= views(errors@));
        out
    }

    /// Encodes errors as a query string of `error=<identifier>` pairs
    /// joined by `&`.
    pub fn to_query(errors: Vec<LoginError>) -> (r: String)
        ensures
            r@ == query_of(errors@),
    {
        let mut out = String::new();
        let mut i: usize = 0;
        while i < errors.len()
            invariant
                i <= errors@.len(),
                out@ == query_of(errors@.take(i as int)),
            decreases errors@.len() - i,
        {
            let ghost before = errors@.take(i as int);
            assert(errors@.take(i as int + 1).drop_last() =~= before);
            if i > 0 {
                out.append("&");
            }
            out.append("error=");
            out.append(errors[i].as_str());
            proof {
                if i > 0 {
                    assert(out@ =~= query_of(before) + "&"@ + query_pair(errors@[i as int]));
                } else {
                    assert(out@ =~= query_pair(errors@[i as int]));
                }
            }
            i = i + 1;
        }
        assert(errors@.take(errors@.len() as int) =~= errors@);
        out
    }

    /// The error kind that an identifier names, if any.
    pub fn from_string(error: &str) -> (r: Option<LoginError>)
        ensures
            r == error_from_id(error@),
    {
        if str_eq(error, "username_missing") {
            Some(LoginError::UsernameMissing)
        } else if str_eq(error, "username_not_found") {
            Some(LoginError::UsernameNotFound)
        } else if str_eq(error, "password_missing") {
            Some(LoginError::PasswordMissing)
        } else if str_eq(error, "password_incorrect") {
            Some(LoginError::PasswordIncorrect)
        } else {
            None
        }
    }

    /// The form field that this error is shown next to.
    pub fn get_field(&self) -> (r: &'static str)
        ensures
            r@ == field_of(*self),
    {
        match *self {
            LoginError::UsernameMissing | LoginError::UsernameNotFound => "username",
            LoginError::PasswordMissing | LoginError::PasswordIncorrect => "password",
        }
    }
}

/// Each identifier names its own error kind.
pub proof fn lemma_id_names_error(e: LoginError)
    ensures
        error_from_id(error_id(e)) == Some(e),
{
    reveal_strlit("username_missing");
    reveal_strlit("username_not_found");
    reveal_strlit("password_missing");
    reveal_strlit("password_incorrect");
    assert("username_missing"@.len() != "username_not_found"@.len());
    assert("password_missing"@.len() != "password_incorrect"@.len());
    assert("username_missing"@[0] != "password_missing"@[0]);
    assert("username_missing"@[0] != "password_incorrect"@[0]);
    assert("username_not_found"@[0] != "password_missing"@[0]);
    assert("username_not_found"@[0] != "password_incorrect"@[0]);
}

/// Decoding the identifiers of a list of errors gives back that list.
pub proof fn lemma_decode_ids(errors: Seq<LoginError>)
    ensures
        decode(errors.map_values(|e: LoginError| error_id(e))) == errors,
    decreases errors.len(),
{
    let ids = errors.map_values(|e: LoginError| error_id(e));
    if errors.len() > 0 {
        lemma_decode_ids(errors.drop_last());
        assert(ids.drop_last() =~= errors.drop_last().map_values(|e: LoginError| error_id(e)));
        lemma_id_names_error(errors.last());
        assert(errors.drop_last().push(errors.last()) =~= errors);
    } else {
        assert(errors =~= Seq::<LoginError>::empty());
    }
}

/// Round trip: the identifiers of a list of errors, with identifiers that
/// name no error kind put in anywhere among them, decode to that list, in
/// order.
pub proof fn lemma_round_trip(errors: Seq<LoginError>, ids: Seq<Seq<char>>)
    requires
        decode_known(ids) == errors.map_values(|e: LoginError| error_id(e)),
    ensures
        decode(ids) == errors,
{
    lemma_decode_known(ids);
    lemma_decode_ids(errors);
}

/// The identifiers in a list that name an error kind, in order.
pub open spec fn decode_known(ids: Seq<Seq<char>>) -> Seq<Seq<char>>
    decreases ids.len(),
{
    if ids.len() == 0 {
        Seq::empty()
    } else if error_from_id(ids.last()) is Some {
        decode_known(ids.drop_last()).push(ids.last())
    } else {
        decode_known(ids.drop_last())
    }
}

/// Unknown identifiers do not change what a list decodes to.
pub proof fn lemma_decode_known(ids: Seq<Seq<char>>)
    ensures
        decode(decode_known(ids)) == decode(ids),
    decreases ids.len(),
{
    if ids.len() > 0 {
        lemma_decode_known(ids.drop_last());
        if error_from_id(ids.last()) is Some {
            let k = decode_known(ids.drop_last());
            assert(k.push(ids.last()).drop_last() =~= k);
        }
    }
}

} // verus!
