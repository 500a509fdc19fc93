use vstd::prelude::*;

use crate::text::str_eq;

verus! {

/// Whether bcrypt accepts `password` against the stored `hash`.
pub uninterp spec fn bcrypt_accepts(password: Seq<char>, hash: Seq<char>) -> bool;

/// Whether `hash` has the shape of a bcrypt hash: a known prefix, a cost and
/// a salt with its digest.
pub uninterp spec fn bcrypt_well_formed(hash: Seq<char>) -> bool;

/// Relies on bcrypt::verify: hashes `password` with the cost and salt read
/// from `hash` and compares the digests in constant time. A hash it cannot
/// read counts as a mismatch.
#[verifier::external_body]
fn bcrypt_verify(password: &str, hash: &str) -> (r: bool)
    ensures
        r == bcrypt_accepts(password@, hash@),
{
    match bcrypt::verify(password, hash) {
        Ok(valid) => valid,
        Err(_) => false,
    }
}

/// Relies on bcrypt::HashParts::from_str: whether the hash splits into a
/// known prefix, a cost and a salt with its digest.
#[verifier::external_body]
fn bcrypt_parses(hash: &str) -> (r: bool)
    ensures
        r == bcrypt_well_formed(hash@),
{
    hash.parse::<bcrypt::HashParts>().is_ok()
}

/// One stored credential.
struct User {
    username: String,
    password: String,
}

/// The credential store: usernames with their password hashes, fixed once
/// built.
pub struct Users {
    users: Vec<User>,
}

/// What the store says of a username and password.
#[derive(Clone, Copy, Debug, PartialEq, Eq, Structural)]
pub enum LoginResult {
    UserNotFound,
    WrongPassword,
    Correct,
}

/// Why a credential store could not be built.
#[derive(Clone, Copy, Debug, PartialEq, Eq, Structural)]
pub enum UsersError {
    /// A stored password hash is not a bcrypt hash.
    MalformedHash,
    /// A username occurs twice.
    DuplicateUsername,
}

/// The views of (username, hash) pairs.
pub open spec fn credential_views(v: Seq<(String, String)>) -> Seq<(Seq<char>, Seq<char>)> {
    v.map_values(|p: (String, String)| (p.0@, p.1@))
}

/// The hash stored for `name`: that of the first pair with this username.
pub open spec fn stored_hash(creds: Seq<(Seq<char>, Seq<char>)>, name: Seq<char>) -> Option<
    Seq<char>,
>
    decreases creds.len(),
{
    if creds.len() == 0 {
        None
    } else if creds[0].0 == name {
        Some(creds[0].1)
    } else {
        stored_hash(creds.drop_first(), name)
    }
}

/// What the store answers for `name` and `password`.
pub open spec fn login_result(
    creds: Seq<(Seq<char>, Seq<char>)>,
    name: Seq<char>,
    password: Seq<char>,
) -> LoginResult {
    match stored_hash(creds, name) {
        None => LoginResult::UserNotFound,
        Some(hash) => if bcrypt_accepts(password, hash) {
            LoginResult::Correct
        } else {
            LoginResult::WrongPassword
        },
    }
}

/// Every hash is a bcrypt hash.
pub open spec fn all_well_formed(creds: Seq<(Seq<char>, Seq<char>)>) -> bool {
    forall|i: int| 0 <= i < creds.len() ==> bcrypt_well_formed(#[trigger] creds[i].1)
}

/// No username occurs twice.
pub open spec fn distinct_names(creds: Seq<(Seq<char>, Seq<char>)>) -> bool {
    forall|i: int, j: int|
        0 <= i < j < creds.len() ==> #[trigger] creds[i].0 != #[trigger] creds[j].0
}

impl Users {
    /// The stored (username, hash) pairs.
    pub closed spec fn view(&self) -> Seq<(Seq<char>, Seq<char>)> {
        self.users@.map_values(|u: User| (u.username@, u.password@))
    }

    /// The store's invariant: usernames are unique and every hash is a
    /// bcrypt hash.
    pub open spec fn wf(&self) -> bool {
        &&& distinct_names(self@)
        &&& all_well_formed(self@)
    }

    /// Builds the store from (username, hash) pairs. Fails with
    /// `MalformedHash` if a hash is not a bcrypt hash, and otherwise with
    /// `DuplicateUsername` if a username occurs twice.
    pub fn new(credentials: Vec<(String, String)>) -> (r: Result<Users, UsersError>)
        ensures
            !all_well_formed(credential_views(credentials@)) <==> r == Err::<Users, UsersError>(
                UsersError::MalformedHash,
            ),
            all_well_formed(credential_views(credentials@)) && !distinct_names(
                credential_views(credentials@),
            ) <==> r == Err::<Users, UsersError>(UsersError::DuplicateUsername),
            r is Ok ==> r->Ok_0@ == credential_views(credentials@) && r->Ok_0.wf(),
    {
        let ghost creds = credential_views(credentials@);
        let n = credentials.len();
        let mut i: usize = 0;
        while i < n
            invariant
                n == credentials@.len(),
                creds == credential_views(credentials@),
                i <= n,
                forall|k: int| 0 <= k < i ==> bcrypt_well_formed(#[trigger] creds[k].1),
            decreases n - i,
        {
            if !bcrypt_parses(credentials[i].1.as_str()) {
                assert(!bcrypt_well_formed(creds[i as int].1));
                return Err(UsersError::MalformedHash);
            }
            i = i + 1;
        }
        let mut users: Vec<User> = Vec::new();
        let mut taken: usize = 0;
        while taken < n
            invariant
                n == credentials@.len(),
                creds == credential_views(credentials@),
                all_well_formed(creds),
                taken <= n,
                users@.len() == taken,
                forall|k: int|
                    0 <= k < taken ==> (#[trigger] users@[k]).username@ == creds[k].0
                        && users@[k].password@ == creds[k].1,
                distinct_names(creds.take(taken as int)),
            decreases n - taken,
        {
            let username = credentials[taken].0.clone();
            let password = credentials[taken].1.clone();
            assert(username@ == creds[taken as int].0);
            let mut j: usize = 0;
            while j < taken
                invariant
                    j <= taken,
                    taken < n,
                    users@.len() == taken,
                    n == creds.len(),
                    creds == credential_views(credentials@),
                    all_well_formed(creds),
                    forall|k: int|
                        0 <= k < taken ==> (#[trigger] users@[k]).username@ == creds[k].0,
                    username@ == creds[taken as int].0,
                    forall|k: int| 0 <= k < j ==> creds[k].0 != creds[taken as int].0,
                decreases taken - j,
            {
                if str_eq(users[j].username.as_str(), username.as_str()) {
                    proof {
                        assert(!distinct_names(creds)) by {
                            assert(creds[j as int].0 == creds[taken as int].0);
                        }
                    }
                    return Err(UsersError::DuplicateUsername);
                }
                j = j + 1;
            }
            users.push(User { username, password });
            proof {
                let t = creds.take(taken as int + 1);
                assert forall|a: int, b: int| 0 <= a < b < t.len() implies #[trigger] t[a].0
                    != #[trigger] t[b].0 by {
                    if b < taken {
                        assert(creds.take(taken as int)[a] == t[a]);
                        assert(creds.take(taken as int)[b] == t[b]);
                    }
                }
            }
            taken = taken + 1;
        }
        let store = Users { users };
        assert(store@ =~= creds);
        assert(creds.take(n as int) =~= creds);
        Ok(store)
    }

    /// Looks up `username` (exact match) and checks `password` against its
    /// stored hash.
    pub fn login(&self, username: &str, password: &str) -> (r: LoginResult)
        ensures
            r == login_result(self@, username@, password@),
    {
        let n = self.users.len();
        let mut i: usize = 0;
        assert(self@.subrange(0, n as int) =~= self@);
        while i < n
            invariant
                n == self@.len(),
                i <= n,
                stored_hash(self@, username@) == stored_hash(self@.subrange(i as int, n as int), username@),
            decreases n - i,
        {
            let ghost tail = self@.subrange(i as int, n as int);
            assert(tail.drop_first() =~= self@.subrange(i as int + 1, n as int));
            assert(tail[0] == self@[i as int]);
            let user = &self.users[i];
            if str_eq(user.username.as_str(), username) {
                if bcrypt_verify(password, user.password.as_str()) {
                    return LoginResult::Correct;
                } else {
                    return LoginResult::WrongPassword;
                }
            }
            i = i + 1;
        }
        LoginResult::UserNotFound
    }
}

} // verus!
