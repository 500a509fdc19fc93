use vstd::prelude::*;

use lru_cache::LruCache;
use rand::OsRng;
use rand::Rng;
use std::hash::BuildHasher;
use std::hash::Hash;

verus! {

/// lru_cache's cache, known to Verus only through the wrappers below.
#[verifier::external_type_specification]
#[verifier::external_body]
#[verifier::reject_recursive_types(K)]
#[verifier::reject_recursive_types(V)]
#[verifier::reject_recursive_types(S)]
pub struct ExLruCache<K: Eq + Hash, V, S: BuildHasher>(LruCache<K, V, S>);

/// rand's generator over the operating system's entropy source.
#[verifier::external_type_specification]
#[verifier::external_body]
pub struct ExOsRng(OsRng);

/// The error of opening the entropy source.
#[verifier::external_type_specification]
#[verifier::external_body]
pub struct ExIoError(std::io::Error);

/// The keys of an LRU cache, from least to most recently used.
pub uninterp spec fn lru_keys(c: LruCache<String, bool>) -> Seq<Seq<char>>;

/// The number of entries an LRU cache was made to hold.
pub uninterp spec fn lru_capacity(c: LruCache<String, bool>) -> nat;

/// `s` with every occurrence of `k` taken out, order kept.
pub open spec fn without(s: Seq<Seq<char>>, k: Seq<char>) -> Seq<Seq<char>>
    decreases s.len(),
{
    if s.len() == 0 {
        s
    } else if s.last() == k {
        without(s.drop_last(), k)
    } else {
        without(s.drop_last(), k).push(s.last())
    }
}

/// `k` made the most recently used key.
pub open spec fn touched(s: Seq<Seq<char>>, k: Seq<char>) -> Seq<Seq<char>> {
    without(s, k).push(k)
}

/// The keys after `k` is inserted into a cache holding `s` in recency order,
/// with room for `capacity` entries: `k` becomes the most recent key, and the
/// least recent key leaves if there are then more keys than room.
pub open spec fn after_insert(s: Seq<Seq<char>>, k: Seq<char>, capacity: nat) -> Seq<Seq<char>> {
    let t = touched(s, k);
    if t.len() > capacity {
        t.drop_first()
    } else {
        t
    }
}

/// Relies on lru_cache::LruCache::new: an empty cache with room for
/// `capacity` entries.
#[verifier::external_body]
fn lru_new(capacity: usize) -> (r: LruCache<String, bool>)
    ensures
        lru_keys(r) == Seq::<Seq<char>>::empty(),
        lru_capacity(r) == capacity,
{
    LruCache::new(capacity)
}

/// Relies on lru_cache::LruCache::insert: the key is moved to, or added at,
/// the most recent end, then the least recent entry is removed if the cache
/// holds more entries than its capacity.
#[verifier::external_body]
fn lru_insert(c: &mut LruCache<String, bool>, key: String, value: bool)
    ensures
        lru_keys(*final(c)) == after_insert(lru_keys(*old(c)), key@, lru_capacity(*old(c))),
        lru_capacity(*final(c)) == lru_capacity(*old(c)),
{
    c.insert(key, value);
}

/// Relies on lru_cache::LruCache::contains_key: whether the key is present;
/// a present key is refreshed to the most recent end.
#[verifier::external_body]
fn lru_contains_key(c: &mut LruCache<String, bool>, key: &str) -> (r: bool)
    ensures
        r == lru_keys(*old(c)).contains(key@),
        lru_keys(*final(c)) == (if r {
            touched(lru_keys(*old(c)), key@)
        } else {
            lru_keys(*old(c))
        }),
        lru_capacity(*final(c)) == lru_capacity(*old(c)),
{
    c.contains_key(key)
}

/// Relies on rand::OsRng::new: a generator over the operating system's
/// entropy source, or the error met opening it.
#[verifier::external_body]
fn os_rng() -> (r: Result<OsRng, std::io::Error>) {
    OsRng::new()
}

/// An ASCII letter or digit.
pub open spec fn is_alphanumeric(c: char) -> bool {
    ('a' <= c && c <= 'z') || ('A' <= c && c <= 'Z') || ('0' <= c && c <= '9')
}

/// Relies on rand::Rng::gen_ascii_chars: an endless stream of characters,
/// each drawn from A-Z, a-z and 0-9, of which the first `len` are taken.
#[verifier::external_body]
fn random_alphanumeric(rng: &mut OsRng, len: usize) -> (r: String)
    ensures
        r@.len() == len,
        forall|i: int| 0 <= i < r@.len() ==> is_alphanumeric(#[trigger] r@[i]),
{
    rng.gen_ascii_chars().take(len).collect::<String>()
}

/// Number of characters in a session token.
pub const TOKEN_LENGTH: usize = 50;

/// Number of sessions a registry holds unless told otherwise.
pub const DEFAULT_CAPACITY: usize = 100;

/// The registry of live sessions: a bounded set of tokens in recency order.
/// When a new token would exceed the capacity, the least recently used one
/// is evicted. Checking a token counts as a use of it.
pub struct Sessions {
    rng: OsRng,
    sessions: LruCache<String, bool>,
    issued: Ghost<Set<Seq<char>>>,
}

/// A token that a registry could have issued.
pub open spec fn is_token(t: Seq<char>) -> bool {
    &&& t.len() == TOKEN_LENGTH
    &&& forall|i: int| 0 <= i < t.len() ==> is_alphanumeric(#[trigger] t[i])
}

impl Sessions {
    /// The live tokens, from least to most recently used.
    pub closed spec fn view(&self) -> Seq<Seq<char>> {
        lru_keys(self.sessions)
    }

    /// How many tokens the registry holds at most.
    pub closed spec fn capacity(&self) -> nat {
        lru_capacity(self.sessions)
    }

    /// Every token this registry has ever issued.
    pub closed spec fn issued(&self) -> Set<Seq<char>> {
        self.issued@
    }

    /// The registry's invariant: tokens are distinct, within capacity, and
    /// all of them were issued here.
    pub open spec fn wf(&self) -> bool {
        &&& self@.no_duplicates()
        &&& self@.len() <= self.capacity()
        &&& forall|i: int| 0 <= i < self@.len() ==> self.issued().contains(#[trigger] self@[i])
    }

    /// `after` is `before` once `token` has been issued.
    pub open spec fn issue_step(before: Sessions, after: Sessions, token: Seq<char>) -> bool {
        &&& is_token(token)
        &&& after@ == after_insert(before@, token, before.capacity())
        &&& after.capacity() == before.capacity()
        &&& after.issued() == before.issued().insert(token)
    }

    /// `after` is `before` once `token` has been checked, `found` telling
    /// whether it was live.
    pub open spec fn check_step(before: Sessions, after: Sessions, token: Seq<char>, found: bool) -> bool {
        &&& found == before@.contains(token)
        &&& after@ == (if found {
            touched(before@, token)
        } else {
            before@
        })
        &&& after.capacity() == before.capacity()
        &&& after.issued() == before.issued()
    }

    /// An empty registry with the default capacity, drawing tokens from the
    /// operating system's entropy source; fails if that source cannot be
    /// opened.
    pub fn new() -> (r: Result<Sessions, std::io::Error>)
        ensures
            r is Ok ==> {
                let s = r->Ok_0;
                &&& s.wf()
                &&& s@ == Seq::<Seq<char>>::empty()
                &&& s.capacity() == DEFAULT_CAPACITY
                &&& s.issued() == Set::<Seq<char>>::empty()
            },
    {
        Sessions::with_capacity(DEFAULT_CAPACITY)
    }

    /// An empty registry with room for `capacity` sessions, drawing tokens
    /// from the operating system's entropy source; fails if that source
    /// cannot be opened.
    pub fn with_capacity(capacity: usize) -> (r: Result<Sessions, std::io::Error>)
        ensures
            r is Ok ==> {
                let s = r->Ok_0;
                &&& s.wf()
                &&& s@ == Seq::<Seq<char>>::empty()
                &&& s.capacity() == capacity
                &&& s.issued() == Set::<Seq<char>>::empty()
            },
    {
        match os_rng() {
            Ok(rng) => Ok(Sessions::from_rng(rng, capacity)),
            Err(e) => Err(e),
        }
    }

    /// An empty registry with room for `capacity` sessions that draws its
    /// tokens from `rng`.
    pub fn from_rng(rng: OsRng, capacity: usize) -> (s: Sessions)
        ensures
            s.wf(),
            s@ == Seq::<Seq<char>>::empty(),
            s.capacity() == capacity,
            s.issued() == Set::<Seq<char>>::empty(),
    {
        Sessions { rng, sessions: lru_new(capacity), issued: Ghost(Set::empty()) }
    }

    /// Issues a fresh random token and records it as the most recently used
    /// session, evicting the least recently used one if the registry is full.
    pub fn create_session(&mut self) -> (r: String)
        requires
            old(self).wf(),
        ensures
            final(self).wf(),
            Sessions::issue_step(*old(self), *final(self), r@),
            old(self).capacity() > 0 ==> final(self)@.contains(r@),
    {
        let session_id = random_alphanumeric(&mut self.rng, TOKEN_LENGTH);
        proof {
            lemma_insert_keeps_invariant(self@, session_id@, self.capacity(), self.issued@);
        }
        lru_insert(&mut self.sessions, session_id.clone(), true);
        self.issued = Ghost(self.issued@.insert(session_id@));
        session_id
    }

    /// Whether `session_id` is a live session; a live one becomes the most
    /// recently used.
    pub fn check_session(&mut self, session_id: &str) -> (r: bool)
        requires
            old(self).wf(),
        ensures
            final(self).wf(),
            Sessions::check_step(*old(self), *final(self), session_id@, r),
            !old(self).issued().contains(session_id@) ==> !r,
    {
        let r = lru_contains_key(&mut self.sessions, session_id);
        proof {
            if r {
                lemma_touch_keeps_invariant(old(self)@, session_id@, self.issued@);
            }
        }
        r
    }
}

/// Facts about `without`: it drops exactly the occurrences of `k`.
pub proof fn lemma_without(s: Seq<Seq<char>>, k: Seq<char>)
    ensures
        !without(s, k).contains(k),
        forall|x: Seq<char>| x != k ==> (without(s, k).contains(x) <==> s.contains(x)),
        s.no_duplicates() ==> without(s, k).no_duplicates(),
        s.no_duplicates() ==> without(s, k).len() == if s.contains(k) {
            s.len() - 1
        } else {
            s.len() as int
        },
    decreases s.len(),
{
    if s.len() > 0 {
        let p = s.drop_last();
        lemma_without(p, k);
        assert forall|x: Seq<char>| p.contains(x) || x == s.last() <==> s.contains(x) by {
            if s.contains(x) {
                let i = choose|i: int| 0 <= i < s.len() && s[i] == x;
                if i < s.len() - 1 {
                    assert(p[i] == x);
                }
            }
            if p.contains(x) {
                let i = choose|i: int| 0 <= i < p.len() && p[i] == x;
                assert(s[i] == x);
            }
            if x == s.last() {
                assert(s[s.len() - 1] == x);
            }
        }
        if s.no_duplicates() {
            assert(p.no_duplicates());
            assert(!p.contains(s.last())) by {
                if p.contains(s.last()) {
                    let i = choose|i: int| 0 <= i < p.len() && p[i] == s.last();
                    assert(s[i] == s[s.len() - 1]);
                }
            }
            if s.last() == k {
                assert(s.contains(k)) by {
                    assert(s[s.len() - 1] == k);
                }
            } else {
                let w = without(p, k);
                assert(!w.contains(s.last()));
                assert(w.push(s.last()).no_duplicates()) by {
                    assert forall|i: int, j: int|
                        0 <= i < j < w.push(s.last()).len() implies w.push(s.last())[i] != w.push(
                        s.last(),
                    )[j] by {
                        if j == w.len() {
                            assert(w[i] == w.push(s.last())[i]);
                        }
                    }
                }
            }
        }
        if s.last() != k {
            let w = without(p, k);
            assert forall|x: Seq<char>| w.push(s.last()).contains(x) <==> w.contains(x) || x
                == s.last() by {
                if w.push(s.last()).contains(x) {
                    let i = choose|i: int| 0 <= i < w.push(s.last()).len() && w.push(s.last())[i] == x;
                    if i < w.len() {
                        assert(w[i] == x);
                    }
                }
                if w.contains(x) {
                    let i = choose|i: int| 0 <= i < w.len() && w[i] == x;
                    assert(w.push(s.last())[i] == x);
                }
                if x == s.last() {
                    assert(w.push(s.last())[w.len() as int] == x);
                }
            }
        }
        assert forall|x: Seq<char>| x != k implies (without(s, k).contains(x) <==> s.contains(
            x,
        )) by {
            assert(without(p, k).contains(x) <==> p.contains(x));
            assert(p.contains(x) || x == s.last() <==> s.contains(x));
        }
    }
}

/// Membership in a sequence with one element pushed at the end.
proof fn lemma_push_contains(s: Seq<Seq<char>>, k: Seq<char>)
    ensures
        forall|x: Seq<char>| s.push(k).contains(x) <==> s.contains(x) || x == k,
{
    assert forall|x: Seq<char>| s.push(k).contains(x) <==> s.contains(x) || x == k by {
        if s.push(k).contains(x) {
            let i = choose|i: int| 0 <= i < s.push(k).len() && s.push(k)[i] == x;
            if i < s.len() {
                assert(s[i] == x);
            }
        }
        if s.contains(x) {
            let i = choose|i: int| 0 <= i < s.len() && s[i] == x;
            assert(s.push(k)[i] == x);
        }
        if x == k {
            assert(s.push(k)[s.len() as int] == x);
        }
    }
}

/// Touching a key keeps the keys distinct, the count and the members.
pub proof fn lemma_touched(s: Seq<Seq<char>>, k: Seq<char>)
    requires
        s.no_duplicates(),
    ensures
        touched(s, k).no_duplicates(),
        touched(s, k).len() == if s.contains(k) {
            s.len() as int
        } else {
            s.len() + 1 as int
        },
        forall|x: Seq<char>| touched(s, k).contains(x) <==> s.contains(x) || x == k,
{
    lemma_without(s, k);
    let w = without(s, k);
    lemma_push_contains(w, k);
    assert(w.push(k).no_duplicates()) by {
        assert forall|i: int, j: int| 0 <= i < j < w.push(k).len() implies w.push(k)[i] != w.push(
            k,
        )[j] by {
            if j == w.len() {
                assert(w[i] == w.push(k)[i]);
            }
        }
    }
}

/// Inserting a key into a well-formed set of keys keeps it well formed and
/// adds the key to the issued ones.
proof fn lemma_insert_keeps_invariant(
    s: Seq<Seq<char>>,
    k: Seq<char>,
    capacity: nat,
    issued: Set<Seq<char>>,
)
    requires
        s.no_duplicates(),
        s.len() <= capacity,
        forall|i: int| 0 <= i < s.len() ==> issued.contains(#[trigger] s[i]),
    ensures
        after_insert(s, k, capacity).no_duplicates(),
        after_insert(s, k, capacity).len() <= capacity,
        forall|i: int|
            0 <= i < after_insert(s, k, capacity).len() ==> issued.insert(k).contains(
                #[trigger] after_insert(s, k, capacity)[i],
            ),
        capacity > 0 ==> after_insert(s, k, capacity).contains(k),
{
    lemma_touched(s, k);
    let t = touched(s, k);
    let a = after_insert(s, k, capacity);
    assert forall|i: int| 0 <= i < a.len() implies issued.insert(k).contains(#[trigger] a[i]) by {
        let x = a[i];
        if t.len() > capacity {
            assert(t[i + 1] == x);
        }
        assert(t.contains(x));
        if x != k {
            assert(s.contains(x));
            let j = choose|j: int| 0 <= j < s.len() && s[j] == x;
            assert(issued.contains(s[j]));
        }
    }
    if capacity > 0 {
        if t.len() > capacity {
            assert(a[a.len() - 1] == t[t.len() - 1]);
        } else {
            assert(a[a.len() - 1] == k);
        }
    }
}

/// Touching a live key keeps the registry's invariant.
proof fn lemma_touch_keeps_invariant(s: Seq<Seq<char>>, k: Seq<char>, issued: Set<Seq<char>>)
    requires
        s.no_duplicates(),
        s.contains(k),
        forall|i: int| 0 <= i < s.len() ==> issued.contains(#[trigger] s[i]),
    ensures
        touched(s, k).no_duplicates(),
        touched(s, k).len() == s.len(),
        forall|i: int| 0 <= i < touched(s, k).len() ==> issued.contains(#[trigger] touched(s, k)[i]),
{
    lemma_touched(s, k);
    let t = touched(s, k);
    assert forall|i: int| 0 <= i < t.len() implies issued.contains(#[trigger] t[i]) by {
        let x = t[i];
        assert(t.contains(x));
        assert(s.contains(x));
        let j = choose|j: int| 0 <= j < s.len() && s[j] == x;
        assert(issued.contains(s[j]));
    }
}

/// Taking out a key that is absent changes nothing.
proof fn lemma_without_absent(s: Seq<Seq<char>>, k: Seq<char>)
    requires
        !s.contains(k),
    ensures
        without(s, k) == s,
    decreases s.len(),
{
    if s.len() > 0 {
        let p = s.drop_last();
        assert(!p.contains(k)) by {
            if p.contains(k) {
                let i = choose|i: int| 0 <= i < p.len() && p[i] == k;
                assert(s[i] == k);
            }
        }
        lemma_without_absent(p, k);
        assert(s.last() != k) by {
            assert(s[s.len() - 1] == s.last());
        }
        assert(p.push(s.last()) =~= s);
    }
}

/// Registry states `states[0]`, `states[1]`, ... where each comes from the
/// one before by issuing `tokens[i]`.
pub open spec fn issues_in_turn(states: Seq<Sessions>, tokens: Seq<Seq<char>>) -> bool {
    &&& states.len() == tokens.len() + 1
    &&& forall|i: int|
        0 <= i < tokens.len() ==> Sessions::issue_step(
            #[trigger] states[i],
            states[i + 1],
            tokens[i],
        )
}

/// Distinct tokens issued into an empty registry, no more than it has room
/// for, are all live, in the order they were issued.
proof fn lemma_issues_within_capacity(states: Seq<Sessions>, tokens: Seq<Seq<char>>, n: int)
    requires
        issues_in_turn(states, tokens),
        states[0]@ == Seq::<Seq<char>>::empty(),
        tokens.no_duplicates(),
        0 <= n <= tokens.len(),
        n <= states[0].capacity(),
    ensures
        states[n]@ == tokens.take(n),
        states[n].capacity() == states[0].capacity(),
    decreases n,
{
    if n == 0 {
        assert(tokens.take(0) =~= Seq::<Seq<char>>::empty());
    } else {
        lemma_issues_within_capacity(states, tokens, n - 1);
        assert(Sessions::issue_step(states[n - 1], states[n], tokens[n - 1]));
        let before = tokens.take(n - 1);
        assert(!before.contains(tokens[n - 1])) by {
            if before.contains(tokens[n - 1]) {
                let i = choose|i: int| 0 <= i < before.len() && before[i] == tokens[n - 1];
                assert(tokens[i] == tokens[n - 1]);
            }
        }
        lemma_without_absent(before, tokens[n - 1]);
        assert(before.push(tokens[n - 1]) =~= tokens.take(n));
    }
}

/// Issuing one token more than a registry has room for, all tokens distinct
/// and starting from empty, evicts exactly one: the first one issued. Before
/// that last issue every token was live; after it, the first one no longer
/// is and all the others still are.
pub proof fn lemma_one_past_capacity(states: Seq<Sessions>, tokens: Seq<Seq<char>>)
    requires
        issues_in_turn(states, tokens),
        states[0]@ == Seq::<Seq<char>>::empty(),
        tokens.no_duplicates(),
        tokens.len() == states[0].capacity() + 1,
    ensures
        states[tokens.len() - 1]@ == tokens.drop_last(),
        states.last()@ == tokens.drop_first(),
        !states.last()@.contains(tokens[0]),
        forall|i: int| 1 <= i < tokens.len() ==> states.last()@.contains(#[trigger] tokens[i]),
{
    let n = tokens.len() - 1;
    lemma_issues_within_capacity(states, tokens, n);
    assert(tokens.take(n) =~= tokens.drop_last());
    assert(Sessions::issue_step(states[n], states[n + 1], tokens[n]));
    assert(!tokens.drop_last().contains(tokens[n])) by {
        if tokens.drop_last().contains(tokens[n]) {
            let i = choose|i: int|
                0 <= i < tokens.drop_last().len() && tokens.drop_last()[i] == tokens[n];
            assert(tokens[i] == tokens[n]);
        }
    }
    lemma_without_absent(tokens.drop_last(), tokens[n]);
    assert(tokens.drop_last().push(tokens[n]) =~= tokens);
    assert(states.last() == states[n + 1]);
    assert(!tokens.drop_first().contains(tokens[0])) by {
        if tokens.drop_first().contains(tokens[0]) {
            let i = choose|i: int|
                0 <= i < tokens.drop_first().len() && tokens.drop_first()[i] == tokens[0];
            assert(tokens[i + 1] == tokens[0]);
        }
    }
    assert forall|i: int| 1 <= i < tokens.len() implies states.last()@.contains(
        #[trigger] tokens[i],
    ) by {
        assert(tokens.drop_first()[i - 1] == tokens[i]);
    }
}

/// A token just issued into a registry with room for at least one session
/// is live, so a check right afterwards accepts it.
pub proof fn lemma_issued_is_live(before: Sessions, after: Sessions, token: Seq<char>)
    requires
        before.wf(),
        before.capacity() > 0,
        Sessions::issue_step(before, after, token),
    ensures
        after@.contains(token),
{
    lemma_insert_keeps_invariant(before@, token, before.capacity(), before.issued());
}

} // verus!
