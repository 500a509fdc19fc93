use vstd::prelude::*;

verus! {

/// Where the gateway listens: a filesystem socket path (starting with `/`)
/// or a TCP address, and the permission bits of the socket file.
pub struct Config {
    pub listen: String,
    pub socket_mode: Option<u32>,
}

/// Why configuration values were refused.
#[derive(Clone, Copy, Debug, PartialEq, Eq, Structural)]
pub enum ConfigError {
    /// No listen address was given.
    ListenMissing,
    /// The socket mode is not an octal number that fits in 32 bits.
    BadSocketMode,
}

/// An octal digit.
pub open spec fn is_octal_digit(c: char) -> bool {
    '0' <= c && c <= '7'
}

/// A non-empty run of octal digits.
pub open spec fn octal_digits(s: Seq<char>) -> bool {
    s.len() > 0 && forall|i: int| 0 <= i < s.len() ==> is_octal_digit(#[trigger] s[i])
}

/// The number that octal digits spell.
pub open spec fn octal_value(s: Seq<char>) -> int
    decreases s.len(),
{
    if s.len() == 0 {
        0
    } else {
        octal_value(s.drop_last()) * 8 + (s.last() as int - '0' as int)
    }
}

/// An unsigned 32-bit number in base 8, as `u32::from_str_radix(s, 8)`
/// reads it: an optional `+`, then octal digits, the value fitting in 32
/// bits.
pub open spec fn parse_octal_spec(s: Seq<char>) -> Option<u32> {
    let digits = if s.len() > 0 && s[0] == '+' {
        s.drop_first()
    } else {
        s
    };
    if octal_digits(digits) && octal_value(digits) <= u32::MAX {
        Some(octal_value(digits) as u32)
    } else {
        None
    }
}

/// Octal digits never spell less than any of their prefixes does.
proof fn lemma_octal_prefix(s: Seq<char>, i: int)
    requires
        0 <= i <= s.len(),
        forall|k: int| 0 <= k < s.len() ==> is_octal_digit(#[trigger] s[k]),
    ensures
        0 <= octal_value(s.take(i)) <= octal_value(s),
    decreases s.len(),
{
    if i == s.len() {
        assert(s.take(i) =~= s);
        if s.len() > 0 {
            lemma_octal_prefix(s.drop_last(), s.len() - 1);
            assert(s.drop_last().take(s.len() - 1) =~= s.drop_last());
        }
    } else {
        let p = s.drop_last();
        assert(p.take(i) =~= s.take(i));
        lemma_octal_prefix(p, i);
        assert(is_octal_digit(s[s.len() - 1]));
    }
}

/// Reads an unsigned 32-bit number in base 8: an optional `+`, then octal
/// digits.
pub fn parse_octal(s: &str) -> (r: Option<u32>)
    ensures
        r == parse_octal_spec(s@),
{
    let n = s.unicode_len();
    let mut start: usize = 0;
    if n > 0 && s.get_char(0) == '+' {
        start = 1;
    }
    let ghost digits = if s@.len() > 0 && s@[0] == '+' {
        s@.drop_first()
    } else {
        s@
    };
    assert(digits =~= s@.subrange(start as int, n as int));
    if start == n {
        return None;
    }
    let mut value: u64 = 0;
    let mut i: usize = start;
    while i < n
        invariant
            n == s@.len(),
            start <= i <= n,
            digits == s@.subrange(start as int, n as int),
            digits == (if s@.len() > 0 && s@[0] == '+' {
                s@.drop_first()
            } else {
                s@
            }),
            forall|k: int| 0 <= k < i - start ==> is_octal_digit(#[trigger] digits[k]),
            value == octal_value(digits.take(i - start)),
            value <= u32::MAX,
        decreases n - i,
    {
        let c = s.get_char(i);
        let ghost j = i - start;
        assert(digits[j] == c);
        assert(digits.take(j + 1).drop_last() =~= digits.take(j));
        if c < '0' || c > '7' {
            assert(!octal_digits(digits));
            assert(parse_octal_spec(s@) is None);
            return None;
        }
        let d = (c as u32 - '0' as u32) as u64;
        value = value * 8 + d;
        assert(value == octal_value(digits.take(j + 1)));
        if value > 0xffff_ffff {
            proof {
                if octal_digits(digits) {
                    lemma_octal_prefix(digits, j + 1);
                }
            }
            assert(parse_octal_spec(s@) is None);
            return None;
        }
        i = i + 1;
    }
    assert(digits.take(n - start) =~= digits);
    Some(value as u32)
}

impl Config {
    /// Builds the configuration from its raw fields. A socket mode that is
    /// not a valid octal number is refused first, then a missing listen
    /// address.
    pub fn from_fields(listen: Option<String>, socket_mode: Option<String>) -> (r: Result<
        Config,
        ConfigError,
    >)
        ensures
            (socket_mode is Some && parse_octal_spec(socket_mode->0@) is None) <==> r == Err::<
                Config,
                ConfigError,
            >(ConfigError::BadSocketMode),
            (!(socket_mode is Some && parse_octal_spec(socket_mode->0@) is None) && listen is None)
                <==> r == Err::<Config, ConfigError>(ConfigError::ListenMissing),
            r is Ok ==> r->Ok_0.listen == listen->0 && r->Ok_0.socket_mode == match socket_mode {
                Some(m) => parse_octal_spec(m@),
                None => None,
            },
    {
        let mode = match &socket_mode {
            Some(m) => match parse_octal(m.as_str()) {
                Some(v) => Some(v),
                None => {
                    return Err(ConfigError::BadSocketMode);
                },
            },
            None => None,
        };
        match listen {
            Some(l) => Ok(Config { listen: l, socket_mode: mode }),
            None => Err(ConfigError::ListenMissing),
        }
    }

    /// Whether the gateway listens on a filesystem socket rather than TCP:
    /// the address is a path starting with `/`.
    pub fn is_unix_socket(&self) -> (r: bool)
        ensures
            r == (self.listen@.len() > 0 && self.listen@[0] == '/'),
    {
        let s = self.listen.as_str();
        s.unicode_len() > 0 && s.get_char(0) == '/'
    }
}

} // verus!
