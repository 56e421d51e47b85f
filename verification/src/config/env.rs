//! Overrides of the configuration from the environment: `PORT` replaces the server's
//! port when it reads as a port number, and `ENDPOINTS`, a comma-separated list,
//! replaces the client's endpoints.
use vstd::prelude::*;
use crate::extensions::rate_limit::xff::comma_run;

verus! {

/// The value of a decimal digit.
pub open spec fn dec_digit(c: char) -> Option<nat> {
    if '0' <= c && c <= '9' {
        Some((c as nat - '0' as nat) as nat)
    } else {
        None
    }
}

/// Every character of `s` is a decimal digit.
pub open spec fn all_dec(s: Seq<char>) -> bool {
    forall|i: int| 0 <= i < s.len() ==> #[trigger] dec_digit(s[i]) is Some
}

/// The value of the decimal digits `s`.
pub open spec fn dec_value(s: Seq<char>) -> nat
    decreases s.len(),
{
    if s.len() == 0 {
        0
    } else {
        dec_value(s.drop_last()) * 10 + dec_digit(s.last()).unwrap_or(0)
    }
}

/// The `u16` that `s` reads as, as `str::parse::<u16>` reads it: an optional `+`, then
/// one or more decimal digits, with a value of at most 65535.
pub open spec fn parse_u16_dec(s: Seq<char>) -> Option<u16> {
    let digits = if s.len() > 0 && s[0] == '+' { s.drop_first() } else { s };
    if digits.len() == 0 || !all_dec(digits) || dec_value(digits) > u16::MAX {
        None
    } else {
        Some(dec_value(digits) as u16)
    }
}

/// A longer run of digits is worth at least as much as its prefix.
proof fn lemma_dec_value_grows(s: Seq<char>, i: int)
    requires
        0 <= i <= s.len(),
    ensures
        dec_value(s) >= dec_value(s.take(i)),
    decreases s.len() - i,
{
    if i < s.len() {
        lemma_dec_value_grows(s, i + 1);
        assert(s.take(i + 1).drop_last() =~= s.take(i));
    } else {
        assert(s.take(i) =~= s);
    }
}

/// Reads `s` as a port number (see `parse_u16_dec`).
pub fn parse_port(s: &str) -> (r: Option<u16>)
    ensures
        r == parse_u16_dec(s@),
{
    let n = s.unicode_len();
    let start: usize = if n > 0 && s.get_char(0) == '+' { 1 } else { 0 };
    let ghost digits = if s@.len() > 0 && s@[0] == '+' { s@.drop_first() } else { s@ };
    assert(digits =~= s@.skip(start as int));
    if start == n {
        return None;
    }
    let mut acc: u32 = 0;
    let mut i: usize = start;
    assert(digits.take(0) =~= Seq::<char>::empty());
    while i < n
        invariant
            start <= i <= n,
            n == s@.len(),
            digits == s@.skip(start as int),
            digits == if s@.len() > 0 && s@[0] == '+' { s@.drop_first() } else { s@ },
            digits.len() > 0,
            all_dec(digits.take(i - start)),
            acc == dec_value(digits.take(i - start)),
            acc <= u16::MAX,
        decreases n - i,
    {
        let c = s.get_char(i);
        let ghost k: int = i - start;
        assert(digits[k] == c);
        assert(digits.take(k + 1).drop_last() =~= digits.take(k));
        assert(digits.take(k + 1).last() == c);
        if !('0' <= c && c <= '9') {
            assert(!all_dec(digits)) by {
                assert(dec_digit(digits[k]) is None);
            }
            return None;
        }
        let d: u32 = (c as u32) - ('0' as u32);
        let next: u32 = acc * 10 + d;
        assert(next == dec_value(digits.take(k + 1)));
        if next > 65535 {
            proof {
                lemma_dec_value_grows(digits, k + 1);
            }
            return None;
        }
        proof {
            assert forall|j: int| 0 <= j < k + 1 implies #[trigger] dec_digit(digits.take(k + 1)[j]) is Some by {
                if j < k {
                    assert(digits.take(k + 1)[j] == digits.take(k)[j]);
                }
            }
        }
        acc = next;
        i = i + 1;
    }
    assert(digits.take(i - start) =~= digits);
    Some(acc as u16)
}

/// Whether `c` has Unicode's `White_Space` property, which is what `char::is_whitespace`
/// and `str::trim` go by.
pub open spec fn is_white_space(c: char) -> bool {
    ||| ('\u{9}' <= c && c <= '\u{d}')
    ||| c == ' '
    ||| c == '\u{85}'
    ||| c == '\u{a0}'
    ||| c == '\u{1680}'
    ||| ('\u{2000}' <= c && c <= '\u{200a}')
    ||| c == '\u{2028}'
    ||| c == '\u{2029}'
    ||| c == '\u{202f}'
    ||| c == '\u{205f}'
    ||| c == '\u{3000}'
}

/// Tells whether `c` is white space (see `is_white_space`).
pub fn is_white_space_char(c: char) -> (b: bool)
    ensures
        b == is_white_space(c),
{
    ('\u{9}' <= c && c <= '\u{d}') || c == ' ' || c == '\u{85}' || c == '\u{a0}' || c == '\u{1680}'
        || ('\u{2000}' <= c && c <= '\u{200a}') || c == '\u{2028}' || c == '\u{2029}' || c == '\u{202f}'
        || c == '\u{205f}' || c == '\u{3000}'
}

/// `s` without its leading white space.
pub open spec fn trim_start(s: Seq<char>) -> Seq<char>
    decreases s.len(),
{
    if s.len() > 0 && is_white_space(s[0]) {
        trim_start(s.drop_first())
    } else {
        s
    }
}

/// `s` without its trailing white space.
pub open spec fn trim_end(s: Seq<char>) -> Seq<char>
    decreases s.len(),
{
    if s.len() > 0 && is_white_space(s.last()) {
        trim_end(s.drop_last())
    } else {
        s
    }
}

/// `s` without its leading and trailing white space, as `str::trim` gives it.
pub open spec fn trim(s: Seq<char>) -> Seq<char> {
    trim_end(trim_start(s))
}

/// Removes the leading and trailing white space of `s` (see `trim`).
pub fn trim_white_space(s: &str) -> (r: &str)
    ensures
        r@ == trim(s@),
{
    let n = s.unicode_len();
    let mut a: usize = 0;
    assert(s@.skip(0) =~= s@);
    while a < n && is_white_space_char(s.get_char(a))
        invariant
            a <= n,
            n == s@.len(),
            trim_start(s@) == trim_start(s@.skip(a as int)),
        decreases n - a,
    {
        assert(s@.skip(a as int)[0] == s@[a as int]);
        assert(s@.skip(a as int).drop_first() =~= s@.skip(a + 1));
        a = a + 1;
    }
    assert(trim_start(s@.skip(a as int)) == s@.skip(a as int)) by {
        if a < n {
            assert(s@.skip(a as int)[0] == s@[a as int]);
        }
    }
    assert(s@.skip(a as int) =~= s@.subrange(a as int, n as int));
    let mut b: usize = n;
    while b > a && is_white_space_char(s.get_char(b - 1))
        invariant
            a <= b <= n,
            n == s@.len(),
            trim(s@) == trim_end(s@.subrange(a as int, b as int)),
        decreases b,
    {
        assert(s@.subrange(a as int, b as int).last() == s@[b - 1]);
        assert(s@.subrange(a as int, b as int).drop_last() =~= s@.subrange(a as int, b - 1));
        b = b - 1;
    }
    assert(trim_end(s@.subrange(a as int, b as int)) == s@.subrange(a as int, b as int)) by {
        if b > a {
            assert(s@.subrange(a as int, b as int).last() == s@[b - 1]);
        }
    }
    s.substring_char(a, b)
}

/// The parts of `s` between its commas, as `str::split(',')` gives them (one part when
/// there is no comma, an empty part for an empty text).
pub open spec fn split_commas(s: Seq<char>) -> Seq<Seq<char>>
    decreases s.len(),
{
    if comma_run(s) >= s.len() {
        seq![s]
    } else {
        seq![s.take(comma_run(s) as int)] + split_commas(s.skip(comma_run(s) + 1int))
    }
}

/// The endpoints that a value of `ENDPOINTS` lists: its comma-separated parts, each
/// trimmed of white space.
pub open spec fn endpoint_list(s: Seq<char>) -> Seq<Seq<char>> {
    split_commas(s).map_values(|p: Seq<char>| trim(p))
}

/// The endpoints listed by `s` (see `endpoint_list`).
pub fn split_endpoints(s: &str) -> (v: Vec<String>)
    ensures
        v@.map_values(|e: String| e@) == endpoint_list(s@),
{
    let n = s.unicode_len();
    let mut v: Vec<String> = Vec::new();
    let mut start: usize = 0;
    let ghost done: Seq<Seq<char>> = Seq::empty();
    assert(s@.skip(0) =~= s@);
    assert(split_commas(s@) =~= done + split_commas(s@.skip(0)));
    loop
        invariant
            start <= n,
            n == s@.len(),
            split_commas(s@) == done + split_commas(s@.skip(start as int)),
            v@.map_values(|e: String| e@) == done.map_values(|p: Seq<char>| trim(p)),
        decreases n - start,
    {
        let ghost rest = s@.skip(start as int);
        let mut j: usize = start;
        assert(s@.skip(j as int) == rest);
        while j < n && s.get_char(j) != ','
            invariant
                start <= j <= n,
                n == s@.len(),
                rest == s@.skip(start as int),
                comma_run(rest) == (j - start) + comma_run(s@.skip(j as int)),
            decreases n - j,
        {
            assert(s@.skip(j as int)[0] == s@[j as int]);
            assert(s@.skip(j as int).drop_first() =~= s@.skip(j + 1));
            j = j + 1;
        }
        assert(comma_run(s@.skip(j as int)) == 0) by {
            if j < n {
                assert(s@.skip(j as int)[0] == s@[j as int]);
            }
        }
        let ghost cr = comma_run(rest);
        assert(cr == j - start);
        let piece = s.substring_char(start, j);
        assert(piece@ =~= rest.take(cr as int));
        let t = trim_white_space(piece);
        let ghost before = v@;
        v.push(String::from_str(t));
        proof {
            assert(v@.map_values(|e: String| e@) =~= before.map_values(|e: String| e@).push(trim(rest.take(cr as int))));
            assert(done.push(rest.take(cr as int)).map_values(|p: Seq<char>| trim(p))
                =~= done.map_values(|p: Seq<char>| trim(p)).push(trim(rest.take(cr as int))));
        }
        if j == n {
            proof {
                assert(rest.take(cr as int) =~= rest);
                assert(split_commas(rest) =~= seq![rest]);
                done = done.push(rest);
                assert(split_commas(s@) =~= done);
            }
            return v;
        }
        proof {
            assert(rest.skip(cr + 1int) =~= s@.skip(j + 1));
            assert(split_commas(rest) == seq![rest.take(cr as int)] + split_commas(s@.skip(j + 1)));
            assert(split_commas(s@) =~= done.push(rest.take(cr as int)) + split_commas(s@.skip(j + 1)));
            done = done.push(rest.take(cr as int));
        }
        start = j + 1;
    }
}

/// The port and endpoints after the environment's overrides: `env_port` replaces
/// `port` when it reads as a port number, and `env_endpoints`, when given, replaces
/// `endpoints` with the endpoints it lists.
pub fn env_overrides(
    port: u16,
    endpoints: Vec<String>,
    env_port: Option<String>,
    env_endpoints: Option<String>,
) -> (r: (u16, Vec<String>))
    ensures
        r.0 == match env_port {
            Some(p) => match parse_u16_dec(p@) {
                Some(v) => v,
                None => port,
            },
            None => port,
        },
        match env_endpoints {
            Some(e) => r.1@.map_values(|x: String| x@) == endpoint_list(e@),
            None => r.1@ == endpoints@,
        },
{
    let endpoints = match env_endpoints {
        Some(e) => split_endpoints(e.as_str()),
        None => endpoints,
    };
    let port = match env_port {
        Some(p) => match parse_port(p.as_str()) {
            Some(v) => v,
            None => port,
        },
        None => port,
    };
    (port, endpoints)
}

} // verus!
