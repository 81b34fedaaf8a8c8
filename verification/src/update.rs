//! Version numbers: reading one out of a release tag and deciding whether
//! a newer release is out.
//!
//! The network call that fetches the latest release lives in the
//! application layer; the library parses the version text and compares.

use vstd::prelude::*;

verus! {

use vstd::arithmetic::div_mod::lemma_fundamental_div_mod;

// ---------------------------------------------------------------------------
// Decimal numbers
// ---------------------------------------------------------------------------
/// A decimal digit.
pub open spec fn is_dec_digit(c: char) -> bool {
    '0' <= c <= '9'
}

/// The value of a digit string, most significant first.
pub open spec fn spec_digits_value(s: Seq<char>) -> int
    decreases s.len(),
{
    if s.len() == 0 {
        0
    } else {
        spec_digits_value(s.drop_last()) * 10 + (s.last() as int - 48)
    }
}

/// The number a text denotes: it must be one or more decimal digits whose
/// value fits the type.
pub open spec fn spec_parse_u32(s: Seq<char>) -> Option<u32> {
    if s.len() > 0 && (forall|i: int| 0 <= i < s.len() ==> is_dec_digit(s[i]))
        && spec_digits_value(s) <= u32::MAX {
        Some(spec_digits_value(s) as u32)
    } else {
        None
    }
}

proof fn lemma_digits_nonneg(s: Seq<char>)
    requires
        forall|i: int| 0 <= i < s.len() ==> is_dec_digit(s[i]),
    ensures
        spec_digits_value(s) >= 0,
    decreases s.len(),
{
    if s.len() > 0 {
        lemma_digits_nonneg(s.drop_last());
    }
}

proof fn lemma_digits_mono(s: Seq<char>, i: int)
    requires
        forall|k: int| 0 <= k < s.len() ==> is_dec_digit(s[k]),
        0 <= i <= s.len(),
    ensures
        spec_digits_value(s) >= spec_digits_value(s.take(i)),
    decreases s.len(),
{
    if i == s.len() {
        assert(s.take(i) =~= s);
    } else {
        assert(s.drop_last().take(i) =~= s.take(i));
        lemma_digits_mono(s.drop_last(), i);
        lemma_digits_nonneg(s.drop_last());
    }
}

/// Parses a number from decimal-digit text, refusing anything else and any
/// value beyond the type.
pub fn parse_u32_digits(s: &str) -> (r: Option<u32>)
    ensures
        r == spec_parse_u32(s@),
{
    let n = s.unicode_len();
    if n == 0 {
        return None;
    }
    let mut acc: u32 = 0;
    let mut i: usize = 0;
    proof {
        assert(s@.take(0) =~= Seq::<char>::empty());
    }
    while i < n
        invariant
            i <= n,
            n == s@.len(),
            forall|k: int| 0 <= k < i ==> is_dec_digit(s@[k]),
            acc == spec_digits_value(s@.take(i as int)),
        decreases n - i,
    {
        let c = s.get_char(i);
        if c < '0' || c > '9' {
            return None;
        }
        let d: u32 = (c as u32) - 48;
        proof {
            assert(s@.take(i as int + 1).drop_last() =~= s@.take(i as int));
            assert(s@.take(i as int + 1).last() == s@[i as int]);
        }
        if acc > (u32::MAX - d) / 10 {
            proof {
                lemma_fundamental_div_mod(u32::MAX - d, 10);
                assert(acc * 10 + d > u32::MAX) by (nonlinear_arith)
                    requires
                        acc > (u32::MAX - d) / 10,
                        (u32::MAX - d) as int == 10 * (((u32::MAX - d) as int) / 10) + ((u32::MAX
                            - d) as int) % 10,
                        0 <= ((u32::MAX - d) as int) % 10 < 10,
                        0 <= d <= 9,
                ;
                if forall|k: int| 0 <= k < s@.len() ==> is_dec_digit(s@[k]) {
                    lemma_digits_mono(s@, i as int + 1);
                    assert(spec_digits_value(s@) > u32::MAX);
                }
            }
            return None;
        }
        proof {
            lemma_fundamental_div_mod(u32::MAX - d, 10);
            assert(acc * 10 + d <= u32::MAX) by (nonlinear_arith)
                requires
                    acc <= (u32::MAX - d) / 10,
                    (u32::MAX - d) as int == 10 * (((u32::MAX - d) as int) / 10) + ((u32::MAX
                        - d) as int) % 10,
                    0 <= ((u32::MAX - d) as int) % 10 < 10,
                    0 <= d <= 9,
            ;
        }
        acc = acc * 10 + d;
        i += 1;
    }
    proof {
        assert(s@.take(n as int) =~= s@);
    }
    Some(acc)
}

// ---------------------------------------------------------------------------
// Version text
// ---------------------------------------------------------------------------
/// What the version pattern finds in a text: the first occurrence of three
/// dot-separated digit runs, an optional `v` before them, as the three
/// captured runs.
pub uninterp spec fn version_captures_of(s: Seq<char>) -> Option<(Seq<char>, Seq<char>, Seq<char>)>;

/// Relies on the regex crate, pattern `v?(\d+)\.(\d+)\.(\d+)`: the leftmost
/// match's three captures, each one or more digit characters.
#[verifier::external_body]
fn version_captures(s: &str) -> (r: Option<(String, String, String)>)
    ensures
        (r is Some) == (version_captures_of(s@) is Some),
        r matches Some(t) ==> version_captures_of(s@) == Some((t.0@, t.1@, t.2@)),
{
    let re = match regex::Regex::new(r"v?(\d+)\.(\d+)\.(\d+)") {
        Ok(re) => re,
        Err(_) => return None,
    };
    let caps = re.captures(s)?;
    Some(
        (
            caps.get(1)?.as_str().to_string(),
            caps.get(2)?.as_str().to_string(),
            caps.get(3)?.as_str().to_string(),
        ),
    )
}

/// The version triple a text denotes: the three captured digit runs, each
/// parsed as a number, and nothing when the pattern finds no match or a
/// run's value does not fit.
pub open spec fn spec_parse_version(s: Seq<char>) -> Option<(u32, u32, u32)> {
    match version_captures_of(s) {
        None => None,
        Some((a, b, c)) => match (spec_parse_u32(a), spec_parse_u32(b), spec_parse_u32(c)) {
            (Some(major), Some(minor), Some(patch)) => Some((major, minor, patch)),
            _ => None,
        },
    }
}

/// Reads a `major.minor.patch` version, with an optional `v` prefix, out
/// of a text.
pub fn parse_version(version_str: &str) -> (r: Option<(u32, u32, u32)>)
    ensures
        r == spec_parse_version(version_str@),
{
    match version_captures(version_str) {
        None => None,
        Some((a, b, c)) => {
            let major = parse_u32_digits(a.as_str());
            let minor = parse_u32_digits(b.as_str());
            let patch = parse_u32_digits(c.as_str());
            match (major, minor, patch) {
                (Some(x), Some(y), Some(z)) => Some((x, y, z)),
                _ => None,
            }
        },
    }
}

/// Whether the latest published version is newer than the current one:
/// a greater major version, or the same major and a greater minor. The
/// patch level does not prompt an update notice.
pub fn is_newer_version(current: (u32, u32, u32), latest: (u32, u32, u32)) -> (r: bool)
    ensures
        r == (latest.0 > current.0 || (latest.0 == current.0 && latest.1 > current.1)),
{
    latest.0 > current.0 || (latest.0 == current.0 && latest.1 > current.1)
}

} // verus!
