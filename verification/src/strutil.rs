//! Verified text utilities shared by the parsers and builders: splitting,
//! trimming, case-insensitive ASCII comparison, substring search, and
//! conversions between `&str`, `Vec<char>` and `String`.

use vstd::prelude::*;

verus! {

use vstd::slice::slice_subrange;
use vstd::slice::slice_to_vec;

// ---------------------------------------------------------------------------
// Character classes and ASCII case folding
// ---------------------------------------------------------------------------
/// ASCII whitespace, the characters the platform tools emit around fields.
pub open spec fn is_space(c: char) -> bool {
    c == ' ' || c == '\t' || c == '\r' || c == '\n'
}

/// Executable twin of [`is_space`].
pub fn is_space_char(c: char) -> (r: bool)
    ensures
        r == is_space(c),
{
    c == ' ' || c == '\t' || c == '\r' || c == '\n'
}

/// ASCII lower-casing of a single character; everything else is unchanged.
pub open spec fn lower_ascii(c: char) -> char {
    if 'A' <= c <= 'Z' {
        ((c as u8) + 32) as char
    } else {
        c
    }
}

/// Executable twin of [`lower_ascii`].
pub fn lower_ascii_char(c: char) -> (r: char)
    ensures
        r == lower_ascii(c),
{
    if 'A' <= c && c <= 'Z' {
        (((c as u8) + 32) as char)
    } else {
        c
    }
}

// ---------------------------------------------------------------------------
// Views of a vector of character vectors
// ---------------------------------------------------------------------------
/// The sequence of views of a sequence of character vectors.
pub open spec fn views_of(vs: Seq<Vec<char>>) -> Seq<Seq<char>> {
    vs.map_values(|v: Vec<char>| v@)
}

// ---------------------------------------------------------------------------
// Splitting on a delimiter
// ---------------------------------------------------------------------------
/// The fields of `s` between occurrences of the delimiter `d`. An empty
/// input is one empty field; a trailing delimiter yields a trailing empty
/// field.
pub open spec fn spec_split(s: Seq<char>, d: char) -> Seq<Seq<char>>
    decreases s.len(),
{
    if s.len() == 0 {
        seq![Seq::<char>::empty()]
    } else if s.last() == d {
        spec_split(s.drop_last(), d).push(Seq::<char>::empty())
    } else {
        let rest = spec_split(s.drop_last(), d);
        rest.update(rest.len() - 1, rest.last().push(s.last()))
    }
}

/// A split always yields at least one field.
pub proof fn lemma_split_len(s: Seq<char>, d: char)
    ensures
        spec_split(s, d).len() >= 1,
    decreases s.len(),
{
    if s.len() > 0 {
        lemma_split_len(s.drop_last(), d);
    }
}

/// Splits `s` into the fields between occurrences of `d`.
pub fn split_chars(s: &[char], d: char) -> (r: Vec<Vec<char>>)
    ensures
        views_of(r@) == spec_split(s@, d),
        r@.len() >= 1,
{
    let mut out: Vec<Vec<char>> = Vec::new();
    let mut cur: Vec<char> = Vec::new();
    let mut i: usize = 0;
    proof {
        assert(s@.take(0) =~= Seq::<char>::empty());
        assert(views_of(out@.push(cur)) =~= spec_split(s@.take(0), d));
    }
    while i < s.len()
        invariant
            i <= s@.len(),
            views_of(out@.push(cur)) == spec_split(s@.take(i as int), d),
        decreases s@.len() - i,
    {
        let ghost pre = s@.take(i as int);
        let ghost post = s@.take(i as int + 1);
        proof {
            assert(post.drop_last() =~= pre);
            assert(post.last() == s@[i as int]);
            lemma_split_len(pre, d);
        }
        let c = s[i];
        if c == d {
            out.push(cur);
            cur = Vec::new();
            proof {
                assert(views_of(out@.push(cur)) =~= spec_split(pre, d).push(Seq::<char>::empty()));
            }
        } else {
            let ghost old_out = out@;
            cur.push(c);
            proof {
                let rest = spec_split(pre, d);
                assert(views_of(old_out.push(cur)) =~= rest.update(
                    rest.len() - 1,
                    rest.last().push(s@[i as int]),
                ));
            }
        }
        i += 1;
    }
    proof {
        assert(s@.take(s@.len() as int) =~= s@);
    }
    out.push(cur);
    proof {
        lemma_split_len(s@, d);
    }
    out
}

// ---------------------------------------------------------------------------
// Lines
// ---------------------------------------------------------------------------
/// A line with a trailing carriage return removed.
pub open spec fn strip_cr(line: Seq<char>) -> Seq<char> {
    if line.len() > 0 && line.last() == '\r' {
        line.drop_last()
    } else {
        line
    }
}

/// The lines of `s`: the fields between newline characters, each with a
/// trailing carriage return removed, and with no trailing empty line when
/// `s` itself ends in a newline. Matches how line-oriented tool output is
/// customarily read.
pub open spec fn spec_lines(s: Seq<char>) -> Seq<Seq<char>> {
    if s.len() == 0 {
        Seq::<Seq<char>>::empty()
    } else if s.last() == '\n' {
        spec_split(s.drop_last(), '\n').map_values(|l: Seq<char>| strip_cr(l))
    } else {
        spec_split(s, '\n').map_values(|l: Seq<char>| strip_cr(l))
    }
}

/// Splits `s` into lines.
pub fn lines_of(s: &[char]) -> (r: Vec<Vec<char>>)
    ensures
        views_of(r@) == spec_lines(s@),
{
    if s.len() == 0 {
        let out: Vec<Vec<char>> = Vec::new();
        proof {
            assert(views_of(out@) =~= spec_lines(s@));
        }
        return out;
    }
    let body: &[char] = if s[s.len() - 1] == '\n' {
        slice_subrange(s, 0, s.len() - 1)
    } else {
        s
    };
    proof {
        if s@.last() == '\n' {
            assert(body@ =~= s@.drop_last());
        }
    }
    let fields = split_chars(body, '\n');
    let mut out: Vec<Vec<char>> = Vec::new();
    let mut i: usize = 0;
    let ghost all = views_of(fields@);
    while i < fields.len()
        invariant
            i <= fields@.len(),
            all == views_of(fields@),
            views_of(out@) =~= all.take(i as int).map_values(|l: Seq<char>| strip_cr(l)),
        decreases fields@.len() - i,
    {
        let ghost old_out = out@;
        let line = &fields[i];
        let n = line.len();
        if n > 0 && line[n - 1] == '\r' {
            let stripped = slice_to_vec(slice_subrange(line.as_slice(), 0, n - 1));
            proof {
                assert(stripped@ =~= strip_cr(all[i as int]));
            }
            out.push(stripped);
        } else {
            let copy = line.clone();
            proof {
                assert(copy@ =~= strip_cr(all[i as int]));
            }
            out.push(copy);
        }
        proof {
            assert(views_of(out@) =~= views_of(old_out).push(strip_cr(all[i as int])));
            assert(all.take(i as int + 1).map_values(|l: Seq<char>| strip_cr(l)) =~= all.take(
                i as int,
            ).map_values(|l: Seq<char>| strip_cr(l)).push(strip_cr(all[i as int])));
        }
        i += 1;
    }
    proof {
        assert(all.take(fields@.len() as int) =~= all);
        assert(views_of(out@) =~= spec_lines(s@));
    }
    out
}

// ---------------------------------------------------------------------------
// Trimming
// ---------------------------------------------------------------------------
pub open spec fn spec_trim_start(s: Seq<char>) -> Seq<char>
    decreases s.len(),
{
    if s.len() > 0 && is_space(s[0]) {
        spec_trim_start(s.drop_first())
    } else {
        s
    }
}

pub open spec fn spec_trim_end(s: Seq<char>) -> Seq<char>
    decreases s.len(),
{
    if s.len() > 0 && is_space(s.last()) {
        spec_trim_end(s.drop_last())
    } else {
        s
    }
}

/// `s` without leading and trailing ASCII whitespace.
pub open spec fn spec_trim(s: Seq<char>) -> Seq<char> {
    spec_trim_end(spec_trim_start(s))
}

proof fn lemma_trim_start_skip(s: Seq<char>, a: int)
    requires
        0 <= a <= s.len(),
        forall|k: int| 0 <= k < a ==> is_space(s[k]),
        a < s.len() ==> !is_space(s[a]),
    ensures
        spec_trim_start(s) == s.skip(a),
    decreases a,
{
    if a == 0 {
        assert(s.skip(0) =~= s);
    } else {
        lemma_trim_start_skip(s.drop_first(), a - 1);
        assert(s.drop_first().skip(a - 1) =~= s.skip(a));
    }
}

proof fn lemma_trim_end_take(s: Seq<char>, b: int)
    requires
        0 <= b <= s.len(),
        forall|k: int| b <= k < s.len() ==> is_space(s[k]),
        b > 0 ==> !is_space(s[b - 1]),
    ensures
        spec_trim_end(s) == s.take(b),
    decreases s.len(),
{
    if b == s.len() {
        if s.len() > 0 {
            assert(!is_space(s.last()));
        }
        assert(s.take(b) =~= s);
    } else {
        assert(is_space(s.last()));
        lemma_trim_end_take(s.drop_last(), b);
        assert(s.drop_last().take(b) =~= s.take(b));
    }
}

/// `s` with leading and trailing ASCII whitespace removed.
pub fn trim_chars(s: &[char]) -> (r: &[char])
    ensures
        r@ == spec_trim(s@),
{
    let mut a: usize = 0;
    while a < s.len() && is_space_char(s[a])
        invariant
            a <= s@.len(),
            forall|k: int| 0 <= k < a ==> is_space(s@[k]),
        decreases s@.len() - a,
    {
        a += 1;
    }
    let mut b: usize = s.len();
    while b > a && is_space_char(s[b - 1])
        invariant
            a <= b <= s@.len(),
            forall|k: int| 0 <= k < a ==> is_space(s@[k]),
            forall|k: int| b <= k < s@.len() ==> is_space(s@[k]),
        decreases b,
    {
        b -= 1;
    }
    proof {
        lemma_trim_start_skip(s@, a as int);
        let t = s@.skip(a as int);
        lemma_trim_end_take(t, b - a);
        assert(t.take(b - a) =~= s@.subrange(a as int, b as int));
    }
    slice_subrange(s, a, b)
}

// ---------------------------------------------------------------------------
// Comparison and search
// ---------------------------------------------------------------------------
/// Case-insensitive (ASCII) equality of two character sequences.
pub open spec fn eq_ignore_ascii(a: Seq<char>, b: Seq<char>) -> bool {
    a.len() == b.len() && forall|i: int| 0 <= i < a.len() ==> lower_ascii(a[i]) == lower_ascii(b[i])
}

/// `needle` occurs in `hay` starting at position `i`.
pub open spec fn matches_at(hay: Seq<char>, needle: Seq<char>, i: int) -> bool {
    0 <= i && i + needle.len() <= hay.len() && hay.subrange(i, i + needle.len()) == needle
}

/// `needle` occurs somewhere in `hay`.
pub open spec fn contains_seq(hay: Seq<char>, needle: Seq<char>) -> bool {
    exists|i: int| matches_at(hay, needle, i)
}

/// Equality of a character slice and a string slice, by their views.
pub fn chars_eq_str(v: &[char], s: &str) -> (r: bool)
    ensures
        r == (v@ == s@),
{
    let n = s.unicode_len();
    if v.len() != n {
        proof {
            assert(v@.len() != s@.len());
        }
        return false;
    }
    let mut i: usize = 0;
    while i < n
        invariant
            i <= n,
            n == v@.len() == s@.len(),
            forall|k: int| 0 <= k < i ==> v@[k] == s@[k],
        decreases n - i,
    {
        if v[i] != s.get_char(i) {
            return false;
        }
        i += 1;
    }
    proof {
        assert(v@ =~= s@);
    }
    true
}

/// Case-insensitive (ASCII) equality of two character slices.
pub fn chars_eq_ic(a: &[char], b: &[char]) -> (r: bool)
    ensures
        r == eq_ignore_ascii(a@, b@),
{
    if a.len() != b.len() {
        return false;
    }
    let mut i: usize = 0;
    while i < a.len()
        invariant
            i <= a@.len(),
            a@.len() == b@.len(),
            forall|k: int| 0 <= k < i ==> lower_ascii(a@[k]) == lower_ascii(b@[k]),
        decreases a@.len() - i,
    {
        if lower_ascii_char(a[i]) != lower_ascii_char(b[i]) {
            return false;
        }
        i += 1;
    }
    true
}

/// Case-insensitive (ASCII) equality of a character slice and a string.
pub fn chars_eq_str_ic(v: &[char], s: &str) -> (r: bool)
    ensures
        r == eq_ignore_ascii(v@, s@),
{
    let n = s.unicode_len();
    if v.len() != n {
        return false;
    }
    let mut i: usize = 0;
    while i < n
        invariant
            i <= n,
            n == v@.len() == s@.len(),
            forall|k: int| 0 <= k < i ==> lower_ascii(v@[k]) == lower_ascii(s@[k]),
        decreases n - i,
    {
        if lower_ascii_char(v[i]) != lower_ascii_char(s.get_char(i)) {
            return false;
        }
        i += 1;
    }
    true
}

/// `hay` begins with `needle`.
pub open spec fn starts_with_seq(hay: Seq<char>, needle: Seq<char>) -> bool {
    needle.len() <= hay.len() && hay.subrange(0, needle.len() as int) == needle
}

/// Whether `hay` starts with `needle`.
pub fn starts_with_str(hay: &[char], needle: &str) -> (r: bool)
    ensures
        r == starts_with_seq(hay@, needle@),
{
    let n = needle.unicode_len();
    if n > hay.len() {
        return false;
    }
    let mut i: usize = 0;
    while i < n
        invariant
            i <= n,
            n == needle@.len(),
            n <= hay@.len(),
            forall|k: int| 0 <= k < i ==> hay@[k] == needle@[k],
        decreases n - i,
    {
        if hay[i] != needle.get_char(i) {
            proof {
                assert(hay@.subrange(0, n as int)[i as int] != needle@[i as int]);
            }
            return false;
        }
        i += 1;
    }
    proof {
        assert(hay@.subrange(0, n as int) =~= needle@);
    }
    true
}

/// Whether `needle` occurs anywhere in `hay`.
pub fn contains_str(hay: &[char], needle: &str) -> (r: bool)
    ensures
        r == contains_seq(hay@, needle@),
{
    let n = needle.unicode_len();
    if n > hay.len() {
        proof {
            assert(forall|i: int| !matches_at(hay@, needle@, i));
        }
        return false;
    }
    if n == 0 {
        proof {
            assert(hay@.subrange(0, 0) =~= needle@);
            assert(matches_at(hay@, needle@, 0));
        }
        return true;
    }
    let mut i: usize = 0;
    while i <= hay.len() - n
        invariant
            n == needle@.len(),
            1 <= n <= hay@.len(),
            i <= hay@.len() - n + 1,
            forall|k: int| 0 <= k < i ==> !matches_at(hay@, needle@, k),
        decreases hay@.len() - i,
    {
        let mut j: usize = 0;
        let mut hit = true;
        while j < n
            invariant
                i + n <= hay@.len(),
                hay@.len() <= usize::MAX,
                n == needle@.len(),
                j <= n,
                hit ==> forall|k: int| 0 <= k < j ==> hay@[i + k] == needle@[k],
                !hit ==> !matches_at(hay@, needle@, i as int),
            decreases n - j,
        {
            if hay[i + j] != needle.get_char(j) {
                proof {
                    if matches_at(hay@, needle@, i as int) {
                        assert(hay@.subrange(i as int, i as int + n as int)[j as int]
                            == needle@[j as int]);
                    }
                }
                hit = false;
                j = n;
            } else {
                j += 1;
            }
        }
        if hit {
            proof {
                assert(hay@.subrange(i as int, i as int + n as int) =~= needle@);
                assert(matches_at(hay@, needle@, i as int));
            }
            return true;
        }
        i += 1;
    }
    proof {
        assert(forall|k: int| !matches_at(hay@, needle@, k));
    }
    false
}

/// `needle` occurs in `hay` at position `i` up to ASCII case.
pub open spec fn matches_at_ic(hay: Seq<char>, needle: Seq<char>, i: int) -> bool {
    0 <= i && i + needle.len() <= hay.len() && eq_ignore_ascii(
        hay.subrange(i, i + needle.len()),
        needle,
    )
}

/// `needle` occurs somewhere in `hay` up to ASCII case.
pub open spec fn contains_seq_ic(hay: Seq<char>, needle: Seq<char>) -> bool {
    exists|i: int| matches_at_ic(hay, needle, i)
}

/// Whether `needle` occurs anywhere in `hay`, comparing ASCII letters
/// without regard to case.
pub fn contains_str_ic(hay: &[char], needle: &str) -> (r: bool)
    ensures
        r == contains_seq_ic(hay@, needle@),
{
    let n = needle.unicode_len();
    if n > hay.len() {
        proof {
            assert(forall|i: int| !matches_at_ic(hay@, needle@, i));
        }
        return false;
    }
    if n == 0 {
        proof {
            assert(hay@.subrange(0, 0) =~= needle@);
            assert(matches_at_ic(hay@, needle@, 0));
        }
        return true;
    }
    let mut i: usize = 0;
    while i <= hay.len() - n
        invariant
            n == needle@.len(),
            1 <= n <= hay@.len(),
            i <= hay@.len() - n + 1,
            forall|k: int| 0 <= k < i ==> !matches_at_ic(hay@, needle@, k),
        decreases hay@.len() - i,
    {
        let mut j: usize = 0;
        let mut hit = true;
        while j < n
            invariant
                i + n <= hay@.len(),
                hay@.len() <= usize::MAX,
                n == needle@.len(),
                j <= n,
                hit ==> forall|k: int|
                    0 <= k < j ==> lower_ascii(hay@[i + k]) == lower_ascii(needle@[k]),
                !hit ==> !matches_at_ic(hay@, needle@, i as int),
            decreases n - j,
        {
            if lower_ascii_char(hay[i + j]) != lower_ascii_char(needle.get_char(j)) {
                proof {
                    if matches_at_ic(hay@, needle@, i as int) {
                        assert(hay@.subrange(i as int, i as int + n as int)[j as int] == hay@[i
                            + j]);
                    }
                }
                hit = false;
                j = n;
            } else {
                j += 1;
            }
        }
        if hit {
            proof {
                let sub = hay@.subrange(i as int, i as int + n as int);
                assert(forall|k: int| 0 <= k < n ==> sub[k] == hay@[i + k]);
                assert(matches_at_ic(hay@, needle@, i as int));
            }
            return true;
        }
        i += 1;
    }
    proof {
        assert(forall|k: int| !matches_at_ic(hay@, needle@, k));
    }
    false
}

/// Whether `hay` ends with `suffix`, comparing ASCII letters without
/// regard to case.
pub fn ends_with_ic(hay: &[char], suffix: &str) -> (r: bool)
    ensures
        r == (suffix@.len() <= hay@.len() && eq_ignore_ascii(
            hay@.subrange(hay@.len() - suffix@.len(), hay@.len() as int),
            suffix@,
        )),
{
    let n = suffix.unicode_len();
    if n > hay.len() {
        return false;
    }
    let start = hay.len() - n;
    let tail = slice_subrange(hay, start, hay.len());
    chars_eq_str_ic(tail, suffix)
}

// ---------------------------------------------------------------------------
// Conversions
// ---------------------------------------------------------------------------
/// The characters of a string slice, as a vector.
pub fn str_to_chars(s: &str) -> (r: Vec<char>)
    ensures
        r@ == s@,
{
    let n = s.unicode_len();
    let mut out: Vec<char> = Vec::new();
    let mut i: usize = 0;
    while i < n
        invariant
            i <= n,
            n == s@.len(),
            out@ =~= s@.take(i as int),
        decreases n - i,
    {
        out.push(s.get_char(i));
        i += 1;
    }
    proof {
        assert(s@.take(n as int) =~= s@);
    }
    out
}

/// Relies on `String::push`: appends one character to the string.
pub assume_specification[ String::push ](s: &mut String, c: char)
    ensures
        final(s)@ == old(s)@.push(c),
;

/// A `String` holding exactly the given characters.
pub fn chars_to_string(v: &[char]) -> (r: String)
    ensures
        r@ == v@,
{
    let mut out = String::new();
    let mut i: usize = 0;
    while i < v.len()
        invariant
            i <= v@.len(),
            out@ =~= v@.take(i as int),
        decreases v@.len() - i,
    {
        out.push(v[i]);
        i += 1;
    }
    proof {
        assert(v@.take(v@.len() as int) =~= v@);
    }
    out
}

/// Executable equality on string slices, stated over their views.
pub fn str_eq(a: &str, b: &str) -> (r: bool)
    ensures
        r == (a@ == b@),
{
    let sa = String::from_str(a);
    let sb = String::from_str(b);
    sa == sb
}

} // verus!
