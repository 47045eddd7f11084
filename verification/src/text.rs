//! Text primitives over the character view of strings: whitespace, trimming,
//! substring search, prefix and suffix tests, and decimal rendering.
//!
//! Every function here is stated over `Seq<char>`, the view Verus gives to
//! `str` and `String`, so the rest of the crate can phrase its contracts in
//! the same terms.

use vstd::prelude::*;
use vstd::string::*;

verus! {

/// The Unicode `White_Space` property, which is what `char::is_whitespace`
/// tests and therefore what `str::trim` strips.
pub open spec fn is_ws(c: char) -> bool {
    let v = c as u32;
    ||| (0x9 <= v && v <= 0xd)
    ||| v == 0x20
    ||| v == 0x85
    ||| v == 0xa0
    ||| v == 0x1680
    ||| (0x2000 <= v && v <= 0x200a)
    ||| v == 0x2028
    ||| v == 0x2029
    ||| v == 0x202f
    ||| v == 0x205f
    ||| v == 0x3000
}

/// `s` with its leading whitespace removed.
pub open spec fn trim_start(s: Seq<char>) -> Seq<char>
    decreases s.len(),
{
    if s.len() > 0 && is_ws(s[0]) {
        trim_start(s.drop_first())
    } else {
        s
    }
}

/// `s` with its trailing whitespace removed.
pub open spec fn trim_end(s: Seq<char>) -> Seq<char>
    decreases s.len(),
{
    if s.len() > 0 && is_ws(s.last()) {
        trim_end(s.drop_last())
    } else {
        s
    }
}

/// `s` with whitespace removed at both ends, as `str::trim` gives it.
pub open spec fn trim(s: Seq<char>) -> Seq<char> {
    trim_end(trim_start(s))
}

/// A string that is empty once trimmed.
pub open spec fn is_blank(s: Seq<char>) -> bool {
    trim(s).len() == 0
}

/// `p` occurs in `s` starting at position `i`.
pub open spec fn matches_at(s: Seq<char>, p: Seq<char>, i: int) -> bool {
    &&& 0 <= i
    &&& i + p.len() <= s.len()
    &&& forall|j: int| 0 <= j < p.len() ==> s[i + j] == p[j]
}

/// The first position at or after `start` where `p` occurs in `s`.
pub open spec fn find_from(s: Seq<char>, p: Seq<char>, start: int) -> Option<int>
    decreases s.len() + 1 - start,
{
    if start < 0 || start + p.len() > s.len() {
        None
    } else if matches_at(s, p, start) {
        Some(start)
    } else {
        find_from(s, p, start + 1)
    }
}

/// Where `find_from` finds `p`, it occurs, at or after `start`.
pub proof fn lemma_find_from_bounds(s: Seq<char>, p: Seq<char>, start: int)
    ensures
        find_from(s, p, start) matches Some(i) ==> start <= i && i + p.len() <= s.len()
            && matches_at(s, p, i),
    decreases s.len() + 1 - start,
{
    if !(start < 0 || start + p.len() > s.len()) && !matches_at(s, p, start) {
        lemma_find_from_bounds(s, p, start + 1);
    }
}

/// `p` is a substring of `s`.
pub open spec fn contains(s: Seq<char>, p: Seq<char>) -> bool {
    find_from(s, p, 0) is Some
}

/// `s` begins with `p`.
pub open spec fn starts_with(s: Seq<char>, p: Seq<char>) -> bool {
    matches_at(s, p, 0)
}

/// `s` ends with `p`.
pub open spec fn ends_with(s: Seq<char>, p: Seq<char>) -> bool {
    matches_at(s, p, s.len() - p.len())
}

/// `s` with every trailing repetition of a non-empty `p` removed, as
/// `str::trim_end_matches` gives it.
pub open spec fn trim_end_matches(s: Seq<char>, p: Seq<char>) -> Seq<char>
    decreases s.len(),
{
    if p.len() > 0 && ends_with(s, p) {
        trim_end_matches(s.subrange(0, s.len() - p.len()), p)
    } else {
        s
    }
}

/// The decimal digit for `d`, which is below ten.
pub open spec fn digit_char(d: nat) -> char {
    if d == 0 {
        '0'
    } else if d == 1 {
        '1'
    } else if d == 2 {
        '2'
    } else if d == 3 {
        '3'
    } else if d == 4 {
        '4'
    } else if d == 5 {
        '5'
    } else if d == 6 {
        '6'
    } else if d == 7 {
        '7'
    } else if d == 8 {
        '8'
    } else {
        '9'
    }
}

/// The decimal rendering of `n`, as `{}` formats an unsigned integer.
pub open spec fn decimal(n: nat) -> Seq<char>
    decreases n,
{
    if n < 10 {
        seq![digit_char(n)]
    } else {
        decimal(n / 10).push(digit_char(n % 10))
    }
}

/// `String::push` of std: appends one character.
#[verifier::external_body]
pub(crate) fn push_char(s: &mut String, c: char)
    ensures
        final(s)@ == old(s)@.push(c),
{
    s.push(c)
}

/// An owned copy of `s`.
pub fn owned(s: &str) -> (r: String)
    ensures
        r@ == s@,
{
    String::from_str(s)
}

/// `a` followed by `b`, as a new string.
pub fn concat2(a: &str, b: &str) -> (r: String)
    ensures
        r@ == a@ + b@,
{
    let mut r = String::from_str(a);
    r.append(b);
    r
}

/// `a`, `b` and `c` in turn, as a new string.
pub fn concat3(a: &str, b: &str, c: &str) -> (r: String)
    ensures
        r@ == a@ + b@ + c@,
{
    let mut r = String::from_str(a);
    r.append(b);
    r.append(c);
    r
}

/// Tests `char::is_whitespace`.
pub fn is_whitespace_char(c: char) -> (r: bool)
    ensures
        r == is_ws(c),
{
    let v = c as u32;
    (0x9 <= v && v <= 0xd) || v == 0x20 || v == 0x85 || v == 0xa0 || v == 0x1680 || (0x2000
        <= v && v <= 0x200a) || v == 0x2028 || v == 0x2029 || v == 0x202f || v == 0x205f || v
        == 0x3000
}

/// Whether `p` occurs in `s` at character position `i`.
pub fn str_matches_at(s: &str, p: &str, i: usize) -> (r: bool)
    ensures
        r == matches_at(s@, p@, i as int),
{
    let slen = s.unicode_len();
    let plen = p.unicode_len();
    if i > slen || plen > slen - i {
        return false;
    }
    let mut j: usize = 0;
    while j < plen
        invariant
            j <= plen,
            plen == p@.len(),
            slen == s@.len(),
            i + plen <= slen,
            forall|k: int| 0 <= k < j ==> s@[i + k] == p@[k],
        decreases plen - j,
    {
        if s.get_char(i + j) != p.get_char(j) {
            return false;
        }
        j += 1;
    }
    true
}

/// The first character position at or after `start` where `p` occurs in `s`.
pub fn str_find_from(s: &str, p: &str, start: usize) -> (r: Option<usize>)
    ensures
        match r {
            Some(i) => find_from(s@, p@, start as int) == Some(i as int),
            None => find_from(s@, p@, start as int) is None,
        },
{
    let slen = s.unicode_len();
    let plen = p.unicode_len();
    let mut i = start;
    while i <= slen && plen <= slen - i
        invariant
            slen == s@.len(),
            plen == p@.len(),
            start <= i,
            find_from(s@, p@, start as int) == find_from(s@, p@, i as int),
        decreases slen + 1 - i,
    {
        if str_matches_at(s, p, i) {
            return Some(i);
        }
        i += 1;
    }
    None
}

/// Whether two strings are equal.
pub fn str_eq(a: &str, b: &str) -> (r: bool)
    ensures
        r == (a@ == b@),
{
    if a.unicode_len() != b.unicode_len() {
        return false;
    }
    let r = str_matches_at(a, b, 0);
    proof {
        if r {
            assert(a@ =~= b@);
        }
    }
    r
}

/// Tests `str::contains` with a string pattern.
pub fn str_contains(s: &str, p: &str) -> (r: bool)
    ensures
        r == contains(s@, p@),
{
    str_find_from(s, p, 0).is_some()
}

/// Tests `str::starts_with` with a string pattern.
pub fn str_starts_with(s: &str, p: &str) -> (r: bool)
    ensures
        r == starts_with(s@, p@),
{
    str_matches_at(s, p, 0)
}

/// Tests `str::ends_with` with a string pattern.
pub fn str_ends_with(s: &str, p: &str) -> (r: bool)
    ensures
        r == ends_with(s@, p@),
{
    let slen = s.unicode_len();
    let plen = p.unicode_len();
    if plen > slen {
        return false;
    }
    str_matches_at(s, p, slen - plen)
}

proof fn lemma_trim_start_skip(s: Seq<char>, i: int)
    requires
        0 <= i < s.len(),
        is_ws(s[i]),
    ensures
        trim_start(s.skip(i)) == trim_start(s.skip(i + 1)),
{
    assert(s.skip(i).drop_first() =~= s.skip(i + 1));
}

proof fn lemma_trim_end_sub(s: Seq<char>, a: int, b: int)
    requires
        0 <= a < b <= s.len(),
        is_ws(s[b - 1]),
    ensures
        trim_end(s.subrange(a, b)) == trim_end(s.subrange(a, b - 1)),
{
    assert(s.subrange(a, b).drop_last() =~= s.subrange(a, b - 1));
}

/// `str::trim`: `s` without leading and trailing whitespace.
pub fn str_trim(s: &str) -> (r: &str)
    ensures
        r@ == trim(s@),
{
    let len = s.unicode_len();
    let mut a: usize = 0;
    assert(s@.skip(0) =~= s@);
    while a < len && is_whitespace_char(s.get_char(a))
        invariant
            len == s@.len(),
            a <= len,
            trim_start(s@) == trim_start(s@.skip(a as int)),
        decreases len - a,
    {
        proof {
            lemma_trim_start_skip(s@, a as int);
        }
        a += 1;
    }
    assert(trim_start(s@.skip(a as int)) == s@.skip(a as int));
    assert(s@.skip(a as int) =~= s@.subrange(a as int, len as int));
    let mut b: usize = len;
    while b > a && is_whitespace_char(s.get_char(b - 1))
        invariant
            len == s@.len(),
            a <= b <= len,
            trim_start(s@) == s@.subrange(a as int, len as int),
            trim_end(s@.subrange(a as int, len as int)) == trim_end(
                s@.subrange(a as int, b as int),
            ),
        decreases b - a,
    {
        proof {
            lemma_trim_end_sub(s@, a as int, b as int);
        }
        b -= 1;
    }
    assert(trim_end(s@.subrange(a as int, b as int)) == s@.subrange(a as int, b as int)) by {
        if b > a {
            assert(s@.subrange(a as int, b as int).last() == s@[b - 1]);
        }
    }
    s.substring_char(a, b)
}

/// Tests `s.trim().is_empty()`.
pub fn str_is_blank(s: &str) -> (r: bool)
    ensures
        r == is_blank(s@),
{
    str_trim(s).unicode_len() == 0
}

/// `str::trim_end_matches` with a non-empty string pattern.
pub fn str_trim_end_matches<'a>(s: &'a str, p: &str) -> (r: &'a str)
    requires
        p@.len() > 0,
    ensures
        r@ == trim_end_matches(s@, p@),
{
    let slen = s.unicode_len();
    let plen = p.unicode_len();
    let mut b: usize = slen;
    assert(s@.subrange(0, slen as int) =~= s@);
    while b >= plen && str_matches_at(s, p, b - plen)
        invariant
            slen == s@.len(),
            plen == p@.len(),
            plen > 0,
            b <= slen,
            trim_end_matches(s@, p@) == trim_end_matches(s@.subrange(0, b as int), p@),
        decreases b,
    {
        proof {
            let t = s@.subrange(0, b as int);
            assert(ends_with(t, p@)) by {
                assert forall|j: int| 0 <= j < p@.len() implies t[t.len() - p@.len() + j]
                    == p@[j] by {
                    assert(t[t.len() - p@.len() + j] == s@[b - plen + j]);
                }
            }
            assert(t.subrange(0, t.len() - p@.len()) =~= s@.subrange(0, b - plen));
        }
        b -= plen;
    }
    proof {
        let t = s@.subrange(0, b as int);
        if ends_with(t, p@) {
            assert(matches_at(s@, p@, b - plen)) by {
                assert forall|j: int| 0 <= j < p@.len() implies s@[b - plen + j] == p@[j] by {
                    assert(t[t.len() - p@.len() + j] == s@[b - plen + j]);
                }
            }
        }
    }
    s.substring_char(0, b)
}

/// The decimal digit for `d`, which is below ten.
pub fn digit(d: usize) -> (c: char)
    requires
        d < 10,
    ensures
        c == digit_char(d as nat),
{
    if d == 0 {
        '0'
    } else if d == 1 {
        '1'
    } else if d == 2 {
        '2'
    } else if d == 3 {
        '3'
    } else if d == 4 {
        '4'
    } else if d == 5 {
        '5'
    } else if d == 6 {
        '6'
    } else if d == 7 {
        '7'
    } else if d == 8 {
        '8'
    } else {
        '9'
    }
}

/// Renders `n` in decimal, as `format!("{}", n)` does.
pub fn decimal_string(n: u64) -> (r: String)
    ensures
        r@ == decimal(n as nat),
    decreases n,
{
    let d = digit((n % 10) as usize);
    if n < 10 {
        let mut s = String::new();
        push_char(&mut s, d);
        assert(s@ =~= seq![digit_char(n as nat)]);
        s
    } else {
        let mut s = decimal_string(n / 10);
        push_char(&mut s, d);
        s
    }
}

} // verus!
