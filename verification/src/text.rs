//! Character and string helpers shared by the rest of the library.

use vstd::prelude::*;

verus! {

/// Case-insensitive match of a text character against a lowercase pattern
/// character: either they are equal, or the text character is the ASCII
/// uppercase form of the pattern character.
pub open spec fn char_matches_ci(c: char, lit: char) -> bool {
    c == lit || ('A' as int <= c as int && c as int <= 'Z' as int && c as int + 32 == lit as int)
}

pub fn eq_ci(c: char, lit: char) -> (r: bool)
    ensures
        r == char_matches_ci(c, lit),
{
    if c == lit {
        true
    } else {
        let u: u32 = c as u32;
        65 <= u && u <= 90 && u + 32 == lit as u32
    }
}

/// Character-wise equality of two strings.
pub fn str_eq(a: &str, b: &str) -> (r: bool)
    ensures
        r == (a@ == b@),
{
    let an: usize = a.unicode_len();
    let bn: usize = b.unicode_len();
    if an != bn {
        return false;
    }
    let mut i: usize = 0;
    while i < an
        invariant
            i <= an,
            an == a@.len(),
            an == b@.len(),
            forall|k: int| 0 <= k < i ==> a@[k] == b@[k],
        decreases an - i,
    {
        if a.get_char(i) != b.get_char(i) {
            return false;
        }
        i = i + 1;
    }
    proof {
        assert(a@ =~= b@);
    }
    true
}

/// The character sequences a vector of strings holds.
pub open spec fn names_of(v: Seq<String>) -> Seq<Seq<char>> {
    v.map_values(|s: String| s@)
}

pub open spec fn starts_with(s: Seq<char>, prefix: Seq<char>) -> bool {
    prefix.len() <= s.len() && s.subrange(0, prefix.len() as int) == prefix
}

/// The literal `lit` occurs in `s` starting at position `p`.
pub open spec fn contains_at(s: Seq<char>, p: int, lit: Seq<char>) -> bool {
    0 <= p && p + lit.len() <= s.len() && s.subrange(p, p + lit.len()) == lit
}

/// The literal `lit` occurs somewhere in `s`.
pub open spec fn contains_seq(s: Seq<char>, lit: Seq<char>) -> bool {
    exists|p: int| contains_at(s, p, lit)
}

/// The literal occurs at position `p`, compared case-insensitively against a
/// lowercase pattern.
pub open spec fn matches_ci_at(s: Seq<char>, p: int, lit: Seq<char>) -> bool {
    0 <= p && p + lit.len() <= s.len() && forall|k: int|
        0 <= k < lit.len() ==> char_matches_ci(s[p + k], lit[k])
}

/// Decides whether `lit` occurs in `s` at position `p` (exact comparison).
pub fn match_at(s: &str, p: usize, lit: &str) -> (r: bool)
    requires
        p + lit@.len() <= s@.len(),
    ensures
        r == contains_at(s@, p as int, lit@),
{
    let n: usize = s.unicode_len();
    let m: usize = lit.unicode_len();
    let mut j: usize = 0;
    while j < m
        invariant
            j <= m,
            n == s@.len(),
            m == lit@.len(),
            p + m <= s@.len(),
            forall|k: int| 0 <= k < j ==> s@[p + k] == lit@[k],
        decreases m - j,
    {
        if s.get_char(p + j) != lit.get_char(j) {
            assert(s@.subrange(p as int, p + m) != lit@) by {
                assert(s@.subrange(p as int, p + m)[j as int] != lit@[j as int]);
            }
            return false;
        }
        j = j + 1;
    }
    proof {
        assert(s@.subrange(p as int, p + m) =~= lit@);
    }
    true
}

/// Decides whether `lit` occurs in `s` at position `p`, case-insensitively.
pub fn match_at_ci(s: &str, p: usize, lit: &str) -> (r: bool)
    requires
        p + lit@.len() <= s@.len(),
    ensures
        r == matches_ci_at(s@, p as int, lit@),
{
    let n: usize = s.unicode_len();
    let m: usize = lit.unicode_len();
    let mut j: usize = 0;
    while j < m
        invariant
            j <= m,
            n == s@.len(),
            m == lit@.len(),
            p + m <= s@.len(),
            forall|k: int| 0 <= k < j ==> char_matches_ci(s@[p + k], lit@[k]),
        decreases m - j,
    {
        if !eq_ci(s.get_char(p + j), lit.get_char(j)) {
            return false;
        }
        j = j + 1;
    }
    true
}

/// Decides whether `lit` occurs anywhere in `s` (exact comparison).
pub fn contains_str(s: &str, lit: &str) -> (r: bool)
    ensures
        r == contains_seq(s@, lit@),
{
    let n: usize = s.unicode_len();
    let m: usize = lit.unicode_len();
    if m > n {
        assert(forall|p: int| !contains_at(s@, p, lit@));
        return false;
    }
    let last: usize = n - m;
    let mut p: usize = 0;
    loop
        invariant
            p <= last,
            last == n - m,
            m <= n,
            n == s@.len(),
            m == lit@.len(),
            forall|k: int| 0 <= k < p ==> !contains_at(s@, k, lit@),
        ensures
            forall|k: int| 0 <= k <= last ==> !contains_at(s@, k, lit@),
        decreases last - p,
    {
        if match_at(s, p, lit) {
            return true;
        }
        if p == last {
            break;
        }
        p = p + 1;
    }
    assert(forall|k: int| !contains_at(s@, k, lit@)) by {
        assert(forall|k: int| k > n - m ==> !contains_at(s@, k, lit@));
    }
    false
}

} // verus!
