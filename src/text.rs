//! Character-level helpers over strings, stated on their `Seq<char>` views.

use vstd::prelude::*;
use vstd::string::*;

verus! {

/// `s` ends with `suffix`.
pub open spec fn ends_with(s: Seq<char>, suffix: Seq<char>) -> bool {
    s.len() >= suffix.len() && s.subrange(s.len() - suffix.len(), s.len() as int) == suffix
}

/// `s` starts with `prefix`.
pub open spec fn starts_with(s: Seq<char>, prefix: Seq<char>) -> bool {
    s.len() >= prefix.len() && s.subrange(0, prefix.len() as int) == prefix
}

pub open spec fn is_ascii_digit(c: char) -> bool {
    '0' <= c && c <= '9'
}

pub open spec fn is_hex_digit(c: char) -> bool {
    is_ascii_digit(c) || ('a' <= c && c <= 'f') || ('A' <= c && c <= 'F')
}

pub open spec fn all_ascii_digits(s: Seq<char>) -> bool {
    forall|i: int| 0 <= i < s.len() ==> is_ascii_digit(#[trigger] s[i])
}

pub open spec fn all_hex_digits(s: Seq<char>) -> bool {
    forall|i: int| 0 <= i < s.len() ==> is_hex_digit(#[trigger] s[i])
}

/// Whether two strings hold the same characters.
pub fn same_text(a: &str, b: &str) -> (r: bool)
    ensures
        r == (a@ == b@),
{
    let n = a.unicode_len();
    if n != b.unicode_len() {
        return false;
    }
    let mut i: usize = 0;
    while i < n
        invariant
            n == a@.len(),
            n == b@.len(),
            0 <= i <= n,
            forall|k: int| 0 <= k < i ==> a@[k] == b@[k],
        decreases n - i,
    {
        if a.get_char(i) != b.get_char(i) {
            return false;
        }
        i += 1;
    }
    assert(a@ =~= b@);
    true
}

/// Whether `s` ends with `suffix`.
pub fn has_suffix(s: &str, suffix: &str) -> (r: bool)
    ensures
        r == ends_with(s@, suffix@),
{
    let n = s.unicode_len();
    let m = suffix.unicode_len();
    if m > n {
        return false;
    }
    let tail = s.substring_char(n - m, n);
    same_text(tail, suffix)
}

/// Whether `s` starts with `prefix`.
pub fn has_prefix(s: &str, prefix: &str) -> (r: bool)
    ensures
        r == starts_with(s@, prefix@),
{
    let n = s.unicode_len();
    let m = prefix.unicode_len();
    if m > n {
        return false;
    }
    let head = s.substring_char(0, m);
    same_text(head, prefix)
}

/// Whether every character of `s` is an ASCII decimal digit.
pub fn only_digits(s: &str) -> (r: bool)
    ensures
        r == all_ascii_digits(s@),
{
    let n = s.unicode_len();
    let mut i: usize = 0;
    while i < n
        invariant
            n == s@.len(),
            0 <= i <= n,
            forall|k: int| 0 <= k < i ==> is_ascii_digit(#[trigger] s@[k]),
        decreases n - i,
    {
        let c = s.get_char(i);
        if !('0' <= c && c <= '9') {
            return false;
        }
        i += 1;
    }
    true
}

/// Whether every character of `s` is a hexadecimal digit, in either case.
pub fn only_hex_digits(s: &str) -> (r: bool)
    ensures
        r == all_hex_digits(s@),
{
    let n = s.unicode_len();
    let mut i: usize = 0;
    while i < n
        invariant
            n == s@.len(),
            0 <= i <= n,
            forall|k: int| 0 <= k < i ==> is_hex_digit(#[trigger] s@[k]),
        decreases n - i,
    {
        let c = s.get_char(i);
        if !(('0' <= c && c <= '9') || ('a' <= c && c <= 'f') || ('A' <= c && c <= 'F')) {
            return false;
        }
        i += 1;
    }
    true
}


pub open spec fn digit_value(c: char) -> nat {
    ((c as u32) as int - ('0' as u32) as int) as nat
}

/// The number that a string of decimal digits denotes.
pub open spec fn digits_value(s: Seq<char>) -> nat
    decreases s.len(),
{
    if s.len() == 0 {
        0
    } else {
        digits_value(s.drop_last()) * 10 + digit_value(s.last())
    }
}

/// What `u32::from_str` yields: an optional `+`, then one or more decimal
/// digits whose value fits in a `u32`.
pub open spec fn parse_u32_spec(s: Seq<char>) -> Option<u32> {
    let body = if s.len() > 0 && s[0] == '+' { s.drop_first() } else { s };
    if body.len() > 0 && all_ascii_digits(body) && digits_value(body) <= u32::MAX {
        Some(digits_value(body) as u32)
    } else {
        None
    }
}

/// The value of a digit string is at least the value of any of its prefixes.
pub proof fn lemma_digits_value_prefix(s: Seq<char>, k: int)
    requires
        0 <= k <= s.len(),
    ensures
        digits_value(s.subrange(0, k)) <= digits_value(s),
    decreases s.len(),
{
    if k < s.len() {
        assert(s.drop_last().subrange(0, k) =~= s.subrange(0, k));
        lemma_digits_value_prefix(s.drop_last(), k);
    } else {
        assert(s.subrange(0, k) =~= s);
    }
}

/// Parses a decimal `u32` as `str::parse::<u32>` does.
pub fn parse_u32(s: &str) -> (r: Option<u32>)
    ensures
        r == parse_u32_spec(s@),
{
    let n = s.unicode_len();
    let start: usize = if n > 0 && s.get_char(0) == '+' { 1 } else { 0 };
    let body = s.substring_char(start, n);
    assert(body@ == (if s@.len() > 0 && s@[0] == '+' { s@.drop_first() } else { s@ }));
    let m = body.unicode_len();
    if m == 0 {
        return None;
    }
    let mut acc: u64 = 0;
    let mut i: usize = 0;
    while i < m
        invariant
            m == body@.len(),
            m > 0,
            body@ == (if s@.len() > 0 && s@[0] == '+' { s@.drop_first() } else { s@ }),
            0 <= i <= m,
            all_ascii_digits(body@.subrange(0, i as int)),
            acc == digits_value(body@.subrange(0, i as int)),
            acc <= u32::MAX,
        decreases m - i,
    {
        let c = body.get_char(i);
        if !('0' <= c && c <= '9') {
            assert(!is_ascii_digit(body@[i as int]));
            assert(!all_ascii_digits(body@));
            assert(parse_u32_spec(s@).is_none());
            return None;
        }
        let d = (c as u32 - '0' as u32) as u64;
        let ghost prefix = body@.subrange(0, i + 1);
        assert(prefix.drop_last() =~= body@.subrange(0, i as int));
        assert(prefix.last() == c);
        assert(d == digit_value(c));
        acc = acc * 10 + d;
        assert(acc == digits_value(prefix));
        if acc > u32::MAX as u64 {
            proof {
                lemma_digits_value_prefix(body@, i + 1);
                assert(digits_value(body@) > u32::MAX);
                assert(parse_u32_spec(s@).is_none());
            }
            return None;
        }
        i += 1;
    }
    assert(body@.subrange(0, m as int) =~= body@);
    Some(acc as u32)
}

/// `t` occurs in `s` at some position.
pub open spec fn contains_text(s: Seq<char>, t: Seq<char>) -> bool {
    exists|k: int| 0 <= k && k + t.len() <= s.len() && #[trigger] s.subrange(k, k + t.len()) == t
}

/// Whether `t` occurs in `s`.
pub fn has_substring(s: &str, t: &str) -> (r: bool)
    ensures
        r == contains_text(s@, t@),
{
    let n = s.unicode_len();
    let m = t.unicode_len();
    if m > n {
        return false;
    }
    if m == 0 {
        assert(s@.subrange(0, 0 + t@.len() as int) =~= t@);
        return true;
    }
    let mut k: usize = 0;
    while k <= n - m
        invariant
            n == s@.len(),
            m == t@.len(),
            0 < m <= n,
            0 <= k <= n - m + 1,
            forall|j: int| 0 <= j < k ==> #[trigger] s@.subrange(j, j + m) != t@,
        decreases n - m + 1 - k,
    {
        if same_text(s.substring_char(k, k + m), t) {
            return true;
        }
        k += 1;
    }
    false
}

/// Some string of `names` reads `k`.
pub open spec fn names_contain(names: Seq<String>, k: Seq<char>) -> bool {
    exists|i: int| 0 <= i < names.len() && (#[trigger] names[i])@ == k
}

/// Whether some string of `names` reads `k`.
pub fn list_has(names: &Vec<String>, k: &str) -> (r: bool)
    ensures
        r == names_contain(names@, k@),
{
    let mut i: usize = 0;
    while i < names.len()
        invariant
            0 <= i <= names@.len(),
            forall|j: int| 0 <= j < i ==> (#[trigger] names@[j])@ != k@,
        decreases names.len() - i,
    {
        if same_text(names[i].as_str(), k) {
            return true;
        }
        i += 1;
    }
    false
}

} // verus!
