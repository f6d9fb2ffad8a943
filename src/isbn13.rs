//! ISBN-13 text, its canonical digit form and hyphenation (through the
//! `isbn` crate), and the registry that keeps ISBNs unique across a corpus.

use vstd::prelude::*;
use crate::text::{is_ascii_digit, digit_value};

verus! {

/// Why a text is not an ISBN-13.
#[derive(Clone, Copy, Debug, PartialEq, Eq, Structural)]
pub enum IsbnProblem {
    /// Not exactly 13 digits.
    InvalidLength,
    /// A character that has no place in an ISBN, or a wrong check digit.
    InvalidDigit,
    /// Any other failure reported by the parser.
    Other,
}

pub open spec fn is_isbn_char(c: char) -> bool {
    is_ascii_digit(c) || c == '-' || c == ' '
}

/// Digits, hyphens and spaces only.
pub open spec fn only_isbn_chars(s: Seq<char>) -> bool {
    forall|i: int| 0 <= i < s.len() ==> is_isbn_char(#[trigger] s[i])
}

/// The decimal digits of `s`, in order: the canonical form of an ISBN text.
pub open spec fn isbn_digits(s: Seq<char>) -> Seq<char> {
    s.filter(|c: char| is_ascii_digit(c))
}

/// `s` with every hyphen removed.
pub open spec fn strip_hyphens(s: Seq<char>) -> Seq<char> {
    s.filter(|c: char| c != '-')
}

pub open spec fn weighted_sum(d: Seq<char>) -> nat {
    digit_value(d[0]) + 3 * digit_value(d[1]) + digit_value(d[2]) + 3 * digit_value(d[3])
        + digit_value(d[4]) + 3 * digit_value(d[5]) + digit_value(d[6]) + 3 * digit_value(d[7])
        + digit_value(d[8]) + 3 * digit_value(d[9]) + digit_value(d[10]) + 3 * digit_value(d[11])
}

/// The ISBN-13 check digit rule: the last digit is `(10 - sum % 10) % 10`,
/// where `sum` weighs the first twelve digits alternately by 1 and 3.
pub open spec fn check_digit_ok(d: Seq<char>) -> bool {
    d.len() == 13 && digit_value(d[12]) == (if weighted_sum(d) % 10 == 0 {
        0
    } else {
        10 - weighted_sum(d) % 10
    })
}

/// A text that reads as an ISBN-13: digits, hyphens and spaces, with 13
/// digits that pass the check digit rule.
pub open spec fn isbn13_text_valid(s: Seq<char>) -> bool {
    only_isbn_chars(s) && isbn_digits(s).len() == 13 && check_digit_ok(isbn_digits(s))
}

/// The hyphenated form that the `isbn` crate's range table gives 13 digits.
pub uninterp spec fn isbn13_hyphenation(digits: Seq<char>) -> Seq<char>;

/// Whether the `isbn` crate's range table, compiled into it, defines a
/// registration group and registrant range for these 13 digits.
pub uninterp spec fn isbn13_in_range_table(digits: Seq<char>) -> bool;

/// Relies on `<isbn::Isbn13 as FromStr>::from_str`, which skips `-` and ` `,
/// collects at most 13 ASCII digits and checks the check digit (any other
/// character, a wrong digit count or a wrong check digit is an error), and on
/// `Isbn13`'s `Display`, which writes the 13 digits.
#[verifier::external_body]
fn isbn13_from_text(s: &str) -> (r: Result<String, IsbnProblem>)
    ensures
        isbn13_text_valid(s@) <==> r is Ok,
        r matches Ok(d) ==> d@ == isbn_digits(s@),
        only_isbn_chars(s@) && isbn_digits(s@).len() != 13 ==> r matches Err(IsbnProblem::InvalidLength),
        only_isbn_chars(s@) && isbn_digits(s@).len() == 13 && !check_digit_ok(isbn_digits(s@)) ==> r matches Err(IsbnProblem::InvalidDigit),
{
    match s.parse::<isbn::Isbn13>() {
        Ok(code) => Ok(code.to_string()),
        Err(isbn::IsbnError::InvalidLength) => Err(IsbnProblem::InvalidLength),
        Err(isbn::IsbnError::InvalidDigit) => Err(IsbnProblem::InvalidDigit),
        Err(_) => Err(IsbnProblem::Other),
    }
}

/// Relies on `isbn::Isbn13::hyphenate`, which writes the 13 digits in order
/// with hyphens at the range boundaries of its table, and fails where the
/// table defines no range. The digits are read back into an `Isbn13` first;
/// a valid text always reads back, so success depends on the table alone.
#[verifier::external_body]
fn isbn13_hyphenate(digits: &str) -> (r: Option<String>)
    ensures
        isbn13_text_valid(digits@) ==> (r is Some <==> isbn13_in_range_table(isbn_digits(digits@))),
        r matches Some(h) ==> h@ == isbn13_hyphenation(digits@) && strip_hyphens(h@) == isbn_digits(digits@),
{
    match digits.parse::<isbn::Isbn13>() {
        Ok(code) => code.hyphenate().ok().map(|h| h.to_string()),
        Err(_) => None,
    }
}

/// Reads an ISBN-13 and returns its 13 digits, or why it is not one.
pub fn parse_isbn13(s: &str) -> (r: Result<String, IsbnProblem>)
    ensures
        isbn13_text_valid(s@) <==> r is Ok,
        r matches Ok(d) ==> d@ == isbn_digits(s@),
        only_isbn_chars(s@) && isbn_digits(s@).len() != 13 ==> r matches Err(IsbnProblem::InvalidLength),
        only_isbn_chars(s@) && isbn_digits(s@).len() == 13 && !check_digit_ok(isbn_digits(s@)) ==> r matches Err(IsbnProblem::InvalidDigit),
{
    isbn13_from_text(s)
}

/// The canonical hyphenated form of an ISBN-13 text: `None` where the text
/// is no ISBN-13 or the range table has no entry for it.
pub fn hyphenate_isbn13(s: &str) -> (r: Option<String>)
    ensures
        !isbn13_text_valid(s@) ==> r.is_none(),
        isbn13_text_valid(s@) ==> (r is Some <==> isbn13_in_range_table(isbn_digits(s@))),
        r matches Some(h) ==> h@ == isbn13_hyphenation(isbn_digits(s@)) && strip_hyphens(h@) == isbn_digits(s@),
{
    match isbn13_from_text(s) {
        Ok(digits) => {
            proof {
                s@.filter_lemma(|c: char| is_ascii_digit(c));
                lemma_digits_of_digits(digits@);
                assert(only_isbn_chars(digits@));
            }
            isbn13_hyphenate(digits.as_str())
        },
        Err(_) => None,
    }
}

/// Removes every hyphen from `s`.
pub fn dehyphenate(s: &str) -> (r: String)
    ensures
        r@ == strip_hyphens(s@),
{
    let n = s.unicode_len();
    let mut out = String::new();
    let mut i: usize = 0;
    while i < n
        invariant
            n == s@.len(),
            0 <= i <= n,
            out@ == strip_hyphens(s@.subrange(0, i as int)),
        decreases n - i,
    {
        let c = s.get_char(i);
        let ghost before = s@.subrange(0, i as int);
        proof {
            let next = s@.subrange(0, i + 1);
            assert(next.drop_last() =~= before);
            assert(next == before.push(c));
            before.lemma_filter_push(c, |c: char| c != '-');
        }
        if c != '-' {
            let piece = s.substring_char(i, i + 1);
            assert(piece@ =~= seq![c]);
            out.append(piece);
        }
        i += 1;
    }
    assert(s@.subrange(0, n as int) =~= s@);
    out
}

/// The digits of a digit string are the string itself.
proof fn lemma_digits_of_digits(d: Seq<char>)
    requires
        forall|i: int| 0 <= i < d.len() ==> is_ascii_digit(#[trigger] d[i]),
    ensures
        isbn_digits(d) == d,
    decreases d.len(),
{
    if d.len() > 0 {
        lemma_digits_of_digits(d.drop_last());
        d.drop_last().lemma_filter_push(d.last(), |c: char| is_ascii_digit(c));
        assert(d.drop_last().push(d.last()) =~= d);
    } else {
        assert(d.filter(|c: char| is_ascii_digit(c)) =~= d);
    }
}

} // verus!

verus! {

/// The owner that `reg` records for `key`: the last entry with that key.
pub open spec fn registry_owner(reg: Seq<(Seq<char>, String)>, key: Seq<char>) -> Option<String>
    decreases reg.len(),
{
    if reg.len() == 0 {
        None
    } else if reg.last().0 == key {
        Some(reg.last().1)
    } else {
        registry_owner(reg.drop_last(), key)
    }
}

/// No key is recorded twice.
pub open spec fn keys_unique(reg: Seq<(Seq<char>, String)>) -> bool {
    forall|i: int, j: int| 0 <= i < j < reg.len() ==> reg[i].0 != reg[j].0
}

/// A key that has no owner appears nowhere in the registry.
pub proof fn lemma_no_owner_absent(reg: Seq<(Seq<char>, String)>, key: Seq<char>)
    requires
        registry_owner(reg, key).is_none(),
    ensures
        forall|i: int| 0 <= i < reg.len() ==> reg[i].0 != key,
    decreases reg.len(),
{
    if reg.len() > 0 {
        lemma_no_owner_absent(reg.drop_last(), key);
        assert forall|i: int| 0 <= i < reg.len() implies reg[i].0 != key by {
            if i < reg.len() - 1 {
                assert(reg[i] == reg.drop_last()[i]);
            }
        }
    }
}

/// The ISBNs seen so far in a validation pass, each with the id of the
/// document that first claimed it.
pub struct IsbnRegistry {
    entries: Vec<(String, String)>,
}

impl View for IsbnRegistry {
    type V = Seq<(Seq<char>, String)>;

    closed spec fn view(&self) -> Seq<(Seq<char>, String)> {
        self.entries@.map_values(|e: (String, String)| (e.0@, e.1))
    }
}

impl IsbnRegistry {
    /// An empty registry.
    pub fn new() -> (r: IsbnRegistry)
        ensures
            r@ == Seq::<(Seq<char>, String)>::empty(),
            keys_unique(r@),
    {
        let r = IsbnRegistry { entries: Vec::new() };
        assert(r@ =~= Seq::<(Seq<char>, String)>::empty());
        r
    }

    /// Number of registered ISBNs.
    pub fn len(&self) -> (r: usize)
        ensures
            r == self@.len(),
    {
        self.entries.len()
    }

    /// The id that owns the canonical ISBN `isbn`, if any.
    pub fn owner_of(&self, isbn: &str) -> (r: Option<String>)
        ensures
            r == registry_owner(self@, isbn@),
    {
        let mut j = self.entries.len();
        assert(self@.subrange(0, j as int) =~= self@);
        while j > 0
            invariant
                j <= self.entries@.len(),
                registry_owner(self@, isbn@) == registry_owner(self@.subrange(0, j as int), isbn@),
            decreases j,
        {
            let ghost pre = self@.subrange(0, j as int);
            assert(pre.drop_last() =~= self@.subrange(0, j - 1));
            assert(pre.last() == (self.entries@[j - 1].0@, self.entries@[j - 1].1));
            if crate::text::same_text(self.entries[j - 1].0.as_str(), isbn) {
                return Some(self.entries[j - 1].1.clone());
            }
            j -= 1;
        }
        None
    }

    /// Records `owner` for the canonical ISBN `isbn`, unless another id
    /// already owns it: then nothing changes and that id is returned.
    pub fn register(&mut self, isbn: &str, owner: String) -> (r: Result<(), String>)
        ensures
            keys_unique(old(self)@) ==> keys_unique(final(self)@),
            match registry_owner(old(self)@, isbn@) {
                Some(o) => r == Err::<(), String>(o) && final(self)@ == old(self)@,
                None => r is Ok && final(self)@ == old(self)@.push((isbn@, owner)),
            },
    {
        match self.owner_of(isbn) {
            Some(o) => Err(o),
            None => {
                proof {
                    if keys_unique(old(self)@) {
                        lemma_register_keeps_unique(old(self)@, isbn@, owner);
                    }
                }
                let key = String::from_str(isbn);
                self.entries.push((key, owner));
                assert(self@ =~= old(self)@.push((isbn@, owner)));
                Ok(())
            },
        }
    }
}

/// Registering a key only where it has no owner keeps the keys unique.
pub proof fn lemma_register_keeps_unique(reg: Seq<(Seq<char>, String)>, key: Seq<char>, owner: String)
    requires
        keys_unique(reg),
        registry_owner(reg, key).is_none(),
    ensures
        keys_unique(reg.push((key, owner))),
{
    lemma_no_owner_absent(reg, key);
}

} // verus!
