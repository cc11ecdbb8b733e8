//! Case folding: each character replaced by its lower-case mapping.

use vstd::prelude::*;
use crate::stdlib::{lowercase_mapping, unicode_lowercase};
use crate::text::chars::{chars_of, string_of};

verus! {

/// The ASCII lower-case form of `c`: `A` to `Z` become `a` to `z`, every other
/// character stays.
pub open spec fn ascii_lower(c: char) -> char {
    if 'A' <= c <= 'Z' {
        ((c as u8) + 32) as char
    } else {
        c
    }
}

/// The lower-case mapping of `c`: the ASCII one for an ASCII character, else the one
/// of the Unicode character database.
pub open spec fn lowercase_of(c: char) -> Seq<char> {
    if c <= '\u{7f}' {
        seq![ascii_lower(c)]
    } else {
        unicode_lowercase(c)
    }
}

/// `s` with each character replaced by its lower-case mapping.
pub open spec fn fold_case(s: Seq<char>) -> Seq<char>
    decreases s.len(),
{
    if s.len() == 0 {
        Seq::empty()
    } else {
        fold_case(s.drop_last()) + lowercase_of(s.last())
    }
}

/// Whether `s` begins with `prefix` when ASCII letters are compared without their case.
pub open spec fn starts_with_ignoring_ascii_case(s: Seq<char>, prefix: Seq<char>) -> bool {
    prefix.len() <= s.len() && forall|i: int|
        0 <= i < prefix.len() ==> ascii_lower(#[trigger] s[i]) == ascii_lower(prefix[i])
}

/// Whether every character of `s` is an ASCII character.
pub open spec fn is_ascii_text(s: Seq<char>) -> bool {
    forall|i: int| 0 <= i < s.len() ==> (#[trigger] s[i]) <= '\u{7f}'
}

/// Whether every character of `s` is an ASCII character other than `A` to `Z`.
pub open spec fn is_lower_ascii(s: Seq<char>) -> bool {
    forall|i: int| 0 <= i < s.len() ==> (#[trigger] s[i]) <= '\u{7f}' && !('A' <= s[i] <= 'Z')
}

/// The ASCII lower-case form of `c`.
pub fn to_ascii_lower(c: char) -> (r: char)
    ensures
        r == ascii_lower(c),
{
    if 'A' <= c && c <= 'Z' {
        ((c as u8) + 32) as char
    } else {
        c
    }
}

/// `s` with each character replaced by its lower-case mapping, which is at least one
/// character long.
pub fn fold_case_of(s: &[char]) -> (r: Vec<char>)
    ensures
        r@ == fold_case(s@),
        r@.len() >= s@.len(),
{
    let mut r: Vec<char> = Vec::new();
    let mut i: usize = 0;
    while i < s.len()
        invariant
            i <= s.len(),
            r@ == fold_case(s@.take(i as int)),
            r@.len() >= i,
        decreases s.len() - i,
    {
        let c: char = s[i];
        assert(s@.take(i as int + 1).drop_last() == s@.take(i as int));
        if c <= '\u{7f}' {
            r.push(to_ascii_lower(c));
        } else {
            let mut mapped: Vec<char> = lowercase_mapping(c);
            r.append(&mut mapped);
        }
        i += 1;
    }
    assert(s@.take(s.len() as int) == s@);
    r
}

/// `s` with each character replaced by its lower-case mapping, which is at least one
/// character long.
pub fn to_lower(s: &str) -> (r: String)
    ensures
        r@ == fold_case(s@),
        r@.len() >= s@.len(),
{
    let chars: Vec<char> = chars_of(s);
    let folded: Vec<char> = fold_case_of(chars.as_slice());
    string_of(folded.as_slice())
}

/// Whether `s` begins with `prefix` when ASCII letters are compared without their case.
pub fn has_prefix_ignoring_ascii_case(s: &[char], prefix: &[char]) -> (r: bool)
    ensures
        r == starts_with_ignoring_ascii_case(s@, prefix@),
{
    if prefix.len() > s.len() {
        return false;
    }
    let mut i: usize = 0;
    while i < prefix.len()
        invariant
            i <= prefix.len() <= s.len(),
            forall|j: int| 0 <= j < i ==> ascii_lower(#[trigger] s@[j]) == ascii_lower(prefix@[j]),
        decreases prefix.len() - i,
    {
        if to_ascii_lower(s[i]) != to_ascii_lower(prefix[i]) {
            return false;
        }
        i += 1;
    }
    true
}

/// Case folding maps ASCII text character by character to its ASCII lower-case form:
/// the result is ASCII text of the same length without capital letters.
pub proof fn lemma_fold_case_ascii(s: Seq<char>)
    requires
        is_ascii_text(s),
    ensures
        fold_case(s).len() == s.len(),
        forall|i: int| 0 <= i < s.len() ==> (#[trigger] fold_case(s)[i]) == ascii_lower(s[i]),
        is_lower_ascii(fold_case(s)),
    decreases s.len(),
{
    if s.len() > 0 {
        lemma_fold_case_ascii(s.drop_last());
    }
}

/// Case folding leaves ASCII text without capital letters as it is.
pub proof fn lemma_fold_case_lower_ascii(s: Seq<char>)
    requires
        is_lower_ascii(s),
    ensures
        fold_case(s) == s,
{
    lemma_fold_case_ascii(s);
}

/// Case folding keeps an ASCII character as one character, so text with an ASCII
/// character in it does not fold to the empty text.
pub proof fn lemma_fold_case_keeps_ascii(s: Seq<char>, i: int)
    requires
        0 <= i < s.len(),
        s[i] <= '\u{7f}',
    ensures
        fold_case(s).len() > 0,
    decreases s.len(),
{
    if i < s.len() - 1 {
        lemma_fold_case_keeps_ascii(s.drop_last(), i);
    }
}

} // verus!
