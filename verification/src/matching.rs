//! The two pattern languages of a rule: one for the sender's address, one for the
//! subject line.

use vstd::prelude::*;
use vstd::slice::slice_subrange;
use crate::text::casing::{fold_case, fold_case_of, lemma_fold_case_keeps_ascii};
use crate::text::chars::{chars_of, same_chars};
use crate::text::classes::{strip_slice, trim, CharClass};
use crate::text::search::{
    contains_run, contains_slice, find_char, remove_char, rfind_char, without,
};

verus! {

/// Whether the case-folded sender pattern `pattern` accepts the case-folded address
/// `email`. A pattern that begins with `@` names a domain: it accepts an address whose
/// text after its last `@` is the pattern's text after its `@`. Any other pattern
/// accepts the address equal to it.
pub open spec fn folded_sender_accepts(pattern: Seq<char>, email: Seq<char>) -> bool {
    if pattern.len() > 0 && pattern[0] == '@' {
        match email.index_of_last('@') {
            Some(at) => email.skip(at + 1) == pattern.skip(1),
            None => false,
        }
    } else {
        email == pattern
    }
}

/// Whether the sender pattern `pattern` accepts the address `email`: the trimmed
/// pattern is empty, or its case-folded form accepts the trimmed, case-folded address.
pub open spec fn sender_accepts(pattern: Seq<char>, email: Seq<char>) -> bool {
    trim(pattern).len() == 0 || folded_sender_accepts(
        fold_case(trim(pattern)),
        fold_case(trim(email)),
    )
}

/// Whether the case-folded subject pattern `pattern` accepts the case-folded subject
/// `subject`. A pattern that holds `%` is a wildcard: without its `%` characters it is
/// empty or stands somewhere in the subject. Any other pattern accepts the subject
/// equal to it.
pub open spec fn folded_header_accepts(pattern: Seq<char>, subject: Seq<char>) -> bool {
    if pattern.contains('%') {
        without(pattern, '%').len() == 0 || contains_run(subject, without(pattern, '%'))
    } else {
        subject == pattern
    }
}

/// Whether the subject pattern `pattern` accepts `subject`: the trimmed pattern is
/// empty, or its case-folded form accepts the trimmed, case-folded subject.
pub open spec fn header_accepts(pattern: Seq<char>, subject: Seq<char>) -> bool {
    trim(pattern).len() == 0 || folded_header_accepts(
        fold_case(trim(pattern)),
        fold_case(trim(subject)),
    )
}

/// Decides a sender pattern on text that is already trimmed and case-folded.
pub fn folded_sender_matches(pattern: &[char], email: &[char]) -> (r: bool)
    ensures
        r == folded_sender_accepts(pattern@, email@),
{
    if pattern.len() > 0 && pattern[0] == '@' {
        match rfind_char(email, '@') {
            Some(at) => {
                let domain: &[char] = slice_subrange(email, at + 1, email.len());
                let wanted: &[char] = slice_subrange(pattern, 1, pattern.len());
                same_chars(domain, wanted)
            },
            None => false,
        }
    } else {
        same_chars(email, pattern)
    }
}

/// Decides a subject pattern on text that is already trimmed and case-folded.
pub fn folded_header_matches(pattern: &[char], subject: &[char]) -> (r: bool)
    ensures
        r == folded_header_accepts(pattern@, subject@),
{
    if find_char(pattern, '%').is_some() {
        let needle: Vec<char> = remove_char(pattern, '%');
        needle.len() == 0 || contains_slice(subject, needle.as_slice())
    } else {
        same_chars(subject, pattern)
    }
}

/// Whether the sender pattern `rule_sender` accepts the address `email`. The empty
/// address, which stands for an address that was not found, is accepted by the blank
/// pattern only.
pub fn sender_matches(rule_sender: &str, email: &str) -> (r: bool)
    ensures
        r == sender_accepts(rule_sender@, email@),
        trim(email@).len() == 0 ==> (r <==> trim(rule_sender@).len() == 0),
{
    let pattern_chars: Vec<char> = chars_of(rule_sender);
    let pattern: &[char] = strip_slice(pattern_chars.as_slice(), CharClass::Whitespace);
    if pattern.len() == 0 {
        return true;
    }
    let email_chars: Vec<char> = chars_of(email);
    let folded_pattern: Vec<char> = fold_case_of(pattern);
    let folded_email: Vec<char> = fold_case_of(
        strip_slice(email_chars.as_slice(), CharClass::Whitespace),
    );
    proof {
        folded_email@.index_of_last_ensures('@');
    }
    folded_sender_matches(folded_pattern.as_slice(), folded_email.as_slice())
}

/// Whether the subject pattern `rule_header` accepts `subject`.
pub fn header_matches(rule_header: &str, subject: &str) -> (r: bool)
    ensures
        r == header_accepts(rule_header@, subject@),
{
    let pattern_chars: Vec<char> = chars_of(rule_header);
    let pattern: &[char] = strip_slice(pattern_chars.as_slice(), CharClass::Whitespace);
    if pattern.len() == 0 {
        return true;
    }
    let subject_chars: Vec<char> = chars_of(subject);
    let folded_pattern: Vec<char> = fold_case_of(pattern);
    let folded_subject: Vec<char> = fold_case_of(
        strip_slice(subject_chars.as_slice(), CharClass::Whitespace),
    );
    folded_header_matches(folded_pattern.as_slice(), folded_subject.as_slice())
}

/// A pattern that is empty, or holds whitespace only, accepts every sender and every
/// subject.
pub proof fn lemma_empty_pattern_accepts_all(pattern: Seq<char>, email: Seq<char>, subject: Seq<char>)
    requires
        pattern.len() == 0 || trim(pattern).len() == 0,
    ensures
        sender_accepts(pattern, email),
        header_accepts(pattern, subject),
{
}

/// A domain pattern rejects every address that holds no `@`.
pub proof fn lemma_domain_pattern_needs_at(pattern: Seq<char>, email: Seq<char>)
    requires
        fold_case(trim(pattern)).len() > 0,
        fold_case(trim(pattern))[0] == '@',
        !fold_case(trim(email)).contains('@'),
    ensures
        !sender_accepts(pattern, email),
{
    fold_case(trim(email)).index_of_last_ensures('@');
}

/// Where no address was found, the address is the empty text, and only a pattern for
/// every sender accepts it: a pattern that, trimmed, holds an ASCII character rejects
/// the empty address.
pub proof fn lemma_empty_address_rejected(pattern: Seq<char>, i: int)
    requires
        0 <= i < trim(pattern).len(),
        trim(pattern)[i] <= '\u{7f}',
    ensures
        !sender_accepts(pattern, Seq::empty()),
{
    lemma_fold_case_keeps_ascii(trim(pattern), i);
    fold_case(trim(Seq::<char>::empty())).index_of_last_ensures('@');
}

} // verus!
