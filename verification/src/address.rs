//! The sender's address, taken out of a `From` header line and put in canonical
//! lower-case form.

use vstd::prelude::*;
use vstd::slice::slice_subrange;
use crate::text::casing::{
    fold_case, fold_case_of, is_ascii_text, is_lower_ascii, lemma_fold_case_ascii,
    lemma_fold_case_lower_ascii,
};
use crate::text::chars::{chars_of, string_of};
use crate::text::classes::{
    is_whitespace, is_wrapping, lemma_skip_leading, lemma_skip_trailing, lemma_strip_is_part,
    lemma_strip_keeps, strip, strip_slice, trim, CharClass,
};
use crate::text::search::find_char;
use crate::text::words::{
    first_with, first_word_with, lemma_first_with_is_part, lemma_first_with_words, words,
};

verus! {

/// The text between the first `<` and the first `>` of `s`, where the `>` stands
/// after the `<` with at least one character between them.
pub open spec fn bracketed(s: Seq<char>) -> Option<Seq<char>> {
    match (s.index_of_first('<'), s.index_of_first('>')) {
        (Some(l), Some(r)) => if r > l + 1 {
            Some(s.subrange(l + 1, r))
        } else {
            None
        },
        _ => None,
    }
}

/// The address that a `From` line names. The line is trimmed. If it holds a bracketed
/// part, that part is the address. Otherwise the address is the first word that holds
/// `@`, without the punctuation that wraps it. Either is case-folded.
pub open spec fn address_of(from_line: Seq<char>) -> Option<Seq<char>> {
    match bracketed(trim(from_line)) {
        Some(inner) => Some(fold_case(inner)),
        None => match first_with(words(trim(from_line)), '@') {
            Some(word) => Some(fold_case(strip(word, CharClass::Wrapping))),
            None => None,
        },
    }
}

/// The address that a `From` line names, or the empty text where it names none.
pub open spec fn normalized(from_line: Seq<char>) -> Seq<char> {
    match address_of(from_line) {
        Some(address) => address,
        None => Seq::empty(),
    }
}

/// The address that `from_line` names, if it names one; it is never empty.
pub fn extract_email(from_line: &str) -> (r: Option<String>)
    ensures
        match r {
            Some(address) => address_of(from_line@) == Some(address@) && address@.len() > 0,
            None => address_of(from_line@) is None,
        },
        r is Some <==> bracketed(trim(from_line@)) is Some || trim(from_line@).contains('@'),
{
    proof {
        lemma_address_found(from_line@);
        trim(from_line@).index_of_first_ensures('<');
        trim(from_line@).index_of_first_ensures('>');
    }
    let chars: Vec<char> = chars_of(from_line);
    let s: &[char] = strip_slice(chars.as_slice(), CharClass::Whitespace);
    match (find_char(s, '<'), find_char(s, '>')) {
        (Some(l), Some(r)) => {
            if r > l + 1 {
                let folded: Vec<char> = fold_case_of(slice_subrange(s, l + 1, r));
                return Some(string_of(folded.as_slice()));
            }
        },
        _ => {},
    }
    match first_word_with(s, '@') {
        Some(word) => {
            proof {
                lemma_first_with_words(s@, '@');
                let at = choose|i: int| 0 <= i < word@.len() && word@[i] == '@';
                lemma_strip_keeps(word@, CharClass::Wrapping, at);
            }
            let folded: Vec<char> = fold_case_of(strip_slice(word, CharClass::Wrapping));
            Some(string_of(folded.as_slice()))
        },
        None => None,
    }
}

/// The address that `from_line` names, or the empty string where it names none: the
/// result is empty exactly if no address was found.
pub fn normalize(from_line: &str) -> (r: String)
    ensures
        r@ == normalized(from_line@),
        r@.len() == 0 <==> address_of(from_line@) is None,
{
    match extract_email(from_line) {
        Some(address) => address,
        None => String::new(),
    }
}

/// A `From` line names an address exactly if, trimmed, it holds a bracketed part or
/// an `@`.
pub proof fn lemma_address_found(from_line: Seq<char>)
    ensures
        address_of(from_line) is Some <==> bracketed(trim(from_line)) is Some || trim(
            from_line,
        ).contains('@'),
{
    lemma_first_with_words(trim(from_line), '@');
}

/// A line of the shape `name <address>` names `address`, case-folded, whatever the
/// name's case and the whitespace before, in and after the name, and whatever
/// whitespace follows the `>`. Where `address` is ASCII without capital letters, the
/// line names `address` itself.
pub proof fn lemma_bracketed_address(name: Seq<char>, address: Seq<char>, tail: Seq<char>)
    requires
        !name.contains('<'),
        !name.contains('>'),
        address.len() > 0,
        !address.contains('>'),
        forall|i: int| 0 <= i < tail.len() ==> is_whitespace(#[trigger] tail[i]),
    ensures
        address_of(name + seq!['<'] + address + seq!['>'] + tail) == Some(fold_case(address)),
        normalized(name + seq!['<'] + address + seq!['>'] + tail) == fold_case(address),
        is_lower_ascii(address) ==> normalized(name + seq!['<'] + address + seq!['>'] + tail)
            == address,
{
    let line = name + seq!['<'] + address + seq!['>'] + tail;
    let open = name.len() as int;
    let close = open + 1 + address.len();
    assert(line[open] == '<');
    let k = lemma_skip_leading(line, CharClass::Whitespace);
    let rest = line.skip(k);
    let end = lemma_skip_trailing(rest, CharClass::Whitespace);
    assert(end == close - k + 1) by {
        if end <= close - k {
            assert(is_whitespace(rest[close - k]));
        }
    }
    let trimmed = rest.take(end);
    assert(trimmed[open - k] == '<');
    assert(trimmed[close - k] == '>');
    trimmed.index_of_first_ensures('<');
    trimmed.index_of_first_ensures('>');
    assert(trimmed.subrange(open - k + 1, close - k) == address);
    if is_lower_ascii(address) {
        lemma_fold_case_lower_ascii(address);
    }
}

/// The address that an ASCII line names is ASCII text without capital letters.
pub proof fn lemma_ascii_address_is_lower(from_line: Seq<char>)
    requires
        is_ascii_text(from_line),
    ensures
        is_lower_ascii(normalized(from_line)),
{
    lemma_strip_is_part(from_line, CharClass::Whitespace);
    let line = trim(from_line);
    line.index_of_first_ensures('<');
    line.index_of_first_ensures('>');
    match bracketed(line) {
        Some(inner) => {
            lemma_fold_case_ascii(inner);
        },
        None => {
            match first_with(words(line), '@') {
                Some(word) => {
                    lemma_first_with_is_part(line, '@');
                    lemma_strip_is_part(word, CharClass::Wrapping);
                    lemma_fold_case_ascii(strip(word, CharClass::Wrapping));
                },
                None => {},
            }
        },
    }
}

/// Where an ASCII line holds no bracketed part, the address that it names neither
/// begins nor ends with whitespace or with the punctuation that wraps addresses.
pub proof fn lemma_ascii_word_address_is_bare(from_line: Seq<char>)
    requires
        is_ascii_text(from_line),
        bracketed(trim(from_line)) is None,
        address_of(from_line) is Some,
    ensures
        normalized(from_line).len() > 0,
        !is_whitespace(normalized(from_line)[0]) && !is_wrapping(normalized(from_line)[0]),
        !is_whitespace(normalized(from_line).last()) && !is_wrapping(normalized(from_line).last()),
{
    lemma_strip_is_part(from_line, CharClass::Whitespace);
    let line = trim(from_line);
    let word = first_with(words(line), '@')->0;
    lemma_first_with_is_part(line, '@');
    lemma_first_with_words(line, '@');
    lemma_strip_is_part(word, CharClass::Wrapping);
    lemma_strip_keeps(word, CharClass::Wrapping, choose|i: int| 0 <= i < word.len() && word[i] == '@');
    lemma_fold_case_ascii(strip(word, CharClass::Wrapping));
}

} // verus!
