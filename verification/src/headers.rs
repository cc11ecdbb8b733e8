//! The `From` and `Subject` header lines of a raw message.

use vstd::prelude::*;
use vstd::slice::slice_subrange;
use vstd::utf8::{decode_utf8, valid_utf8};
use crate::stdlib::{decode_lossy, utf8_lossy};
use crate::text::casing::{has_prefix_ignoring_ascii_case, starts_with_ignoring_ascii_case};
use crate::text::chars::{chars_of, string_of};
use crate::text::classes::{find_class, span, strip_slice, trim, CharClass};

verus! {

/// What the header lines of one message hold.
#[derive(Clone, Debug, PartialEq, Eq)]
pub struct HeaderPair {
    /// The trimmed `From` line, its `From:` included; empty where the message has none.
    pub from_line: String,
    /// What follows `Subject:` on the subject line, trimmed; empty where the message
    /// has none.
    pub subject: String,
}

/// The lines of `text`: the pieces that its line feeds and carriage returns part, in
/// order. A carriage return with a line feed behind it leaves an empty piece between
/// the two, which is no header line.
pub open spec fn lines(text: Seq<char>) -> Seq<Seq<char>>
    decreases text.len(),
{
    let n = span(text, CharClass::LineBreak);
    if n >= text.len() {
        seq![text]
    } else {
        seq![text.take(n as int)] + lines(text.skip(n as int + 1))
    }
}

/// The prefix of a `From` line.
pub open spec fn from_prefix() -> Seq<char> {
    seq!['f', 'r', 'o', 'm', ':']
}

/// The prefix of a `Subject` line.
pub open spec fn subject_prefix() -> Seq<char> {
    seq!['s', 'u', 'b', 'j', 'e', 'c', 't', ':']
}

/// Whether `line`, trimmed, begins with `prefix` in any ASCII case.
pub open spec fn is_header_line(line: Seq<char>, prefix: Seq<char>) -> bool {
    starts_with_ignoring_ascii_case(trim(line), prefix)
}

/// Whether none of the lines of `text` is a header line for `prefix`.
pub open spec fn has_no_header_line(text: Seq<char>, prefix: Seq<char>) -> bool {
    forall|i: int| 0 <= i < lines(text).len() ==> !is_header_line(#[trigger] lines(text)[i], prefix)
}

/// The first of `lines` that is a header line for `prefix`, trimmed.
pub open spec fn first_header_line(lines: Seq<Seq<char>>, prefix: Seq<char>) -> Option<Seq<char>>
    decreases lines.len(),
{
    if lines.len() == 0 {
        None
    } else if is_header_line(lines[0], prefix) {
        Some(trim(lines[0]))
    } else {
        first_header_line(lines.drop_first(), prefix)
    }
}

/// The first `From` line of `text`, trimmed and with its prefix; empty where there is
/// none.
pub open spec fn from_line_of(text: Seq<char>) -> Seq<char> {
    match first_header_line(lines(text), from_prefix()) {
        Some(line) => line,
        None => Seq::empty(),
    }
}

/// What follows the prefix on the first `Subject` line of `text`, trimmed; empty where
/// there is none.
pub open spec fn subject_of(text: Seq<char>) -> Seq<char> {
    match first_header_line(lines(text), subject_prefix()) {
        Some(line) => trim(line.skip(subject_prefix().len() as int)),
        None => Seq::empty(),
    }
}

/// The `From` line and the subject of the message text `raw`.
pub fn parse_from_and_subject(raw: &str) -> (r: (String, String))
    ensures
        r.0@ == from_line_of(raw@),
        r.1@ == subject_of(raw@),
        has_no_header_line(raw@, from_prefix()) ==> r.0@.len() == 0,
        has_no_header_line(raw@, subject_prefix()) ==> r.1@.len() == 0,
{
    let chars: Vec<char> = chars_of(raw);
    let s: &[char] = chars.as_slice();
    let from_mark: Vec<char> = vec!['f', 'r', 'o', 'm', ':'];
    let subject_mark: Vec<char> = vec!['s', 'u', 'b', 'j', 'e', 'c', 't', ':'];
    let mut from: Option<String> = None;
    let mut subject: Option<String> = None;
    let mut pos: usize = 0;
    let mut done: bool = false;
    assert(s@.skip(0) == s@);
    while !done
        invariant
            pos <= s.len(),
            s@ == raw@,
            from_mark@ == from_prefix(),
            subject_mark@ == subject_prefix(),
            match from {
                Some(line) => first_header_line(lines(s@), from_prefix()) == Some(line@),
                None => first_header_line(lines(s@), from_prefix()) == first_header_line(
                    if done { Seq::empty() } else { lines(s@.skip(pos as int)) },
                    from_prefix(),
                ),
            },
            match subject {
                Some(text) => first_header_line(lines(s@), subject_prefix()) is Some
                    && text@ == subject_of(s@),
                None => first_header_line(lines(s@), subject_prefix()) == first_header_line(
                    if done { Seq::empty() } else { lines(s@.skip(pos as int)) },
                    subject_prefix(),
                ),
            },
        decreases
            if done { 0int } else { s.len() - pos + 1 },
    {
        let end: usize = find_class(s, pos, CharClass::LineBreak);
        let line: &[char] = strip_slice(slice_subrange(s, pos, end), CharClass::Whitespace);
        proof {
            let here = s@.skip(pos as int);
            assert(here.take(end - pos) == s@.subrange(pos as int, end as int));
            if end < s.len() {
                let rest = lines(s@.skip(end as int + 1));
                assert(here.skip(end - pos + 1) == s@.skip(end as int + 1));
                assert((seq![here.take(end - pos)] + rest).drop_first() == rest);
            } else {
                assert(seq![here].drop_first() == Seq::<Seq<char>>::empty());
            }
        }
        if from.is_none() && has_prefix_ignoring_ascii_case(line, from_mark.as_slice()) {
            from = Some(string_of(line));
        }
        if subject.is_none() && has_prefix_ignoring_ascii_case(line, subject_mark.as_slice()) {
            let rest: &[char] = slice_subrange(line, subject_mark.len(), line.len());
            subject = Some(string_of(strip_slice(rest, CharClass::Whitespace)));
        }
        if (from.is_some() && subject.is_some()) || end == s.len() {
            done = true;
        } else {
            pos = end + 1;
        }
    }
    proof {
        lemma_absent_header_is_empty(raw@);
    }
    let from_line: String = match from {
        Some(line) => line,
        None => String::new(),
    };
    let subject_text: String = match subject {
        Some(text) => text,
        None => String::new(),
    };
    (from_line, subject_text)
}

/// The header lines of the raw message `raw`, read as UTF-8 with U+FFFD for what is
/// not. Where `raw` is valid UTF-8, they are the header lines of the text it encodes.
pub fn extract(raw: &[u8]) -> (r: HeaderPair)
    ensures
        r.from_line@ == from_line_of(utf8_lossy(raw@)),
        r.subject@ == subject_of(utf8_lossy(raw@)),
        valid_utf8(raw@) ==> r.from_line@ == from_line_of(decode_utf8(raw@)) && r.subject@
            == subject_of(decode_utf8(raw@)),
        has_no_header_line(utf8_lossy(raw@), from_prefix()) ==> r.from_line@.len() == 0,
        has_no_header_line(utf8_lossy(raw@), subject_prefix()) ==> r.subject@.len() == 0,
{
    let text: String = decode_lossy(raw);
    let (from_line, subject) = parse_from_and_subject(text.as_str());
    HeaderPair { from_line, subject }
}

/// `first_header_line` gives the earliest header line, and none only where no line is one.
pub proof fn lemma_first_header_line(lines: Seq<Seq<char>>, prefix: Seq<char>)
    ensures
        match first_header_line(lines, prefix) {
            Some(line) => exists|i: int|
                {
                    &&& 0 <= i < lines.len()
                    &&& is_header_line(lines[i], prefix)
                    &&& line == trim(lines[i])
                    &&& forall|j: int| 0 <= j < i ==> !is_header_line(#[trigger] lines[j], prefix)
                },
            None => forall|i: int| 0 <= i < lines.len() ==> !is_header_line(#[trigger] lines[i], prefix),
        },
    decreases lines.len(),
{
    if lines.len() > 0 && !is_header_line(lines[0], prefix) {
        let rest = lines.drop_first();
        lemma_first_header_line(rest, prefix);
        match first_header_line(rest, prefix) {
            Some(line) => {
                let i = choose|i: int|
                    {
                        &&& 0 <= i < rest.len()
                        &&& is_header_line(rest[i], prefix)
                        &&& line == trim(rest[i])
                        &&& forall|j: int| 0 <= j < i ==> !is_header_line(#[trigger] rest[j], prefix)
                    };
                assert forall|j: int| 0 <= j < i + 1 implies !is_header_line(
                    #[trigger] lines[j],
                    prefix,
                ) by {
                    if j > 0 {
                        assert(lines[j] == rest[j - 1]);
                    }
                }
            },
            None => {
                assert forall|i: int| 0 <= i < lines.len() implies !is_header_line(
                    #[trigger] lines[i],
                    prefix,
                ) by {
                    if i > 0 {
                        assert(lines[i] == rest[i - 1]);
                    }
                }
            },
        }
    }
}

/// A text without a `Subject` line has the empty subject, and a text without a `From`
/// line has the empty `From` line.
pub proof fn lemma_absent_header_is_empty(text: Seq<char>)
    ensures
        has_no_header_line(text, subject_prefix()) ==> subject_of(text) == Seq::<char>::empty(),
        has_no_header_line(text, from_prefix()) ==> from_line_of(text) == Seq::<char>::empty(),
{
    lemma_first_header_line(lines(text), subject_prefix());
    lemma_first_header_line(lines(text), from_prefix());
}

} // verus!
