//! Classes of characters, and what is left of a text when the characters of a class
//! are taken off its ends.

use vstd::prelude::*;
use vstd::slice::slice_subrange;
use crate::text::chars::{chars_of, string_of};

verus! {

/// A set of characters that text is trimmed of or split at.
#[derive(Clone, Copy, Debug, PartialEq, Eq)]
pub enum CharClass {
    /// The characters with the Unicode property `White_Space`.
    Whitespace,
    /// The punctuation that may wrap an address: `, ; " ' ( ) < >`.
    Wrapping,
    /// The characters that end a line: the line feed and the carriage return.
    LineBreak,
}

/// Whether `c` has the Unicode property `White_Space`.
pub open spec fn is_whitespace(c: char) -> bool {
    ||| '\u{9}' <= c <= '\u{d}'
    ||| c == ' '
    ||| c == '\u{85}'
    ||| c == '\u{a0}'
    ||| c == '\u{1680}'
    ||| '\u{2000}' <= c <= '\u{200a}'
    ||| c == '\u{2028}'
    ||| c == '\u{2029}'
    ||| c == '\u{202f}'
    ||| c == '\u{205f}'
    ||| c == '\u{3000}'
}

/// Whether `c` is one of `, ; " ' ( ) < >`.
pub open spec fn is_wrapping(c: char) -> bool {
    c == ',' || c == ';' || c == '"' || c == '\'' || c == '(' || c == ')' || c == '<' || c == '>'
}

impl CharClass {
    /// Whether `c` belongs to the class.
    pub open spec fn has(self, c: char) -> bool {
        match self {
            CharClass::Whitespace => is_whitespace(c),
            CharClass::Wrapping => is_wrapping(c),
            CharClass::LineBreak => c == '\n' || c == '\r',
        }
    }

    /// Whether `c` belongs to the class.
    pub fn contains(self, c: char) -> (r: bool)
        ensures
            r == self.has(c),
    {
        match self {
            CharClass::Whitespace => {
                ('\u{9}' <= c && c <= '\u{d}') || c == ' ' || c == '\u{85}' || c == '\u{a0}'
                    || c == '\u{1680}' || ('\u{2000}' <= c && c <= '\u{200a}') || c == '\u{2028}'
                    || c == '\u{2029}' || c == '\u{202f}' || c == '\u{205f}' || c == '\u{3000}'
            },
            CharClass::Wrapping => {
                c == ',' || c == ';' || c == '"' || c == '\'' || c == '(' || c == ')' || c == '<'
                    || c == '>'
            },
            CharClass::LineBreak => c == '\n' || c == '\r',
        }
    }
}

/// `s` without its leading characters of `class`.
pub open spec fn skip_leading(s: Seq<char>, class: CharClass) -> Seq<char>
    decreases s.len(),
{
    if s.len() > 0 && class.has(s[0]) {
        skip_leading(s.drop_first(), class)
    } else {
        s
    }
}

/// `s` without its trailing characters of `class`.
pub open spec fn skip_trailing(s: Seq<char>, class: CharClass) -> Seq<char>
    decreases s.len(),
{
    if s.len() > 0 && class.has(s.last()) {
        skip_trailing(s.drop_last(), class)
    } else {
        s
    }
}

/// `s` without its leading and trailing characters of `class`.
pub open spec fn strip(s: Seq<char>, class: CharClass) -> Seq<char> {
    skip_trailing(skip_leading(s, class), class)
}

/// `s` without leading and trailing whitespace.
pub open spec fn trim(s: Seq<char>) -> Seq<char> {
    strip(s, CharClass::Whitespace)
}

/// How many characters stand in `s` before its first character of `class`:
/// all of them if there is none.
pub open spec fn span(s: Seq<char>, class: CharClass) -> nat
    decreases s.len(),
{
    if s.len() > 0 && !class.has(s[0]) {
        1 + span(s.drop_first(), class)
    } else {
        0
    }
}

/// The index at which the leading characters of `class` in `s[from..]` end.
pub(crate) fn skip_class(s: &[char], from: usize, class: CharClass) -> (at: usize)
    requires
        from <= s.len(),
    ensures
        from <= at <= s.len(),
        s@.skip(at as int) == skip_leading(s@.skip(from as int), class),
        at < s.len() ==> !class.has(s@[at as int]),
{
    let mut at: usize = from;
    while at < s.len() && class.contains(s[at])
        invariant
            from <= at <= s.len(),
            skip_leading(s@.skip(at as int), class) == skip_leading(s@.skip(from as int), class),
        decreases s.len() - at,
    {
        assert(s@.skip(at as int).drop_first() == s@.skip(at as int + 1));
        at += 1;
    }
    at
}

/// The index of the first character of `class` in `s[from..]`, or the length of `s`.
pub(crate) fn find_class(s: &[char], from: usize, class: CharClass) -> (at: usize)
    requires
        from <= s.len(),
    ensures
        from <= at <= s.len(),
        at - from == span(s@.skip(from as int), class),
{
    let mut at: usize = from;
    while at < s.len() && !class.contains(s[at])
        invariant
            from <= at <= s.len(),
            span(s@.skip(from as int), class) == (at - from) + span(s@.skip(at as int), class),
        decreases s.len() - at,
    {
        assert(s@.skip(at as int).drop_first() == s@.skip(at as int + 1));
        at += 1;
    }
    at
}

/// The part of `s` left when its leading and trailing characters of `class` are taken off.
pub fn strip_slice<'a>(s: &'a [char], class: CharClass) -> (r: &'a [char])
    ensures
        r@ == strip(s@, class),
{
    let lo: usize = skip_class(s, 0, class);
    assert(s@.skip(0) == s@);
    let mut hi: usize = s.len();
    while hi > lo && class.contains(s[hi - 1])
        invariant
            lo <= hi <= s.len(),
            skip_trailing(s@.subrange(lo as int, hi as int), class) == strip(s@, class),
        decreases hi - lo,
    {
        assert(s@.subrange(lo as int, hi as int).drop_last() == s@.subrange(
            lo as int,
            hi as int - 1,
        ));
        hi -= 1;
    }
    slice_subrange(s, lo, hi)
}

/// `s` without leading and trailing whitespace.
pub fn trim_str(s: &str) -> (r: String)
    ensures
        r@ == trim(s@),
{
    let chars: Vec<char> = chars_of(s);
    string_of(strip_slice(chars.as_slice(), CharClass::Whitespace))
}

/// `span(s, class)` is the index of the first character of `class` in `s`, or the
/// length of `s` where there is none.
pub proof fn lemma_span(s: Seq<char>, class: CharClass)
    ensures
        span(s, class) <= s.len(),
        forall|i: int| 0 <= i < span(s, class) ==> !class.has(#[trigger] s[i]),
        span(s, class) < s.len() ==> class.has(s[span(s, class) as int]),
    decreases s.len(),
{
    if s.len() > 0 && !class.has(s[0]) {
        let rest = s.drop_first();
        lemma_span(rest, class);
        assert forall|i: int| 0 <= i < span(s, class) implies !class.has(#[trigger] s[i]) by {
            if i > 0 {
                assert(s[i] == rest[i - 1]);
            }
        }
    }
}

/// `skip_leading` takes off the longest prefix made of characters of `class`; `k` is
/// how long that prefix is.
pub proof fn lemma_skip_leading(s: Seq<char>, class: CharClass) -> (k: int)
    ensures
        0 <= k <= s.len(),
        skip_leading(s, class) == s.skip(k),
        forall|i: int| 0 <= i < k ==> class.has(#[trigger] s[i]),
        k < s.len() ==> !class.has(s[k]),
    decreases s.len(),
{
    if s.len() > 0 && class.has(s[0]) {
        let rest = s.drop_first();
        let k = lemma_skip_leading(rest, class);
        assert forall|i: int| 0 <= i < k + 1 implies class.has(#[trigger] s[i]) by {
            if i > 0 {
                assert(s[i] == rest[i - 1]);
            }
        }
        k + 1
    } else {
        0
    }
}

/// `skip_trailing` takes off the longest suffix made of characters of `class`; `k` is
/// how long the rest is.
pub proof fn lemma_skip_trailing(s: Seq<char>, class: CharClass) -> (k: int)
    ensures
        0 <= k <= s.len(),
        skip_trailing(s, class) == s.take(k),
        forall|i: int| k <= i < s.len() ==> class.has(#[trigger] s[i]),
        k > 0 ==> !class.has(s[k - 1]),
    decreases s.len(),
{
    if s.len() > 0 && class.has(s.last()) {
        let rest = s.drop_last();
        let k = lemma_skip_trailing(rest, class);
        assert forall|i: int| k <= i < s.len() implies class.has(#[trigger] s[i]) by {
            if i < s.len() - 1 {
                assert(s[i] == rest[i]);
            }
        }
        k
    } else {
        s.len() as int
    }
}

/// `strip` leaves every character that is not of `class`: a text that holds one is not
/// stripped to the empty text.
pub proof fn lemma_strip_keeps(s: Seq<char>, class: CharClass, i: int)
    requires
        0 <= i < s.len(),
        !class.has(s[i]),
    ensures
        strip(s, class).len() > 0,
{
    let k = lemma_skip_leading(s, class);
    let rest = s.skip(k);
    let end = lemma_skip_trailing(rest, class);
    if k > i {
        assert(class.has(s[i]));
    }
    if end <= i - k {
        assert(class.has(rest[i - k]));
    }
}

/// What `strip` leaves is the part of `s` between two of its indices, and neither
/// begins nor ends with a character of `class`.
pub proof fn lemma_strip_is_part(s: Seq<char>, class: CharClass) -> (part: (int, int))
    ensures
        0 <= part.0 <= part.1 <= s.len(),
        strip(s, class) == s.subrange(part.0, part.1),
        part.0 < part.1 ==> !class.has(s[part.0]) && !class.has(s[part.1 - 1]),
{
    let k = lemma_skip_leading(s, class);
    let rest = s.skip(k);
    let end = lemma_skip_trailing(rest, class);
    (k, k + end)
}

} // verus!
