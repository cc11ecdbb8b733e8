//! The words of a text: its runs of characters between whitespace.

use vstd::prelude::*;
use vstd::slice::slice_subrange;
use crate::text::classes::{
    find_class, is_whitespace, lemma_span, skip_class, skip_leading, span, CharClass,
};
use crate::text::search::find_char;

verus! {

/// The words of `s`: its maximal runs of characters other than whitespace, in order.
pub open spec fn words(s: Seq<char>) -> Seq<Seq<char>>
    decreases s.len(),
{
    if s.len() == 0 {
        Seq::empty()
    } else if is_whitespace(s[0]) {
        words(s.drop_first())
    } else {
        let n = span(s, CharClass::Whitespace);
        proof {
            lemma_span(s, CharClass::Whitespace);
        }
        seq![s.take(n as int)] + words(s.skip(n as int))
    }
}

/// The first of `items` that contains `c`.
pub open spec fn first_with(items: Seq<Seq<char>>, c: char) -> Option<Seq<char>>
    decreases items.len(),
{
    if items.len() == 0 {
        None
    } else if items[0].contains(c) {
        Some(items[0])
    } else {
        first_with(items.drop_first(), c)
    }
}

/// The first word of `s` that contains `c`.
pub fn first_word_with<'a>(s: &'a [char], c: char) -> (r: Option<&'a [char]>)
    ensures
        match r {
            Some(w) => first_with(words(s@), c) == Some(w@),
            None => first_with(words(s@), c) is None,
        },
{
    let mut pos: usize = 0;
    assert(s@.skip(0) == s@);
    loop
        invariant
            pos <= s.len(),
            first_with(words(s@), c) == first_with(words(s@.skip(pos as int)), c),
        decreases s.len() - pos,
    {
        let start: usize = skip_class(s, pos, CharClass::Whitespace);
        proof {
            lemma_words_skip_leading(s@.skip(pos as int));
        }
        if start == s.len() {
            return None;
        }
        let end: usize = find_class(s, start, CharClass::Whitespace);
        let word: &[char] = slice_subrange(s, start, end);
        proof {
            let t = s@.skip(start as int);
            let n = span(t, CharClass::Whitespace);
            assert(t.take(n as int) == word@);
            assert(t.skip(n as int) == s@.skip(end as int));
            let rest = words(s@.skip(end as int));
            assert((seq![word@] + rest).drop_first() == rest);
        }
        if find_char(word, c).is_some() {
            return Some(word);
        }
        pos = end;
    }
}

/// Leading whitespace holds no word.
pub proof fn lemma_words_skip_leading(s: Seq<char>)
    ensures
        words(skip_leading(s, CharClass::Whitespace)) == words(s),
    decreases s.len(),
{
    if s.len() > 0 && is_whitespace(s[0]) {
        lemma_words_skip_leading(s.drop_first());
    }
}

/// A character that is no whitespace stands in `s` exactly if it stands in a word of
/// `s`; the first word that holds it is then found.
pub proof fn lemma_first_with_words(s: Seq<char>, c: char)
    requires
        !is_whitespace(c),
    ensures
        first_with(words(s), c) is Some <==> s.contains(c),
        first_with(words(s), c) is Some ==> first_with(words(s), c)->0.contains(c),
    decreases s.len(),
{
    if s.len() == 0 {
    } else if is_whitespace(s[0]) {
        let rest = s.drop_first();
        lemma_first_with_words(rest, c);
        if s.contains(c) {
            let i = choose|i: int| 0 <= i < s.len() && s[i] == c;
            assert(rest[i - 1] == c);
        }
    } else {
        let n = span(s, CharClass::Whitespace) as int;
        lemma_span(s, CharClass::Whitespace);
        let word = s.take(n);
        let rest = s.skip(n);
        lemma_first_with_words(rest, c);
        assert((seq![word] + words(rest)).drop_first() == words(rest));
        if s.contains(c) {
            let i = choose|i: int| 0 <= i < s.len() && s[i] == c;
            if i < n {
                assert(word[i] == c);
            } else {
                assert(rest[i - n] == c);
            }
        }
    }
}

/// The first word of `s` that holds `c` is the part of `s` between two of its indices,
/// and holds no whitespace.
pub proof fn lemma_first_with_is_part(s: Seq<char>, c: char) -> (part: (int, int))
    requires
        first_with(words(s), c) is Some,
    ensures
        0 <= part.0 <= part.1 <= s.len(),
        first_with(words(s), c) == Some(s.subrange(part.0, part.1)),
        forall|i: int| part.0 <= i < part.1 ==> !is_whitespace(#[trigger] s[i]),
    decreases s.len(),
{
    if s.len() == 0 {
        (0, 0)
    } else if is_whitespace(s[0]) {
        let rest = s.drop_first();
        let inner = lemma_first_with_is_part(rest, c);
        assert forall|i: int| inner.0 + 1 <= i < inner.1 + 1 implies !is_whitespace(
            #[trigger] s[i],
        ) by {
            assert(s[i] == rest[i - 1]);
        }
        (inner.0 + 1, inner.1 + 1)
    } else {
        let n = span(s, CharClass::Whitespace) as int;
        lemma_span(s, CharClass::Whitespace);
        let word = s.take(n);
        let rest = s.skip(n);
        assert((seq![word] + words(rest)).drop_first() == words(rest));
        if word.contains(c) {
            (0, n)
        } else {
            let inner = lemma_first_with_is_part(rest, c);
            assert forall|i: int| inner.0 + n <= i < inner.1 + n implies !is_whitespace(
                #[trigger] s[i],
            ) by {
                assert(s[i] == rest[i - n]);
            }
            (inner.0 + n, inner.1 + n)
        }
    }
}

} // verus!
