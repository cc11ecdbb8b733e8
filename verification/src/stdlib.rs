//! The standard-library calls whose behaviour is assumed rather than proved.

use vstd::prelude::*;
use vstd::utf8::{decode_utf8, valid_utf8};

verus! {

/// What `char::to_lowercase` yields for `c`: its lower-case mapping in the
/// Unicode character database.
pub uninterp spec fn unicode_lowercase(c: char) -> Seq<char>;

/// Calls `char::to_lowercase` and collects what the iterator yields.
///
/// Assumed: the iterator depends on `c` alone, so its items are
/// `unicode_lowercase(c)`, and, as std documents, it yields one or more characters.
/// Nothing is claimed about which characters they are.
#[verifier::external_body]
pub(crate) fn lowercase_mapping(c: char) -> (r: Vec<char>)
    ensures
        r@ == unicode_lowercase(c),
        r@.len() >= 1,
{
    c.to_lowercase().collect()
}

/// Calls `String::push`.
///
/// Assumed: the string afterwards is the string before with `c` appended.
#[verifier::external_body]
pub(crate) fn push_char(s: &mut String, c: char)
    ensures
        final(s)@ == old(s)@.push(c),
{
    s.push(c);
}

/// What `String::from_utf8_lossy` makes of `bytes`: the text they encode in UTF-8, with
/// U+FFFD in place of each part that is not valid UTF-8.
pub uninterp spec fn utf8_lossy(bytes: Seq<u8>) -> Seq<char>;

/// Calls `String::from_utf8_lossy` and takes ownership of the text it gives.
///
/// Assumed: the text depends on `bytes` alone, so it is `utf8_lossy(bytes@)`, and, as
/// std documents, bytes that are valid UTF-8 give the text that they encode. Nothing
/// is claimed about the text that other bytes give.
#[verifier::external_body]
pub(crate) fn decode_lossy(bytes: &[u8]) -> (r: String)
    ensures
        r@ == utf8_lossy(bytes@),
        valid_utf8(bytes@) ==> r@ == decode_utf8(bytes@),
{
    String::from_utf8_lossy(bytes).into_owned()
}

} // verus!
