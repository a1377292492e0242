//! Text operations relied on from outside the verified code: lossy UTF-8
//! decoding and terminal display width, plus two standard string editing
//! calls that vstd leaves unspecified.

use vstd::prelude::*;

verus! {

/// The text that lossy UTF-8 decoding yields for a given byte sequence.
pub uninterp spec fn utf8_lossy(bytes: Seq<u8>) -> Seq<char>;

/// Relies on String::from_utf8_lossy: the result is a function of the bytes
/// alone, invalid sequences become visible replacement characters rather
/// than failures, a valid ASCII stream decodes to exactly its own
/// characters, and the result is empty exactly for empty input.
#[verifier::external_body]
pub fn decode_utf8_lossy(bytes: &[u8]) -> (r: String)
    ensures
        r@ == utf8_lossy(bytes@),
        r@.len() == 0 <==> bytes@.len() == 0,
        (forall|i: int| 0 <= i < bytes@.len() ==> bytes@[i] < 128) ==> r@ == bytes@.map_values(
            |b: u8| b as char,
        ),
{
    String::from_utf8_lossy(bytes).into_owned()
}

/// The number of terminal columns a text occupies.
pub uninterp spec fn display_width(s: Seq<char>) -> usize;

/// Relies on unicode_width's UnicodeWidthStr::width: the column width of a
/// text depends on its characters alone, and empty text occupies no columns.
#[verifier::external_body]
pub fn text_display_width(s: &str) -> (r: usize)
    ensures
        r == display_width(s@),
        s@.len() == 0 ==> r == 0,
{
    unicode_width::UnicodeWidthStr::width(s)
}

/// Relies on String::push: appends one character at the end.
pub assume_specification[ String::push ](s: &mut String, ch: char)
    ensures
        final(s)@ == old(s)@.push(ch),
;

/// Relies on String::pop: removes and returns the last character, and on an
/// empty string does nothing.
pub assume_specification[ String::pop ](s: &mut String) -> (r: Option<char>)
    ensures
        old(s)@.len() > 0 ==> r == Some(old(s)@.last()) && final(s)@ == old(s)@.drop_last(),
        old(s)@.len() == 0 ==> r == None::<char> && final(s)@ == old(s)@,
;

} // verus!
