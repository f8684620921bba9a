//! Lossy decoding of a payload into text.

use vstd::prelude::*;
use vstd::utf8::*;

verus! {

/// The text that lossy UTF-8 decoding makes of `bytes`: the characters that
/// `bytes` encode, with U+FFFD in place of each part that is no valid UTF-8.
pub uninterp spec fn lossy_text(bytes: Seq<u8>) -> Seq<char>;

/// Decodes `bytes` as UTF-8 without ever failing.
///
/// Trusted: the body calls `String::from_utf8_lossy` of the standard library
/// and takes the text out of the `Cow` it returns. The contract claims that
/// the text depends on the bytes alone, and that bytes which are valid UTF-8
/// decode to the very characters they encode, as the function's
/// documentation says.
#[verifier::external_body]
pub(crate) fn decode_lossy(bytes: &[u8]) -> (text: String)
    ensures
        text@ == lossy_text(bytes@),
        valid_utf8(bytes@) ==> text@ == decode_utf8(bytes@),
{
    String::from_utf8_lossy(bytes).into_owned()
}

} // verus!
