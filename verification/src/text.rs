//! Reading bytes as text.

use vstd::prelude::*;
use vstd::utf8::*;

verus! {

/// What `std` says of bytes that are not UTF-8, as `Utf8Error` displays it:
/// where the valid part ends, and how long the offending sequence is.
pub uninterp spec fn utf8_failure_text(bytes: Seq<u8>) -> Seq<char>;

/// `std::str::from_utf8`, with the error it may return turned into its text
/// by `Utf8Error`'s `to_string`.
///
/// Not proved. The contract claims that the call succeeds on valid UTF-8 and
/// on nothing else, that the text it returns is made of the very bytes given,
/// and that the text of a failure depends on the bytes alone.
#[verifier::external_body]
pub(crate) fn utf8_text(bytes: &[u8]) -> (r: Result<&str, String>)
    ensures
        r is Ok <==> valid_utf8(bytes@),
        r matches Ok(text) ==> encode_utf8(text@) == bytes@,
        r matches Err(reason) ==> reason@ == utf8_failure_text(bytes@),
{
    match std::str::from_utf8(bytes) {
        Ok(text) => Ok(text),
        Err(e) => Err(e.to_string()),
    }
}

} // verus!
