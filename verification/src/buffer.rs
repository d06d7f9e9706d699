//! The receive and send buffers: `bytes::BytesMut`, as far as the codec uses it.
//!
//! Nothing here is proved. Each item states what the `bytes` crate documents
//! and its source shows; the rest of the crate is verified against these
//! statements.

use bytes::BytesMut;
use vstd::prelude::*;

verus! {

/// `bytes::BytesMut`, taken as an opaque type: all that is said of a buffer
/// is said of its `contents`.
#[verifier::external_type_specification]
#[verifier::external_body]
pub struct ExBytesMut(bytes::BytesMut);

/// The bytes that a buffer holds, first to last.
pub uninterp spec fn contents(buf: BytesMut) -> Seq<u8>;

/// `BytesMut`'s `Deref`: the slice it hands out is the buffer's bytes, all of
/// them and in order.
pub assume_specification<'a>[ <BytesMut as core::ops::Deref>::deref ](buf: &'a BytesMut) -> (bytes:
    &'a [u8])
    ensures
        bytes@ == contents(*buf),
;

/// `BytesMut::split_to`: the first `at` bytes leave the buffer and are
/// returned; the buffer keeps the bytes from `at` on. It panics when `at`
/// exceeds the length, which `requires` rules out.
pub assume_specification[ BytesMut::split_to ](buf: &mut BytesMut, at: usize) -> (head: BytesMut)
    requires
        at <= contents(*old(buf)).len(),
    ensures
        contents(head) == contents(*old(buf)).subrange(0, at as int),
        contents(*final(buf)) == contents(*old(buf)).subrange(
            at as int,
            contents(*old(buf)).len() as int,
        ),
;

/// `BytesMut::extend_from_slice`: the buffer grows as needed and the given
/// bytes are appended behind what it held. Growing panics when the new
/// length is more than an allocation can have, which `requires` rules out.
pub assume_specification[ BytesMut::extend_from_slice ](buf: &mut BytesMut, extend: &[u8])
    requires
        contents(*old(buf)).len() + extend@.len() <= isize::MAX,
    ensures
        contents(*final(buf)) == contents(*old(buf)) + extend@,
;

} // verus!
