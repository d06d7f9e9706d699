//! The codec: one request out of the receive buffer, one response into the
//! send buffer.

use crate::buffer::contents;
use crate::message::{FramingError, Request, Response};
use crate::wire::{
    find_frame, frame_line_len, parse_request_line, response_frame, step, Outcome, Step, CR, LF,
};
use bytes::BytesMut;
use vstd::prelude::*;

verus! {

/// The codec of the protocol. It keeps nothing between calls: what a call
/// does depends on the buffer alone.
pub struct HttpCodec;

/// What the result of a decode call reports.
pub open spec fn outcome_of(r: Result<Option<Request>, FramingError>) -> Outcome {
    match r {
        Ok(None) => Outcome::NoFrameYet,
        Ok(Some(req)) => Outcome::Request { uri: req.uri@ },
        Err(e) => Outcome::Failed { why: e@ },
    }
}

/// Takes the first frame out of the buffer and returns its line: the bytes
/// before the carriage return. The carriage return and the byte behind it are
/// dropped.
fn take_line(buf: &mut BytesMut, len: usize) -> (line: BytesMut)
    requires
        len + 2 <= contents(*old(buf)).len(),
    ensures
        contents(line) == contents(*old(buf)).subrange(0, len as int),
        contents(*final(buf)) == contents(*old(buf)).subrange(
            len + 2,
            contents(*old(buf)).len() as int,
        ),
{
    let line = buf.split_to(len);
    let _ = buf.split_to(2);
    line
}

impl HttpCodec {
    /// Reads the next request from the buffer.
    ///
    /// `Ok(None)` means that no whole frame is buffered yet, and the buffer is
    /// left as it was; a carriage return that is the last byte buffered
    /// still waits for the byte behind it. Otherwise the first frame leaves
    /// the buffer, and its line is returned as a request, or as the error
    /// that says why it is none. The second byte of the delimiter is dropped
    /// unseen.
    ///
    /// The path of a request is never empty: a line that is the verb alone
    /// fails as a line without the verb does, with `InvalidProtocol`.
    pub fn decode(&mut self, buf: &mut BytesMut) -> (r: Result<Option<Request>, FramingError>)
        ensures
            step(contents(*old(buf))) == (Step {
                outcome: outcome_of(r),
                rest: contents(*final(buf)),
            }),
            (r matches Ok(None)) <==> frame_line_len(contents(*old(buf))) is None,
            (r matches Ok(None)) ==> contents(*final(buf)) == contents(*old(buf)),
            r matches Ok(Some(req)) ==> req.uri@.len() > 0,
    {
        let found = find_frame(&buf);
        match found {
            Some(len) => {
                let line = take_line(buf, len);
                match parse_request_line(&line) {
                    Ok(req) => Ok(Some(req)),
                    Err(e) => Err(e),
                }
            },
            None => Ok(None),
        }
    }

    /// Writes a response behind what the buffer holds: the bytes of the body
    /// as they are, then the delimiter, once. It never fails. The buffer
    /// must be able to take the frame: no buffer is longer than `isize::MAX`
    /// bytes.
    pub fn encode(&mut self, res: Response, buf: &mut BytesMut) -> (r: Result<(), FramingError>)
        requires
            contents(*old(buf)).len() + response_frame(res@).len() <= isize::MAX,
        ensures
            r is Ok,
            contents(*final(buf)) == contents(*old(buf)) + response_frame(res@),
    {
        buf.extend_from_slice(res.body().as_bytes());
        let delimiter: [u8; 2] = [CR, LF];
        buf.extend_from_slice(&delimiter);
        Ok(())
    }
}

} // verus!
