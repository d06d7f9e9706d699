//! The grammar of the wire, over byte sequences, and the functions that read
//! one line of it.
//!
//! A request line is the verb, four bytes, and a path in UTF-8. A line ends
//! at the first carriage return; that byte and the byte behind it, whatever
//! it is, make the delimiter. A response is its body and the delimiter.

use crate::message::{Failure, FramingError, Request};
use crate::text::{utf8_failure_text, utf8_text};
use vstd::prelude::*;
use vstd::utf8::*;

verus! {

/// Carriage return: the byte that ends a line.
pub const CR: u8 = 0x0d;

/// Line feed: the second byte of the delimiter, as it is sent.
pub const LF: u8 = 0x0a;

/// The delimiter that is written behind every response.
pub open spec fn delimiter() -> Seq<u8> {
    seq![CR, LF]
}

/// The verb and the space behind it: `GET `.
pub open spec fn verb() -> Seq<u8> {
    seq![0x47u8, 0x45u8, 0x54u8, 0x20u8]
}

/// The line begins with the verb.
pub open spec fn has_verb(line: Seq<u8>) -> bool {
    verb().is_prefix_of(line)
}

/// What follows the verb in a line that has it.
pub open spec fn path_bytes(line: Seq<u8>) -> Seq<u8> {
    line.skip(verb().len() as int)
}

/// What a decode call reports.
pub enum Outcome {
    /// No whole frame is buffered.
    NoFrameYet,
    /// A frame was read, and its line is a request for this path.
    Request { uri: Seq<char> },
    /// A frame was read, and its line is no request.
    Failed { why: Failure },
}

/// What a line without its delimiter means. A request is the verb and a
/// path of at least one byte: a line without the verb is no request, and
/// neither is the verb alone. Then the encoding of the path is checked. The
/// path is taken as it stands.
pub open spec fn parse_line(line: Seq<u8>) -> Outcome {
    if !has_verb(line) || path_bytes(line).len() == 0 {
        Outcome::Failed { why: Failure::InvalidProtocol }
    } else if !valid_utf8(path_bytes(line)) {
        Outcome::Failed {
            why: Failure::InvalidUtf8 { reason: utf8_failure_text(path_bytes(line)) },
        }
    } else {
        Outcome::Request { uri: decode_utf8(path_bytes(line)) }
    }
}

/// The length of the first line of `buf`, if the whole frame is there: the
/// line, the carriage return and one byte more.
pub open spec fn frame_line_len(buf: Seq<u8>) -> Option<int> {
    match buf.index_of_first(CR) {
        Some(i) => if i + 2 <= buf.len() {
            Some(i)
        } else {
            None
        },
        None => None,
    }
}

/// One decode call on a buffer: what it reports and what it leaves.
pub struct Step {
    pub outcome: Outcome,
    pub rest: Seq<u8>,
}

/// The meaning of one decode call. Without a whole frame the buffer stays as
/// it is. With one, the line and the two bytes behind it leave the buffer,
/// also where the line is no request.
pub open spec fn step(buf: Seq<u8>) -> Step {
    match frame_line_len(buf) {
        Some(i) => Step {
            outcome: parse_line(buf.subrange(0, i)),
            rest: buf.subrange(i + 2, buf.len() as int),
        },
        None => Step { outcome: Outcome::NoFrameYet, rest: buf },
    }
}

/// What a response is on the wire: the bytes of its body, then the delimiter.
pub open spec fn response_frame(body: Seq<char>) -> Seq<u8> {
    encode_utf8(body) + delimiter()
}

/// A request for `uri` on the wire: the verb, the bytes of the path, a
/// carriage return and one more byte. A client sends a line feed there; the
/// grammar takes any byte.
pub open spec fn request_frame(uri: Seq<char>, last: u8) -> Seq<u8> {
    verb() + encode_utf8(uri) + seq![CR, last]
}

/// Where the first carriage return stands, if there is one.
pub fn find_line_end(bytes: &[u8]) -> (at: Option<usize>)
    ensures
        match at {
            Some(i) => bytes@.index_of_first(CR) == Some(i as int),
            None => bytes@.index_of_first(CR) is None,
        },
{
    let mut i: usize = 0;
    while i < bytes.len()
        invariant
            i <= bytes.len(),
            forall|j: int| 0 <= j < i ==> bytes@[j] != CR,
        decreases bytes.len() - i,
    {
        if bytes[i] == CR {
            proof {
                bytes@.index_of_first_ensures(CR);
            }
            return Some(i);
        }
        i += 1;
    }
    proof {
        bytes@.index_of_first_ensures(CR);
    }
    None
}

/// Whether a whole frame is buffered, and if so how long its line is.
pub fn find_frame(bytes: &[u8]) -> (at: Option<usize>)
    ensures
        match at {
            Some(i) => frame_line_len(bytes@) == Some(i as int),
            None => frame_line_len(bytes@) is None,
        },
{
    proof {
        bytes@.index_of_first_ensures(CR);
    }
    match find_line_end(bytes) {
        Some(i) => if bytes.len() - i >= 2 {
            Some(i)
        } else {
            None
        },
        None => None,
    }
}

/// Whether the line begins with the verb.
pub fn begins_with_verb(line: &[u8]) -> (yes: bool)
    ensures
        yes == has_verb(line@),
{
    let yes = line.len() >= 4 && line[0] == 0x47 && line[1] == 0x45 && line[2] == 0x54 && line[3]
        == 0x20;
    proof {
        if yes {
            assert(line@.subrange(0, 4) =~= verb());
        } else if line.len() >= 4 {
            let head = line@.subrange(0, 4);
            assert(head[0] == line@[0] && head[1] == line@[1] && head[2] == line@[2] && head[3]
                == line@[3]);
        }
    }
    yes
}

/// The request or the error that a path makes, once its bytes were read as
/// text: the text is the path as it stands, an empty text is no path, and a
/// failure to read the bytes is the error, with its reason.
pub fn request_from(path: Result<&str, String>) -> (r: Result<Request, FramingError>)
    ensures
        match path {
            Ok(text) => if text@.len() == 0 {
                r matches Err(e) && e@ == Failure::InvalidProtocol
            } else {
                r matches Ok(req) && req.uri@ == text@
            },
            Err(reason) => r matches Err(e) && e@ == (Failure::InvalidUtf8 { reason: reason@ }),
        },
{
    match path {
        Ok(text) => if text.is_empty() {
            Err(FramingError::InvalidProtocol)
        } else {
            Ok(Request { uri: text.to_owned() })
        },
        Err(reason) => Err(FramingError::InvalidUtf8 { reason }),
    }
}

/// What a decoded line is in terms of `parse_line`.
pub open spec fn outcome_of_line(r: Result<Request, FramingError>) -> Outcome {
    match r {
        Ok(req) => Outcome::Request { uri: req.uri@ },
        Err(e) => Outcome::Failed { why: e@ },
    }
}

/// Reads a line, without its delimiter, as a request. The path of a request
/// is never empty.
pub fn parse_request_line(line: &[u8]) -> (r: Result<Request, FramingError>)
    ensures
        outcome_of_line(r) == parse_line(line@),
        r matches Ok(req) ==> req.uri@.len() > 0,
{
    if !begins_with_verb(line) || line.len() == 4 {
        return Err(FramingError::InvalidProtocol);
    }
    let path = &line[4..line.len()];
    let r = request_from(utf8_text(path));
    proof {
        if r is Ok {
            encode_utf8_decode_utf8(r.unwrap().uri@);
        }
    }
    r
}

} // verus!
