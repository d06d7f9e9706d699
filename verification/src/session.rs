//! A connection as a sequence of reads, and the laws of the framing.
//!
//! The transport appends each read to the receive buffer and decodes until
//! no whole frame is left or a line fails. `Session` keeps what that has
//! yielded so far. Every law here is stated over `step`, the meaning that
//! the codec gives to one decode call.

use crate::message::Failure;
use crate::wire::{
    frame_line_len, has_verb, parse_line, path_bytes, request_frame, response_frame, step, verb,
    Outcome, Step, CR, LF,
};
use vstd::prelude::*;
use vstd::utf8::*;

verus! {

/// What a connection has come to: the bytes still buffered, the paths of
/// the requests read so far, in order, and the failure that ended it, if one
/// did. A failed connection is closed and its buffer released.
pub struct Session {
    pub pending: Seq<u8>,
    pub requests: Seq<Seq<char>>,
    pub failure: Option<Failure>,
}

/// A connection on which nothing has arrived.
pub open spec fn opened() -> Session {
    Session { pending: Seq::empty(), requests: Seq::empty(), failure: None }
}

/// Decodes until no whole frame is buffered or a line fails.
pub open spec fn drain(s: Session) -> Session
    decreases s.pending.len(),
{
    if s.failure is Some {
        s
    } else {
        let next = step(s.pending);
        match next.outcome {
            Outcome::NoFrameYet => s,
            Outcome::Request { uri } => {
                proof {
                    s.pending.index_of_first_ensures(CR);
                }
                drain(
                    Session {
                        pending: next.rest,
                        requests: s.requests.push(uri),
                        failure: None,
                    },
                )
            },
            Outcome::Failed { why } => Session {
                pending: Seq::empty(),
                requests: s.requests,
                failure: Some(why),
            },
        }
    }
}

/// One read: the bytes arrive behind what is buffered, and all that can be
/// decoded is. A failed connection takes no more.
pub open spec fn feed(s: Session, read: Seq<u8>) -> Session {
    if s.failure is Some {
        s
    } else {
        drain(Session { pending: s.pending + read, requests: s.requests, failure: None })
    }
}

/// A sequence of reads, one after the other.
pub open spec fn feed_each(s: Session, reads: Seq<Seq<u8>>) -> Session
    decreases reads.len(),
{
    if reads.len() == 0 {
        s
    } else {
        feed_each(feed(s, reads.first()), reads.drop_first())
    }
}

/// The stream cut into reads of one byte each.
pub open spec fn bytewise(stream: Seq<u8>) -> Seq<Seq<u8>> {
    Seq::new(stream.len(), |i: int| seq![stream[i]])
}

/// A buffer without a carriage return holds no frame: decoding reports that
/// and leaves every byte where it is. The empty buffer is such a buffer.
pub proof fn lemma_no_delimiter_no_frame(buf: Seq<u8>)
    requires
        forall|i: int| 0 <= i < buf.len() ==> buf[i] != CR,
    ensures
        step(buf) == (Step { outcome: Outcome::NoFrameYet, rest: buf }),
{
    buf.index_of_first_ensures(CR);
}

/// Decoding finds no frame exactly where no carriage return stands before
/// the last byte: a carriage return at the very end still waits for the byte
/// behind it.
pub proof fn lemma_when_no_frame(buf: Seq<u8>)
    ensures
        step(buf).outcome is NoFrameYet <==> forall|i: int|
            0 <= i < buf.len() - 1 ==> buf[i] != CR,
{
    buf.index_of_first_ensures(CR);
    if let Some(i) = buf.index_of_first(CR) {
        if i + 2 <= buf.len() {
            assert(buf[i] == CR);
        }
    }
}

/// Where decoding found no frame, decoding again finds none: the call is a
/// no-op however often it is made.
pub proof fn lemma_no_frame_is_stable(buf: Seq<u8>)
    requires
        step(buf).outcome is NoFrameYet,
    ensures
        step(buf).rest == buf,
        step(step(buf).rest) == step(buf),
{
}

/// A frame that is buffered whole is decoded the same whatever arrives
/// behind it, and what arrives behind it stays in the buffer.
pub proof fn lemma_frame_ignores_later_bytes(buf: Seq<u8>, more: Seq<u8>)
    requires
        frame_line_len(buf) is Some,
    ensures
        frame_line_len(buf + more) == frame_line_len(buf),
        step(buf + more).outcome == step(buf).outcome,
        step(buf + more).rest == step(buf).rest + more,
{
    let all = buf + more;
    buf.index_of_first_ensures(CR);
    all.index_of_first_ensures(CR);
    let i = buf.index_of_first(CR).unwrap();
    assert(all[i] == buf[i]);
    let k = all.index_of_first(CR).unwrap();
    if k < i {
        assert(all[k] == buf[k]);
    }
    assert(k == i);
    assert(all.subrange(0, i) =~= buf.subrange(0, i));
    assert(all.subrange(i + 2, all.len() as int) =~= buf.subrange(i + 2, buf.len() as int)
        + more);
}

/// A decoded frame takes its line and both delimiter bytes out of the
/// buffer, whether the line was a request or not.
pub proof fn lemma_frame_is_consumed(buf: Seq<u8>)
    requires
        frame_line_len(buf) is Some,
    ensures
        0 <= frame_line_len(buf).unwrap(),
        step(buf).rest.len() + frame_line_len(buf).unwrap() + 2 == buf.len(),
        step(buf).rest == buf.skip(frame_line_len(buf).unwrap() + 2),
        !(step(buf).outcome is NoFrameYet),
{
    buf.index_of_first_ensures(CR);
}

/// The path of a request is what stands behind the verb, byte for byte:
/// nothing is trimmed, unescaped or made uniform.
pub proof fn lemma_path_is_kept(line: Seq<u8>)
    ensures
        parse_line(line) matches Outcome::Request { uri } ==> verb() + encode_utf8(uri) == line,
        !(parse_line(line) is NoFrameYet),
{
    if has_verb(line) && valid_utf8(path_bytes(line)) {
        decode_utf8_encode_utf8(path_bytes(line));
        assert(verb() + path_bytes(line) =~= line);
    }
}

/// No line is a request for an empty path: the verb alone fails as a line
/// without the verb does.
pub proof fn lemma_request_has_a_path(line: Seq<u8>)
    ensures
        parse_line(line) matches Outcome::Request { uri } ==> uri.len() > 0,
        has_verb(line) && path_bytes(line).len() == 0 ==> parse_line(line) == (Outcome::Failed {
            why: Failure::InvalidProtocol,
        }),
{
    if has_verb(line) && valid_utf8(path_bytes(line)) && path_bytes(line).len() > 0 {
        decode_utf8_encode_utf8(path_bytes(line));
    }
}

/// A request on the wire is read back as it was sent: for every path that
/// is not empty and holds no carriage return, decoding its frame yields that
/// path and leaves what stood behind the frame. The byte behind the carriage
/// return is not looked at.
pub proof fn lemma_request_is_read_back(uri: Seq<char>, last: u8, more: Seq<u8>)
    requires
        uri.len() > 0,
        !encode_utf8(uri).contains(CR),
    ensures
        step(request_frame(uri, last) + more) == (Step {
            outcome: Outcome::Request { uri },
            rest: more,
        }),
{
    let path = encode_utf8(uri);
    let n = path.len() as int;
    let line = verb() + path;
    let buf = request_frame(uri, last) + more;
    assert(buf[n + 4] == CR);
    buf.index_of_first_ensures(CR);
    let k = buf.index_of_first(CR).unwrap();
    if k < n + 4 {
        if k >= 4 {
            assert(buf[k] == path[k - 4]);
            assert(path.contains(CR));
        } else {
            assert(buf[k] == verb()[k]);
        }
    }
    assert(k == n + 4);
    assert(buf.subrange(0, k) =~= line);
    assert(buf.subrange(k + 2, buf.len() as int) =~= more);
    assert(line.subrange(0, 4) =~= verb());
    assert(path_bytes(line) =~= path);
    encode_utf8_valid_utf8(uri);
    encode_utf8_decode_utf8(uri);
    encode_utf8_first_scalar(uri);
}

proof fn lemma_drain_then_more(s: Session, more: Seq<u8>)
    requires
        s.failure is None,
    ensures
        feed(drain(s), more) == drain(
            Session { pending: s.pending + more, requests: s.requests, failure: None },
        ),
    decreases s.pending.len(),
{
    let grown = Session { pending: s.pending + more, requests: s.requests, failure: None };
    let next = step(s.pending);
    match next.outcome {
        Outcome::NoFrameYet => {},
        Outcome::Request { uri } => {
            lemma_frame_ignores_later_bytes(s.pending, more);
            lemma_frame_is_consumed(s.pending);
            let shorter = Session {
                pending: next.rest,
                requests: s.requests.push(uri),
                failure: None,
            };
            lemma_drain_then_more(shorter, more);
            assert(drain(s) == drain(shorter));
            assert(drain(grown) == drain(
                Session {
                    pending: next.rest + more,
                    requests: s.requests.push(uri),
                    failure: None,
                },
            ));
        },
        Outcome::Failed { why } => {
            lemma_frame_ignores_later_bytes(s.pending, more);
        },
    }
}

/// Two reads in a row come to what one read of both would have come to.
pub proof fn lemma_reads_merge(s: Session, first: Seq<u8>, second: Seq<u8>)
    ensures
        feed(feed(s, first), second) == feed(s, first + second),
{
    if s.failure is None {
        let t = Session { pending: s.pending + first, requests: s.requests, failure: None };
        lemma_drain_then_more(t, second);
        assert((s.pending + first) + second =~= s.pending + (first + second));
    }
}

/// A session is settled when nothing more can be decoded from its buffer.
pub open spec fn settled(s: Session) -> bool {
    feed(s, Seq::empty()) == s
}

/// After a read the session is settled.
pub proof fn lemma_feed_settles(s: Session, read: Seq<u8>)
    ensures
        settled(feed(s, read)),
{
    lemma_reads_merge(s, read, Seq::empty());
    assert(read + Seq::<u8>::empty() =~= read);
}

/// On a settled session, reads one after the other come to what a single
/// read of all their bytes comes to.
pub proof fn lemma_reads_merge_all(s: Session, reads: Seq<Seq<u8>>)
    requires
        settled(s),
    ensures
        feed_each(s, reads) == feed(s, reads.flatten()),
    decreases reads.len(),
{
    if reads.len() > 0 {
        let after = feed(s, reads.first());
        lemma_feed_settles(s, reads.first());
        lemma_reads_merge_all(after, reads.drop_first());
        lemma_reads_merge(s, reads.first(), reads.drop_first().flatten());
    }
}

/// The requests that a connection yields, the failure that ends it and the
/// bytes left in its buffer depend on the bytes that arrived, not on how the
/// transport cut them into reads.
pub proof fn lemma_reads_do_not_matter(reads: Seq<Seq<u8>>)
    ensures
        feed_each(opened(), reads) == feed(opened(), reads.flatten()),
{
    lemma_no_delimiter_no_frame(Seq::empty());
    assert(Seq::<u8>::empty() + Seq::<u8>::empty() =~= Seq::<u8>::empty());
    lemma_reads_merge_all(opened(), reads);
}

/// Two ways of cutting the same bytes into reads yield the same.
pub proof fn lemma_same_bytes_same_session(one: Seq<Seq<u8>>, other: Seq<Seq<u8>>)
    requires
        one.flatten() == other.flatten(),
    ensures
        feed_each(opened(), one) == feed_each(opened(), other),
{
    lemma_reads_do_not_matter(one);
    lemma_reads_do_not_matter(other);
}

proof fn lemma_bytewise_flatten(stream: Seq<u8>)
    ensures
        bytewise(stream).flatten() == stream,
    decreases stream.len(),
{
    if stream.len() > 0 {
        let tail = stream.drop_first();
        lemma_bytewise_flatten(tail);
        assert(bytewise(stream).drop_first() =~= bytewise(tail));
        assert(bytewise(stream).first() + tail =~= stream);
    }
}

/// Fed one byte at a time, a stream yields what it yields when it arrives
/// all at once.
pub proof fn lemma_byte_by_byte(stream: Seq<u8>)
    ensures
        feed_each(opened(), bytewise(stream)) == feed(opened(), stream),
{
    lemma_bytewise_flatten(stream);
    lemma_reads_do_not_matter(bytewise(stream));
}

/// Encoding puts nothing before the body, whatever the body is: a response
/// on the wire begins with the bytes of its body, and so it begins with the
/// verb only if the body itself does.
pub proof fn lemma_encode_adds_no_verb(body: Seq<char>)
    ensures
        response_frame(body).take(encode_utf8(body).len() as int) == encode_utf8(body),
        response_frame(body).skip(encode_utf8(body).len() as int) == seq![CR, LF],
        has_verb(response_frame(body)) <==> has_verb(encode_utf8(body)),
{
    let bytes = encode_utf8(body);
    let frame = response_frame(body);
    let n = bytes.len() as int;
    assert(frame.take(n) =~= bytes);
    assert(frame.skip(n) =~= seq![CR, LF]);
    if n >= 4 {
        assert(frame.subrange(0, 4) =~= bytes.subrange(0, 4));
    } else if has_verb(frame) {
        assert(frame.subrange(0, 4)[n] == frame[n]);
        assert(frame[n] == CR);
    }
}

/// Read as a request line, a response on the wire is never a request for
/// its own body: either the verb is missing, or the path is the body without
/// the verb.
pub proof fn lemma_response_is_not_its_request(body: Seq<char>)
    requires
        !encode_utf8(body).contains(CR),
        !encode_utf8(body).contains(LF),
    ensures
        step(response_frame(body)) == (Step {
            outcome: parse_line(encode_utf8(body)),
            rest: Seq::empty(),
        }),
        step(response_frame(body)).outcome != (Outcome::Request { uri: body }),
{
    let bytes = encode_utf8(body);
    let frame = response_frame(body);
    let n = bytes.len() as int;
    assert(frame[n] == CR);
    assert(frame.len() == n + 2);
    frame.index_of_first_ensures(CR);
    let k = frame.index_of_first(CR).unwrap();
    if k < n {
        assert(frame[k] == bytes[k]);
        assert(bytes.contains(CR));
    }
    assert(k == n);
    assert(frame.subrange(0, n) =~= bytes);
    assert(frame.subrange(n + 2, frame.len() as int) =~= Seq::<u8>::empty());
    if has_verb(bytes) && valid_utf8(path_bytes(bytes)) {
        let path = path_bytes(bytes);
        decode_utf8_encode_utf8(path);
        if decode_utf8(path) == body {
            assert(encode_utf8(body) == path);
            assert(path.len() == n - 4);
        }
    }
}

} // verus!
