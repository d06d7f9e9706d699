use bytes::BytesMut;
use simple_line::codec::HttpCodec;
use simple_line::message::FramingError;

/// What a connection yields when its bytes arrive in the given reads: the
/// paths of the requests, the error that ended it, and what stayed
/// buffered.
fn run(reads: &[&[u8]]) -> (Vec<String>, Option<FramingError>, Vec<u8>) {
    let mut codec = HttpCodec;
    let mut buf = BytesMut::new();
    let mut paths = Vec::new();
    for read in reads {
        buf.extend_from_slice(read);
        loop {
            match codec.decode(&mut buf) {
                Ok(Some(req)) => paths.push(req.uri),
                Ok(None) => break,
                Err(e) => return (paths, Some(e), Vec::new()),
            }
        }
    }
    (paths, None, buf.to_vec())
}

fn byte_by_byte(stream: &[u8]) -> Vec<&[u8]> {
    stream.chunks(1).collect()
}

#[test]
fn one_byte_at_a_time_yields_the_same_requests() {
    let stream: &[u8] = b"GET /a\r\nGET /b/c\r\n\nGET \r\nGET /d\rXGET /e";
    let at_once = run(&[stream]);
    assert_eq!(at_once.0, vec!["/a", "/b/c"]);
    assert_eq!(at_once.1, Some(FramingError::InvalidProtocol));
    assert_eq!(run(&byte_by_byte(stream)), at_once);
}

#[test]
fn any_cut_of_the_stream_yields_the_same_requests() {
    let stream: &[u8] = b"GET /a\r\nGET /\xc3\xa9\r\rGET /c\r\nGET /par";
    let at_once = run(&[stream]);
    assert_eq!(at_once.0, vec!["/a", "/\u{e9}", "/c"]);
    assert_eq!(at_once.1, None);
    assert_eq!(at_once.2, b"GET /par");
    assert_eq!(run(&byte_by_byte(stream)), at_once);
    for cut in 0..=stream.len() {
        let (head, tail) = stream.split_at(cut);
        assert_eq!(run(&[head, tail]), at_once);
    }
    for size in 1..stream.len() {
        let reads: Vec<&[u8]> = stream.chunks(size).collect();
        assert_eq!(run(&reads), at_once);
    }
}

#[test]
fn a_failure_ends_the_connection_however_the_bytes_arrive() {
    let stream: &[u8] = b"GET /a\r\nGET \xff\r\nGET /never\r\n";
    let at_once = run(&[stream]);
    assert_eq!(at_once.0, vec!["/a"]);
    assert_eq!(
        at_once.1,
        Some(FramingError::InvalidUtf8 {
            reason: "invalid utf-8 sequence of 1 bytes from index 0".to_string()
        })
    );
    assert_eq!(run(&byte_by_byte(stream)), at_once);
    for cut in 0..=stream.len() {
        let (head, tail) = stream.split_at(cut);
        assert_eq!(run(&[head, tail]), at_once);
    }
}

#[test]
fn empty_reads_change_nothing() {
    let stream: &[u8] = b"GET /a\r\nGET /b";
    let at_once = run(&[stream]);
    assert_eq!(run(&[b"", stream, b""]), at_once);
    assert_eq!(run(&[b"GET /a", b"", b"\r", b"", b"\nGET /b"]), at_once);
    assert_eq!(run(&[]), (Vec::new(), None, Vec::new()));
}
