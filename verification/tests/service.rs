use bytes::BytesMut;
use simple_line::codec::HttpCodec;
use simple_line::message::Request;
use simple_line::service::{FileServer, FileService, ServiceError};

fn request(uri: &str) -> Request {
    Request {
        uri: uri.to_string(),
    }
}

#[test]
fn target_drops_the_leading_slash() {
    assert_eq!(
        FileService::target(&request("/index.html")),
        Ok("index.html")
    );
    assert_eq!(FileService::target(&request("/a/b.txt")), Ok("a/b.txt"));
    assert_eq!(FileService::target(&request("/")), Ok(""));
}

#[test]
fn target_drops_whatever_byte_comes_first() {
    assert_eq!(
        FileService::target(&request("index.html")),
        Ok("ndex.html")
    );
    assert_eq!(FileService::target(&request("x\u{e9}")), Ok("\u{e9}"));
}

#[test]
fn target_of_a_path_without_a_first_byte_is_not_found() {
    assert_eq!(
        FileService::target(&request("")),
        Err(ServiceError::NotFound)
    );
    assert_eq!(
        FileService::target(&request("\u{e9}")),
        Err(ServiceError::NotFound)
    );
    assert_eq!(
        FileService::target(&request("\u{e9}/x")),
        Err(ServiceError::NotFound)
    );
    assert_eq!(
        FileService::target(&request("\u{65e5}")),
        Err(ServiceError::NotFound)
    );
}

#[test]
fn a_decoded_path_beyond_ascii_has_an_answer() {
    let mut buf = BytesMut::from(&b"GET \xc3\xa9\r\n"[..]);
    let req = HttpCodec.decode(&mut buf).unwrap().unwrap();
    assert_eq!(req.uri, "\u{e9}");
    let err = FileService::target(&req).unwrap_err();
    assert_eq!(err, ServiceError::NotFound);
    assert_eq!(err.message(), "not found");
}

#[test]
fn respond_answers_with_the_text_of_the_file() {
    let res = FileService::respond(Some("<p>hello</p>\n".to_string())).unwrap();
    assert_eq!(res.body(), "<p>hello</p>\n");
    assert_eq!(FileService::respond(Some(String::new())).unwrap().body(), "");
}

#[test]
fn respond_without_a_file_is_not_found() {
    let err = FileService::respond(None).unwrap_err();
    assert_eq!(err, ServiceError::NotFound);
    assert_eq!(err.message(), "not found");
}

#[test]
fn a_server_hands_its_root_to_every_service() {
    let server = FileServer::new("static/");
    let one = server.new_service().unwrap();
    let two = server.new_service().unwrap();
    assert_eq!(one.root(), "static/");
    assert_eq!(two.root(), "static/");
}
