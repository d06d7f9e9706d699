//! The file handler: which file a request names, and what the look-up of
//! that file answers. Reading the file is the caller's part. A handler has
//! a response or an error for every request.

use crate::message::{Request, Response};
use vstd::prelude::*;
use vstd::utf8::*;

verus! {

/// Why a handler has no response.
#[derive(Debug, PartialEq, Eq)]
pub enum ServiceError {
    /// The request names no file below the root.
    NotFound,
}

impl ServiceError {
    /// The error in words.
    pub open spec fn text(self) -> Seq<char> {
        match self {
            ServiceError::NotFound => "not found"@,
        }
    }

    /// The error in words, for a log or for an error of the transport.
    pub fn message(&self) -> (text: String)
        ensures
            text@ == self.text(),
    {
        match self {
            ServiceError::NotFound => "not found".to_owned(),
        }
    }
}

/// The path has a first byte that can be cut off: it is not empty, and its
/// first character is one byte long.
pub open spec fn has_leading_byte(uri: Seq<char>) -> bool {
    uri.len() > 0 && has_width_1_encoding(uri[0] as u32)
}

/// In the bytes of a text, the place behind the first byte is the start of
/// a character exactly if the first character is one byte long; what follows
/// that byte is then the rest of the text.
proof fn lemma_leading_byte(uri: Seq<char>)
    ensures
        has_leading_byte(uri) <==> encode_utf8(uri).len() >= 1 && is_char_boundary(
            encode_utf8(uri),
            1,
        ),
        has_leading_byte(uri) ==> encode_utf8(uri).skip(1) == encode_utf8(uri.drop_first()),
{
    let bytes = encode_utf8(uri);
    encode_utf8_valid_utf8(uri);
    if uri.len() > 0 {
        let rest = encode_utf8(uri.drop_first());
        encode_utf8_valid_utf8(uri.drop_first());
        encode_utf8_first_scalar(uri);
        char_is_scalar(uri[0]);
        assert(pop_first_scalar(bytes) =~= rest);
        reveal_with_fuel(is_char_boundary, 2);
        if has_width_1_encoding(uri[0] as u32) {
            assert(bytes.skip(1) =~= rest);
        }
    }
}

/// Serves the files below a root directory. One instance serves one
/// connection.
pub struct FileService {
    root: String,
}

impl View for FileService {
    type V = Seq<char>;

    /// A file service is known by its root.
    closed spec fn view(&self) -> Seq<char> {
        self.root@
    }
}

impl FileService {
    /// The directory that the files are looked up in.
    pub fn root(&self) -> (root: &str)
        ensures
            root@ == self@,
    {
        self.root.as_str()
    }

    /// The file that a request names, relative to the root: the path
    /// without its first byte, the leading slash. A path without such a
    /// byte, empty or with a first character of more than one byte, names
    /// no file, and the answer to it is `NotFound`.
    pub fn target(req: &Request) -> (r: Result<&str, ServiceError>)
        ensures
            r is Ok <==> has_leading_byte(req.uri@),
            r matches Ok(path) ==> path@ == req.uri@.drop_first(),
            r matches Err(e) ==> e == ServiceError::NotFound,
    {
        let uri = req.uri.as_str();
        proof {
            lemma_leading_byte(uri@);
        }
        if uri.as_bytes().len() >= 1 && uri.is_char_boundary(1) {
            let (_, rest) = uri.split_at(1);
            proof {
                encode_utf8_decode_utf8(rest@);
                encode_utf8_decode_utf8(uri@.drop_first());
            }
            Ok(rest)
        } else {
            Err(ServiceError::NotFound)
        }
    }

    /// The answer to a request, given what the look-up found: the text of
    /// the file is the body of the response, and a path that names no file
    /// is an error.
    pub fn respond(found: Option<String>) -> (r: Result<Response, ServiceError>)
        ensures
            match found {
                Some(text) => r matches Ok(res) && res@ == text@,
                None => r matches Err(e) && e == ServiceError::NotFound,
            },
    {
        match found {
            Some(text) => Ok(Response::with_body(text)),
            None => Err(ServiceError::NotFound),
        }
    }
}

/// Makes the file service of each connection: all of them serve the same
/// root.
pub struct FileServer {
    root: String,
}

impl View for FileServer {
    type V = Seq<char>;

    /// A file server is known by its root.
    closed spec fn view(&self) -> Seq<char> {
        self.root@
    }
}

impl FileServer {
    /// A server for the files below `root`.
    pub fn new(root: &str) -> (server: FileServer)
        ensures
            server@ == root@,
    {
        FileServer { root: root.to_owned() }
    }

    /// The service for one more connection. It never fails.
    pub fn new_service(&self) -> (r: Result<FileService, ServiceError>)
        ensures
            r matches Ok(service) && service@ == self@,
    {
        Ok(FileService { root: self.root.clone() })
    }
}

} // verus!
