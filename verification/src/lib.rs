//! A line-framed request/response protocol.
//!
//! A request on the wire is the verb `GET `, a path in UTF-8 and a two-byte
//! delimiter; a response is its body followed by the delimiter. The crate
//! states that grammar over byte sequences, proves the codec against it, and
//! proves that the requests read from a connection do not depend on how the
//! bytes were cut into reads.

pub mod buffer;
pub mod codec;
pub mod message;
pub mod proto;
pub mod service;
pub mod session;
pub mod text;
pub mod wire;
