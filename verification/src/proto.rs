//! The protocol: what binds a connection to its codec.

use crate::codec::HttpCodec;
use vstd::prelude::*;

verus! {

/// The protocol of a server. Every connection is framed the same way.
pub struct Http;

impl Http {
    /// The codec that frames a new connection.
    pub fn codec(&self) -> (codec: HttpCodec)
        ensures
            codec == HttpCodec,
    {
        HttpCodec
    }
}

} // verus!
