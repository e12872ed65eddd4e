//! The protocol: which codec frames a connection.

use crate::codec::AuthCodec;
use vstd::prelude::*;

verus! {

/// The authentication protocol, as a transport binds it to a connection.
#[derive(Clone, Copy, Debug, Default)]
pub struct AuthProto;

impl AuthProto {
    /// The codec that frames one connection of this protocol.
    pub fn codec(&self) -> (codec: AuthCodec)
        ensures
            codec == AuthCodec,
    {
        AuthCodec
    }
}

} // verus!
