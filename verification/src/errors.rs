use vstd::prelude::*;

verus! {

/// The failures the proxy engine distinguishes.
///
/// `ShortRead` and `MalformedLength` come from framing, `UnknownReplyId`
/// and `DuplicateProxyId` from reply routing, and `HandshakeMismatch`
/// from the initial protocol exchange.
#[derive(Clone, Copy, Debug, PartialEq, Eq, Structural)]
pub enum ProxyError {
    /// The peer's handshake bytes were not the expected fourteen.
    HandshakeMismatch,
    /// The byte stream ended before a whole frame was available.
    ShortRead,
    /// A frame's length field is smaller than its own header.
    MalformedLength,
    /// A reply carries an id for which no request is outstanding.
    UnknownReplyId,
    /// Two outstanding requests were recorded under one proxy id.
    DuplicateProxyId,
}

} // verus!
