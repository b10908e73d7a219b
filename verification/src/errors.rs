//! Session-fatal error kinds. Every error unwinds the running session; the
//! supervisor absorbs it and re-enters the connect cycle.

use vstd::prelude::*;

verus! {

/// What went wrong with a session. I/O failures, channel failures and task
/// join failures happen outside this crate and are wrapped by the caller.
#[derive(Debug)]
pub enum RfbSessionErrorKind {
    /// The protocol version banner was not exactly 12 bytes.
    ServerProtocolVersion,
    /// The server reported a rejection during the handshake; the bytes are
    /// the server's reason string.
    ServerError(Vec<u8>),
    /// A server-to-client command other than FrameUpdate.
    InvalidServerCommand(u16),
    /// A rectangle encoding outside {Raw, HexTile}.
    InvalidEncoding(i32),
    /// A zero-length read: the peer closed the connection.
    SessionClosedByServer,
    /// A handshake string announced a length at or beyond the 1024-byte bound.
    StringTooLong(u32),
    /// The server advertised a pixel format the decoder cannot translate.
    UnsupportedPixelFormat,
    /// A rectangle header that does not fit inside the framebuffer.
    RectangleOutOfBounds,
}

/// A session-fatal error.
#[derive(Debug)]
pub struct RfbSessionError(pub RfbSessionErrorKind);

} // verus!
