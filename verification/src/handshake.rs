//! The protocol handshake: version exchange, security selection, client
//! init, ServerInit, encoding selection. Like the frame decoder it is an
//! incremental state machine over exact-length reads; each step may hand
//! back one message to send to the server.

use vstd::prelude::*;
use crate::errors::{RfbSessionError, RfbSessionErrorKind};
use crate::pixel::{PixelFormat, spec_decode_pixel_format};
use crate::rfb_messages::{RfbEncodingType, RfbSecurityType, ToServerMessage, ToServerMessageView};
use crate::wire::{be16_value, be32_value};

verus! {

/// What the server told us during the handshake.
#[derive(Debug)]
pub struct ServerInfo {
    pub frame_buffer_width: u16,
    pub frame_buffer_height: u16,
    pub pixel_format: PixelFormat,
    pub name: Vec<u8>,
}

/// What the handshake is waiting for next.
#[derive(Clone, Copy, Debug, PartialEq, Eq, Structural)]
pub enum HandshakePhase {
    /// The 12-byte protocol version banner.
    Banner,
    /// The one-byte count of security types the server offers.
    SecurityCount,
    /// The security type bytes themselves (their values are not used; this
    /// client always answers with security type None).
    SecurityTypes { count: u8 },
    /// The four-byte security result.
    SecurityResult,
    /// The four-byte length of a server rejection string.
    ErrorLength,
    /// The rejection string itself; reading it ends the handshake with a
    /// `ServerError`.
    ErrorText { len: u32 },
    /// The fixed 20 bytes of ServerInit: width, height, pixel format.
    ServerInitMain,
    /// The four-byte length of the server's name.
    NameLength,
    /// The name bytes; reading them finishes the handshake.
    NameText { len: u32 },
    /// The handshake is complete.
    Done,
}

/// Handshake strings (rejection reasons, the server name) longer than this
/// are treated as a protocol violation.
pub open spec fn max_string_len() -> int {
    1024
}

/// The handshake state machine: `needed()` names how many bytes to read
/// next, `advance()` consumes exactly that many and may produce one message
/// for the server.
pub struct Handshake {
    pub phase: HandshakePhase,
    pub width: u16,
    pub height: u16,
    pub pf: PixelFormat,
    pub name: Vec<u8>,
}

impl Handshake {
    /// Well-formed: pending counts are consistent, and once ServerInit has
    /// been read the stored pixel format is one the decoder supports.
    pub open spec fn wf(self) -> bool {
        &&& (self.phase matches HandshakePhase::SecurityTypes { count } ==> count >= 1)
        &&& (self.phase matches HandshakePhase::ErrorText { len } ==> len < max_string_len())
        &&& (self.phase matches HandshakePhase::NameText { len } ==> len < max_string_len())
        &&& ((self.phase is NameLength || self.phase matches HandshakePhase::NameText { .. }
            || self.phase is Done) ==> self.pf.is_supported_spec())
    }

    /// How many bytes the current phase needs next.
    pub open spec fn needed_spec(self) -> int {
        match self.phase {
            HandshakePhase::Banner => 12,
            HandshakePhase::SecurityCount => 1,
            HandshakePhase::SecurityTypes { count } => count as int,
            HandshakePhase::SecurityResult => 4,
            HandshakePhase::ErrorLength => 4,
            HandshakePhase::ErrorText { len } => len as int,
            HandshakePhase::ServerInitMain => 20,
            HandshakePhase::NameLength => 4,
            HandshakePhase::NameText { len } => len as int,
            HandshakePhase::Done => 0,
        }
    }

    /// A handshake at its start, waiting for the server's banner.
    pub fn new() -> (h: Handshake)
        ensures
            h.wf(),
            h.phase is Banner,
    {
        Handshake {
            phase: HandshakePhase::Banner,
            width: 0,
            height: 0,
            pf: PixelFormat {
                bits_per_pixel: 0,
                depth: 0,
                big_endian: false,
                true_color: false,
                red_max: 0,
                green_max: 0,
                blue_max: 0,
                red_shift: 0,
                green_shift: 0,
                blue_shift: 0,
            },
            name: Vec::new(),
        }
    }

    /// How many bytes to read from the server before the next `advance`.
    pub fn needed(&self) -> (n: usize)
        requires
            self.wf(),
        ensures
            n as int == self.needed_spec(),
    {
        match self.phase {
            HandshakePhase::Banner => 12,
            HandshakePhase::SecurityCount => 1,
            HandshakePhase::SecurityTypes { count } => count as usize,
            HandshakePhase::SecurityResult => 4,
            HandshakePhase::ErrorLength => 4,
            HandshakePhase::ErrorText { len } => len as usize,
            HandshakePhase::ServerInitMain => 20,
            HandshakePhase::NameLength => 4,
            HandshakePhase::NameText { len } => len as usize,
            HandshakePhase::Done => 0,
        }
    }

    /// Consume exactly the bytes the current phase asked for and step the
    /// handshake. `Ok(Some(m))` is a message to send to the server before
    /// the next read; an `Err` is fatal to the session. Every server
    /// rejection (no security types, a nonzero security result) ends in
    /// `ServerError` carrying the server's reason string; an oversized
    /// string ends in `StringTooLong`, and a pixel format the decoder
    /// cannot translate in `UnsupportedPixelFormat`.
    pub fn advance(&mut self, input: &[u8]) -> (r: Result<
        Option<ToServerMessage>,
        RfbSessionError,
    >)
        requires
            old(self).wf(),
            !(old(self).phase is Done),
            input@.len() == old(self).needed_spec(),
        ensures
            final(self).wf(),
            match old(self).phase {
                HandshakePhase::Banner => {
                    &&& (r matches Ok(m) && m matches Some(msg) && msg@ is ProtocolVersion)
                    &&& final(self).phase is SecurityCount
                },
                HandshakePhase::SecurityCount => {
                    let count = input@[0];
                    &&& r == Ok::<Option<ToServerMessage>, RfbSessionError>(None)
                    &&& (count == 0 ==> final(self).phase is ErrorLength)
                    &&& (count != 0 ==> (final(self).phase matches
                        HandshakePhase::SecurityTypes { count: c } && c == count))
                },
                HandshakePhase::SecurityTypes { count } => {
                    &&& (r matches Ok(m) && m matches Some(msg) && (msg@ matches
                        ToServerMessageView::Security(t)
                        && t == RfbSecurityType::NoAuthentication))
                    &&& final(self).phase is SecurityResult
                },
                HandshakePhase::SecurityResult => {
                    let result = be32_value(input@[0], input@[1], input@[2], input@[3]);
                    &&& (result == 0 ==> (r matches Ok(m) && m matches Some(msg) && (msg@ matches
                        ToServerMessageView::ClientInit(shared) && shared))
                        && final(self).phase is ServerInitMain)
                    &&& (result != 0 ==> r == Ok::<Option<ToServerMessage>, RfbSessionError>(None)
                        && final(self).phase is ErrorLength)
                },
                HandshakePhase::ErrorLength => {
                    let len = be32_value(input@[0], input@[1], input@[2], input@[3]);
                    &&& (len < max_string_len() ==> r == Ok::<
                        Option<ToServerMessage>,
                        RfbSessionError,
                    >(None) && (final(self).phase matches HandshakePhase::ErrorText { len: l }
                        && l == len))
                    &&& (len >= max_string_len() ==> (r matches Err(e) && e.0 matches
                        RfbSessionErrorKind::StringTooLong(l) && l == len))
                },
                HandshakePhase::ErrorText { len } => {
                    r matches Err(e) && (e.0 matches RfbSessionErrorKind::ServerError(msg)
                        && msg@ == input@)
                },
                HandshakePhase::ServerInitMain => {
                    let pf = spec_decode_pixel_format(input@.skip(4));
                    &&& (pf.is_supported_spec() ==> r == Ok::<
                        Option<ToServerMessage>,
                        RfbSessionError,
                    >(None) && final(self).phase is NameLength && final(self).pf == pf
                        && final(self).width == be16_value(input@[0], input@[1])
                        && final(self).height == be16_value(input@[2], input@[3]))
                    &&& (!pf.is_supported_spec() ==> (r matches Err(e)
                        && e.0 is UnsupportedPixelFormat))
                },
                HandshakePhase::NameLength => {
                    let len = be32_value(input@[0], input@[1], input@[2], input@[3]);
                    &&& (len < max_string_len() ==> r == Ok::<
                        Option<ToServerMessage>,
                        RfbSessionError,
                    >(None) && (final(self).phase matches HandshakePhase::NameText { len: l }
                        && l == len) && final(self).pf == old(self).pf && final(self).width == old(
                        self,
                    ).width && final(self).height == old(self).height)
                    &&& (len >= max_string_len() ==> (r matches Err(e) && e.0 matches
                        RfbSessionErrorKind::StringTooLong(l) && l == len))
                },
                HandshakePhase::NameText { len } => {
                    &&& (r matches Ok(m) && m matches Some(msg) && (msg@ matches
                        ToServerMessageView::SetEncoding(encs) && encs
                        =~= seq![RfbEncodingType::HexTile, RfbEncodingType::Raw]))
                    &&& final(self).phase is Done
                    &&& final(self).name@ == input@
                    &&& final(self).pf == old(self).pf
                    &&& final(self).width == old(self).width
                    &&& final(self).height == old(self).height
                },
                HandshakePhase::Done => true,
            },
    {
        match self.phase {
            HandshakePhase::Banner => {
                self.phase = HandshakePhase::SecurityCount;
                Ok(Some(ToServerMessage::ProtocolVersion))
            },
            HandshakePhase::SecurityCount => {
                let count = input[0];
                if count == 0 {
                    self.phase = HandshakePhase::ErrorLength;
                } else {
                    self.phase = HandshakePhase::SecurityTypes { count };
                }
                Ok(None)
            },
            HandshakePhase::SecurityTypes { count: _ } => {
                self.phase = HandshakePhase::SecurityResult;
                Ok(Some(ToServerMessage::Security(RfbSecurityType::NoAuthentication)))
            },
            HandshakePhase::SecurityResult => {
                let result = crate::wire::read_u32_be(input, 0);
                if result == 0 {
                    self.phase = HandshakePhase::ServerInitMain;
                    Ok(Some(ToServerMessage::ClientInit(true)))
                } else {
                    self.phase = HandshakePhase::ErrorLength;
                    Ok(None)
                }
            },
            HandshakePhase::ErrorLength => {
                let len = crate::wire::read_u32_be(input, 0);
                if len >= 1024 {
                    return Err(RfbSessionError(RfbSessionErrorKind::StringTooLong(len)));
                }
                self.phase = HandshakePhase::ErrorText { len };
                Ok(None)
            },
            HandshakePhase::ErrorText { len: _ } => {
                let msg = vstd::slice::slice_to_vec(input);
                Err(RfbSessionError(RfbSessionErrorKind::ServerError(msg)))
            },
            HandshakePhase::ServerInitMain => {
                let width = crate::wire::read_u16_be(input, 0);
                let height = crate::wire::read_u16_be(input, 2);
                let pf = PixelFormat::decode(&input[4..20]);
                proof {
                    assert(input@.subrange(4, 20) =~= input@.skip(4).take(16));
                    assert(spec_decode_pixel_format(input@.subrange(4, 20))
                        == spec_decode_pixel_format(input@.skip(4)));
                }
                if !pf.is_supported() {
                    return Err(RfbSessionError(RfbSessionErrorKind::UnsupportedPixelFormat));
                }
                self.width = width;
                self.height = height;
                self.pf = pf;
                self.phase = HandshakePhase::NameLength;
                Ok(None)
            },
            HandshakePhase::NameLength => {
                let len = crate::wire::read_u32_be(input, 0);
                if len >= 1024 {
                    return Err(RfbSessionError(RfbSessionErrorKind::StringTooLong(len)));
                }
                self.phase = HandshakePhase::NameText { len };
                Ok(None)
            },
            HandshakePhase::NameText { len: _ } => {
                self.name = vstd::slice::slice_to_vec(input);
                self.phase = HandshakePhase::Done;
                let encodings: Vec<RfbEncodingType> = vec![
                    RfbEncodingType::HexTile,
                    RfbEncodingType::Raw,
                ];
                proof {
                    assert(encodings@ =~= seq![RfbEncodingType::HexTile, RfbEncodingType::Raw]);
                }
                Ok(Some(ToServerMessage::SetEncoding(encodings)))
            },
            HandshakePhase::Done => Ok(None),
        }
    }

    /// Whether the handshake has finished.
    pub fn is_done(&self) -> (r: bool)
        ensures
            r == (self.phase is Done),
    {
        matches!(self.phase, HandshakePhase::Done)
    }

    /// What the server announced, once the handshake is done. The stored
    /// pixel format is always one the decoder supports.
    pub fn into_server_info(self) -> (info: ServerInfo)
        requires
            self.wf(),
            self.phase is Done,
        ensures
            info.frame_buffer_width == self.width,
            info.frame_buffer_height == self.height,
            info.pixel_format == self.pf,
            info.name@ == self.name@,
            info.pixel_format.is_supported_spec(),
    {
        ServerInfo {
            frame_buffer_width: self.width,
            frame_buffer_height: self.height,
            pixel_format: self.pf,
            name: self.name,
        }
    }
}

} // verus!
