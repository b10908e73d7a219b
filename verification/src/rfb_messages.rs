//! Client-to-server RFB messages and their wire encoding, together with a
//! decoder that inverts the encoding (used to state and test that the
//! encoding loses nothing).

use vstd::prelude::*;
use crate::errors::{RfbSessionError, RfbSessionErrorKind};
use crate::wire::{be16_value, be32_value, be16_bytes, be32_bytes, push_u16_be, push_u32_be};

verus! {

/// A position in pixels.
#[derive(Clone, Copy, Debug, PartialEq, Eq, Structural)]
pub struct Point {
    pub x: u16,
    pub y: u16,
}

/// A width and height in pixels.
#[derive(Clone, Copy, Debug, PartialEq, Eq, Structural)]
pub struct Size {
    pub width: u16,
    pub height: u16,
}

/// A rectangle within the framebuffer.
#[derive(Clone, Copy, Debug, PartialEq, Eq, Structural)]
pub struct Rect {
    pub location: Point,
    pub size: Size,
}

/// Arguments of a FrameUpdateRequest message.
#[derive(Clone, Copy, Debug, PartialEq, Eq, Structural)]
pub struct FrameUpdateRequestArgs {
    pub incremental: bool,
    pub rect: Rect,
}

/// Arguments of a PointerEvent message.
#[derive(Clone, Copy, Debug, PartialEq, Eq, Structural)]
pub struct PointerEventArgs {
    pub button_mask: u8,
    pub location: Point,
}

/// The rectangle encodings this client negotiates.
#[derive(Clone, Copy, Debug, PartialEq, Eq, Structural)]
pub enum RfbEncodingType {
    Raw,
    HexTile,
}

/// The security types of the RFB handshake.
#[derive(Clone, Copy, Debug, PartialEq, Eq, Structural)]
pub enum RfbSecurityType {
    Invalid,
    NoAuthentication,
    VncAuthentication,
}

/// Server-to-client commands this client understands.
#[derive(Clone, Copy, Debug, PartialEq, Eq, Structural)]
pub enum FromServerCommands {
    FrameUpdate,
}

/// A message on the outbound channel. `Terminate` is a sentinel that stops
/// the multiplexer and never reaches the wire.
#[derive(Debug)]
pub enum ToServerMessage {
    ProtocolVersion,
    Security(RfbSecurityType),
    ClientInit(bool),
    SetEncoding(Vec<RfbEncodingType>),
    FrameUpdateRequest(FrameUpdateRequestArgs),
    PointerEvent(PointerEventArgs),
    SetCurText(Vec<u8>),
    Terminate,
}

/// The mathematical value of a `ToServerMessage`: the same shape, with
/// sequences in place of vectors.
pub enum ToServerMessageView {
    ProtocolVersion,
    Security(RfbSecurityType),
    ClientInit(bool),
    SetEncoding(Seq<RfbEncodingType>),
    FrameUpdateRequest(FrameUpdateRequestArgs),
    PointerEvent(PointerEventArgs),
    SetCurText(Seq<u8>),
    Terminate,
}

/// Which message a byte string should be decoded as. RFB framing is
/// positional: during the handshake the peer knows from the protocol phase
/// which message comes next, so the decoder is told the same.
#[derive(Clone, Copy, Debug, PartialEq, Eq, Structural)]
pub enum ToServerMessageKind {
    ProtocolVersion,
    Security,
    ClientInit,
    SetEncoding,
    FrameUpdateRequest,
    PointerEvent,
    SetCurText,
}

impl View for ToServerMessage {
    type V = ToServerMessageView;

    open spec fn view(&self) -> ToServerMessageView {
        match self {
            ToServerMessage::ProtocolVersion => ToServerMessageView::ProtocolVersion,
            ToServerMessage::Security(t) => ToServerMessageView::Security(*t),
            ToServerMessage::ClientInit(shared) => ToServerMessageView::ClientInit(*shared),
            ToServerMessage::SetEncoding(encs) => ToServerMessageView::SetEncoding(encs@),
            ToServerMessage::FrameUpdateRequest(a) => ToServerMessageView::FrameUpdateRequest(*a),
            ToServerMessage::PointerEvent(a) => ToServerMessageView::PointerEvent(*a),
            ToServerMessage::SetCurText(text) => ToServerMessageView::SetCurText(text@),
            ToServerMessage::Terminate => ToServerMessageView::Terminate,
        }
    }
}

impl RfbEncodingType {
    /// The signed 32-bit code this encoding has on the wire.
    pub open spec fn code_spec(self) -> i32 {
        match self {
            RfbEncodingType::Raw => 0,
            RfbEncodingType::HexTile => 5,
        }
    }

    /// The signed 32-bit code this encoding has on the wire.
    pub fn code(&self) -> (c: i32)
        ensures
            c == self.code_spec(),
    {
        match self {
            RfbEncodingType::Raw => 0,
            RfbEncodingType::HexTile => 5,
        }
    }

    /// The encoding a wire code names: 0 is Raw and 5 is HexTile; any other
    /// code is the fatal `InvalidEncoding` error.
    pub fn new(encoding: i32) -> (r: Result<RfbEncodingType, RfbSessionError>)
        ensures
            encoding == 0 ==> r == Ok::<RfbEncodingType, RfbSessionError>(RfbEncodingType::Raw),
            encoding == 5 ==> r == Ok::<RfbEncodingType, RfbSessionError>(RfbEncodingType::HexTile),
            encoding != 0 && encoding != 5 ==> (r matches Err(e)
                && e.0 matches RfbSessionErrorKind::InvalidEncoding(c) && c == encoding),
    {
        match encoding {
            0 => Ok(RfbEncodingType::Raw),
            5 => Ok(RfbEncodingType::HexTile),
            _ => Err(RfbSessionError(RfbSessionErrorKind::InvalidEncoding(encoding))),
        }
    }
}

impl RfbSecurityType {
    /// The single-byte code this security type has on the wire.
    pub open spec fn code_spec(self) -> u8 {
        match self {
            RfbSecurityType::Invalid => 0,
            RfbSecurityType::NoAuthentication => 1,
            RfbSecurityType::VncAuthentication => 2,
        }
    }

    /// The single-byte code this security type has on the wire.
    pub fn code(&self) -> (c: u8)
        ensures
            c == self.code_spec(),
    {
        match self {
            RfbSecurityType::Invalid => 0,
            RfbSecurityType::NoAuthentication => 1,
            RfbSecurityType::VncAuthentication => 2,
        }
    }
}

impl FromServerCommands {
    /// The command a 16-bit wire code names: only 0 (FrameUpdate) is
    /// understood; any other code is the fatal `InvalidServerCommand` error.
    pub fn new(command: u16) -> (r: Result<FromServerCommands, RfbSessionError>)
        ensures
            command == 0 ==> r == Ok::<FromServerCommands, RfbSessionError>(
                FromServerCommands::FrameUpdate),
            command != 0 ==> (r matches Err(e)
                && e.0 matches RfbSessionErrorKind::InvalidServerCommand(c) && c == command),
    {
        match command {
            0 => Ok(FromServerCommands::FrameUpdate),
            _ => Err(RfbSessionError(RfbSessionErrorKind::InvalidServerCommand(command))),
        }
    }
}

/// The fixed protocol version banner `RFB 003.008\n`.
pub open spec fn protocol_banner() -> Seq<u8> {
    seq![82u8, 70u8, 66u8, 32u8, 48u8, 48u8, 51u8, 46u8, 48u8, 48u8, 56u8, 10u8]
}

/// The wire bytes of a list of encodings: each code as four big-endian bytes.
pub open spec fn spec_encode_enc_list(encs: Seq<RfbEncodingType>) -> Seq<u8>
    decreases encs.len(),
{
    if encs.len() == 0 {
        Seq::empty()
    } else {
        be32_bytes(encs[0].code_spec() as u32) + spec_encode_enc_list(encs.drop_first())
    }
}

/// The wire bytes of one client-to-server message (`Terminate` has none;
/// it never reaches the wire). All multi-byte fields are big-endian; a
/// SetCurText length is a four-byte big-endian count.
pub open spec fn spec_encode(m: ToServerMessageView) -> Seq<u8> {
    match m {
        ToServerMessageView::ProtocolVersion => protocol_banner(),
        ToServerMessageView::Security(t) => seq![t.code_spec()],
        ToServerMessageView::ClientInit(shared) => seq![if shared { 1u8 } else { 0u8 }],
        ToServerMessageView::SetEncoding(encs) => seq![2u8, 0u8]
            + be16_bytes(encs.len() as u16) + spec_encode_enc_list(encs),
        ToServerMessageView::FrameUpdateRequest(a) => seq![
            3u8,
            if a.incremental { 1u8 } else { 0u8 },
        ] + be16_bytes(a.rect.location.x) + be16_bytes(a.rect.location.y)
            + be16_bytes(a.rect.size.width) + be16_bytes(a.rect.size.height),
        ToServerMessageView::PointerEvent(a) => seq![5u8, a.button_mask]
            + be16_bytes(a.location.x) + be16_bytes(a.location.y),
        ToServerMessageView::SetCurText(text) => seq![6u8, 0u8, 0u8, 0u8]
            + be32_bytes(text.len() as u32) + text,
        ToServerMessageView::Terminate => Seq::empty(),
    }
}

impl ToServerMessage {
    /// Encode this message for the wire. `Terminate` is a local sentinel and
    /// cannot be encoded; list and text lengths must fit their wire fields.
    pub fn encode(&self) -> (r: Vec<u8>)
        requires
            !(self@ is Terminate),
            self@ matches ToServerMessageView::SetEncoding(encs) ==> encs.len() <= 0xFFFF,
            self@ matches ToServerMessageView::SetCurText(text) ==> text.len() <= 0xFFFFFFFFu64,
        ensures
            r@ == spec_encode(self@),
    {
        match self {
            ToServerMessage::ProtocolVersion => {
                let r: Vec<u8> = vec![82u8, 70u8, 66u8, 32u8, 48u8, 48u8, 51u8, 46u8, 48u8,
                    48u8, 56u8, 10u8];
                proof {
                    assert(r@ =~= protocol_banner());
                }
                r
            },
            ToServerMessage::Security(t) => {
                let r: Vec<u8> = vec![t.code()];
                proof {
                    assert(r@ =~= spec_encode(self@));
                }
                r
            },
            ToServerMessage::ClientInit(shared) => {
                let r: Vec<u8> = vec![if *shared { 1u8 } else { 0u8 }];
                proof {
                    assert(r@ =~= spec_encode(self@));
                }
                r
            },
            ToServerMessage::SetEncoding(encs) => {
                let mut r: Vec<u8> = vec![2u8, 0u8];
                push_u16_be(&mut r, encs.len() as u16);
                proof {
                    assert(r@ =~= seq![2u8, 0u8] + be16_bytes(encs@.len() as u16)
                        + spec_encode_enc_list(encs@.take(0)));
                }
                let n = encs.len();
                let mut i: usize = 0;
                while i < n
                    invariant
                        i <= n,
                        n == encs@.len(),
                        r@ == seq![2u8, 0u8] + be16_bytes(encs@.len() as u16)
                            + spec_encode_enc_list(encs@.take(i as int)),
                    decreases n - i,
                {
                    let c = encs[i].code();
                    assert(c == 0 || c == 5);
                    push_u32_be(&mut r, c as u32);
                    proof {
                        lemma_enc_list_take_step(encs@, i as int);
                        assert(r@ =~= seq![2u8, 0u8] + be16_bytes(encs@.len() as u16)
                            + spec_encode_enc_list(encs@.take(i + 1)));
                    }
                    i = i + 1;
                }
                proof {
                    assert(encs@.take(n as int) =~= encs@);
                }
                r
            },
            ToServerMessage::FrameUpdateRequest(a) => {
                let mut r: Vec<u8> = vec![3u8, if a.incremental { 1u8 } else { 0u8 }];
                push_u16_be(&mut r, a.rect.location.x);
                push_u16_be(&mut r, a.rect.location.y);
                push_u16_be(&mut r, a.rect.size.width);
                push_u16_be(&mut r, a.rect.size.height);
                proof {
                    assert(r@ =~= spec_encode(self@));
                }
                r
            },
            ToServerMessage::PointerEvent(a) => {
                let mut r: Vec<u8> = vec![5u8, a.button_mask];
                push_u16_be(&mut r, a.location.x);
                push_u16_be(&mut r, a.location.y);
                proof {
                    assert(r@ =~= spec_encode(self@));
                }
                r
            },
            ToServerMessage::SetCurText(text) => {
                let mut r: Vec<u8> = vec![6u8, 0u8, 0u8, 0u8];
                push_u32_be(&mut r, text.len() as u32);
                let n = text.len();
                let mut i: usize = 0;
                while i < n
                    invariant
                        i <= n,
                        n == text@.len(),
                        r@ == seq![6u8, 0u8, 0u8, 0u8] + be32_bytes(text@.len() as u32)
                            + text@.take(i as int),
                    decreases n - i,
                {
                    r.push(text[i]);
                    proof {
                        assert(r@ =~= seq![6u8, 0u8, 0u8, 0u8] + be32_bytes(text@.len() as u32)
                            + text@.take(i + 1));
                    }
                    i = i + 1;
                }
                proof {
                    assert(text@.take(n as int) =~= text@);
                }
                r
            },
            ToServerMessage::Terminate => {
                proof {
                    assert(false);
                }
                Vec::new()
            },
        }
    }
}

/// The security type a single-byte wire code names, if any.
pub open spec fn spec_security_of(code: u8) -> Option<RfbSecurityType> {
    if code == 0 {
        Some(RfbSecurityType::Invalid)
    } else if code == 1 {
        Some(RfbSecurityType::NoAuthentication)
    } else if code == 2 {
        Some(RfbSecurityType::VncAuthentication)
    } else {
        None
    }
}

/// Decode `n` encodings, each a four-byte big-endian code, from the front
/// of `s`; `None` on an unknown code or too few bytes.
pub open spec fn spec_decode_enc_list(s: Seq<u8>, n: int) -> Option<Seq<RfbEncodingType>>
    decreases n,
{
    if n <= 0 {
        Some(Seq::empty())
    } else if s.len() < 4 {
        None
    } else {
        let c = be32_value(s[0], s[1], s[2], s[3]);
        let e: Option<RfbEncodingType> = if c == 0 {
            Some(RfbEncodingType::Raw)
        } else if c == 5 {
            Some(RfbEncodingType::HexTile)
        } else {
            None
        };
        match (e, spec_decode_enc_list(s.skip(4), n - 1)) {
            (Some(e0), Some(rest)) => Some(seq![e0] + rest),
            _ => None,
        }
    }
}

/// The message that `s`, read as a message of kind `kind`, carries; `None`
/// when `s` is not the exact wire form of such a message.
pub open spec fn spec_decode(kind: ToServerMessageKind, s: Seq<u8>) -> Option<ToServerMessageView> {
    match kind {
        ToServerMessageKind::ProtocolVersion => if s == protocol_banner() {
            Some(ToServerMessageView::ProtocolVersion)
        } else {
            None
        },
        ToServerMessageKind::Security => if s.len() == 1 {
            match spec_security_of(s[0]) {
                Some(t) => Some(ToServerMessageView::Security(t)),
                None => None,
            }
        } else {
            None
        },
        ToServerMessageKind::ClientInit => if s.len() == 1 && (s[0] == 0 || s[0] == 1) {
            Some(ToServerMessageView::ClientInit(s[0] == 1))
        } else {
            None
        },
        ToServerMessageKind::SetEncoding => if s.len() >= 4 && s[0] == 2 && s[1] == 0
            && s.len() == 4 + 4 * (be16_value(s[2], s[3]) as int) {
            match spec_decode_enc_list(s.skip(4), be16_value(s[2], s[3]) as int) {
                Some(l) => Some(ToServerMessageView::SetEncoding(l)),
                None => None,
            }
        } else {
            None
        },
        ToServerMessageKind::FrameUpdateRequest => if s.len() == 10 && s[0] == 3
            && (s[1] == 0 || s[1] == 1) {
            Some(ToServerMessageView::FrameUpdateRequest(FrameUpdateRequestArgs {
                incremental: s[1] == 1,
                rect: Rect {
                    location: Point { x: be16_value(s[2], s[3]), y: be16_value(s[4], s[5]) },
                    size: Size {
                        width: be16_value(s[6], s[7]),
                        height: be16_value(s[8], s[9]),
                    },
                },
            }))
        } else {
            None
        },
        ToServerMessageKind::PointerEvent => if s.len() == 6 && s[0] == 5 {
            Some(ToServerMessageView::PointerEvent(PointerEventArgs {
                button_mask: s[1],
                location: Point { x: be16_value(s[2], s[3]), y: be16_value(s[4], s[5]) },
            }))
        } else {
            None
        },
        ToServerMessageKind::SetCurText => if s.len() >= 8 && s[0] == 6 && s[1] == 0
            && s[2] == 0 && s[3] == 0
            && s.len() == 8 + (be32_value(s[4], s[5], s[6], s[7]) as int) {
            Some(ToServerMessageView::SetCurText(s.skip(8)))
        } else {
            None
        },
    }
}

/// The kind a message is decoded as; `Terminate` never reaches the wire and
/// has none.
pub open spec fn spec_kind_of(m: ToServerMessageView) -> Option<ToServerMessageKind> {
    match m {
        ToServerMessageView::ProtocolVersion => Some(ToServerMessageKind::ProtocolVersion),
        ToServerMessageView::Security(_) => Some(ToServerMessageKind::Security),
        ToServerMessageView::ClientInit(_) => Some(ToServerMessageKind::ClientInit),
        ToServerMessageView::SetEncoding(_) => Some(ToServerMessageKind::SetEncoding),
        ToServerMessageView::FrameUpdateRequest(_) => Some(ToServerMessageKind::FrameUpdateRequest),
        ToServerMessageView::PointerEvent(_) => Some(ToServerMessageKind::PointerEvent),
        ToServerMessageView::SetCurText(_) => Some(ToServerMessageKind::SetCurText),
        ToServerMessageView::Terminate => None,
    }
}

/// Appending one encoding to a list appends its four wire bytes.
pub proof fn lemma_enc_list_take_step(encs: Seq<RfbEncodingType>, i: int)
    requires
        0 <= i < encs.len(),
    ensures
        spec_encode_enc_list(encs.take(i + 1)) == spec_encode_enc_list(encs.take(i))
            + be32_bytes(encs[i].code_spec() as u32),
    decreases i,
{
    if i == 0 {
        assert(encs.take(1).drop_first() =~= Seq::<RfbEncodingType>::empty());
        assert(spec_encode_enc_list(encs.take(1)) =~= be32_bytes(encs[0].code_spec() as u32)
            + spec_encode_enc_list(Seq::empty()));
        assert(spec_encode_enc_list(encs.take(0)) =~= Seq::<u8>::empty());
        assert(spec_encode_enc_list(encs.take(1)) =~= spec_encode_enc_list(encs.take(0))
            + be32_bytes(encs[0].code_spec() as u32));
    } else {
        lemma_enc_list_take_step(encs.drop_first(), i - 1);
        assert(encs.take(i + 1).drop_first() =~= encs.drop_first().take(i));
        assert(encs.take(i).drop_first() =~= encs.drop_first().take(i - 1));
        assert(encs.drop_first()[i - 1] == encs[i]);
    }
}

/// Prefix already-decoded encodings onto a decoded tail.
pub open spec fn opt_prepend_encs(
    pre: Seq<RfbEncodingType>,
    o: Option<Seq<RfbEncodingType>>,
) -> Option<Seq<RfbEncodingType>> {
    match o {
        Some(l) => Some(pre + l),
        None => None,
    }
}

impl ToServerMessage {
    /// Decode the exact wire form of a message of the given kind; `None` when
    /// the bytes are not such a message.
    pub fn decode(kind: ToServerMessageKind, bytes: &[u8]) -> (r: Option<ToServerMessage>)
        ensures
            match spec_decode(kind, bytes@) {
                Some(v) => r matches Some(m) && m@ == v,
                None => r is None,
            },
    {
        match kind {
            ToServerMessageKind::ProtocolVersion => {
                if bytes.len() == 12 && bytes[0] == 82 && bytes[1] == 70 && bytes[2] == 66
                    && bytes[3] == 32 && bytes[4] == 48 && bytes[5] == 48 && bytes[6] == 51
                    && bytes[7] == 46 && bytes[8] == 48 && bytes[9] == 48 && bytes[10] == 56
                    && bytes[11] == 10 {
                    proof {
                        assert(bytes@ =~= protocol_banner());
                    }
                    Some(ToServerMessage::ProtocolVersion)
                } else {
                    proof {
                        if bytes@ == protocol_banner() {
                            assert(bytes@.len() == 12);
                            assert(bytes@[0] == 82 && bytes@[1] == 70 && bytes@[2] == 66
                                && bytes@[3] == 32 && bytes@[4] == 48 && bytes@[5] == 48
                                && bytes@[6] == 51 && bytes@[7] == 46 && bytes@[8] == 48
                                && bytes@[9] == 48 && bytes@[10] == 56 && bytes@[11] == 10);
                        }
                    }
                    None
                }
            },
            ToServerMessageKind::Security => {
                if bytes.len() != 1 {
                    return None;
                }
                if bytes[0] == 0 {
                    Some(ToServerMessage::Security(RfbSecurityType::Invalid))
                } else if bytes[0] == 1 {
                    Some(ToServerMessage::Security(RfbSecurityType::NoAuthentication))
                } else if bytes[0] == 2 {
                    Some(ToServerMessage::Security(RfbSecurityType::VncAuthentication))
                } else {
                    None
                }
            },
            ToServerMessageKind::ClientInit => {
                if bytes.len() != 1 {
                    return None;
                }
                if bytes[0] == 0 || bytes[0] == 1 {
                    Some(ToServerMessage::ClientInit(bytes[0] == 1))
                } else {
                    None
                }
            },
            ToServerMessageKind::SetEncoding => {
                if bytes.len() < 4 {
                    return None;
                }
                if bytes[0] != 2 || bytes[1] != 0 {
                    return None;
                }
                let n = crate::wire::read_u16_be(bytes, 2) as usize;
                if bytes.len() != 4 + 4 * n {
                    return None;
                }
                let mut encs: Vec<RfbEncodingType> = Vec::new();
                let mut i: usize = 0;
                while i < n
                    invariant
                        i <= n,
                        n <= 0xFFFF,
                        kind == ToServerMessageKind::SetEncoding,
                        bytes@.len() == 4 + 4 * n,
                        encs@.len() == i,
                        spec_decode_enc_list(bytes@.skip(4), n as int) == opt_prepend_encs(
                            encs@,
                            spec_decode_enc_list(bytes@.skip(4 + 4 * (i as int)), n - i),
                        ),
                        spec_decode(ToServerMessageKind::SetEncoding, bytes@) == (
                        match spec_decode_enc_list(bytes@.skip(4), n as int) {
                            Some(l) => Some(ToServerMessageView::SetEncoding(l)),
                            None => None,
                        }),
                    decreases n - i,
                {
                    let c = crate::wire::read_u32_be(bytes, 4 + 4 * i);
                    proof {
                        let tail = bytes@.skip(4 + 4 * (i as int));
                        assert(tail[0] == bytes@[4 + 4 * (i as int)]);
                        assert(tail[1] == bytes@[4 + 4 * (i as int) + 1]);
                        assert(tail[2] == bytes@[4 + 4 * (i as int) + 2]);
                        assert(tail[3] == bytes@[4 + 4 * (i as int) + 3]);
                        assert(tail.skip(4) =~= bytes@.skip(4 + 4 * (i as int + 1)));
                    }
                    if c == 0 {
                        encs.push(RfbEncodingType::Raw);
                    } else if c == 5 {
                        encs.push(RfbEncodingType::HexTile);
                    } else {
                        proof {
                            assert(spec_decode_enc_list(bytes@.skip(4 + 4 * (i as int)), n - i)
                                is None);
                        }
                        return None;
                    }
                    proof {
                        let rest = spec_decode_enc_list(bytes@.skip(4 + 4 * (i as int + 1)),
                            n - i - 1);
                        if rest is Some {
                            assert(encs@ + rest.unwrap() =~= encs@.drop_last()
                                + (seq![encs@.last()] + rest.unwrap()));
                        }
                    }
                    i = i + 1;
                }
                proof {
                    assert(spec_decode_enc_list(bytes@.skip(4 + 4 * (n as int)), 0)
                        == Some(Seq::<RfbEncodingType>::empty()));
                    assert(encs@ + Seq::<RfbEncodingType>::empty() =~= encs@);
                }
                Some(ToServerMessage::SetEncoding(encs))
            },
            ToServerMessageKind::FrameUpdateRequest => {
                if bytes.len() != 10 {
                    return None;
                }
                if bytes[0] != 3 || (bytes[1] != 0 && bytes[1] != 1) {
                    return None;
                }
                Some(ToServerMessage::FrameUpdateRequest(FrameUpdateRequestArgs {
                    incremental: bytes[1] == 1,
                    rect: Rect {
                        location: Point {
                            x: crate::wire::read_u16_be(bytes, 2),
                            y: crate::wire::read_u16_be(bytes, 4),
                        },
                        size: Size {
                            width: crate::wire::read_u16_be(bytes, 6),
                            height: crate::wire::read_u16_be(bytes, 8),
                        },
                    },
                }))
            },
            ToServerMessageKind::PointerEvent => {
                if bytes.len() != 6 {
                    return None;
                }
                if bytes[0] != 5 {
                    return None;
                }
                Some(ToServerMessage::PointerEvent(PointerEventArgs {
                    button_mask: bytes[1],
                    location: Point {
                        x: crate::wire::read_u16_be(bytes, 2),
                        y: crate::wire::read_u16_be(bytes, 4),
                    },
                }))
            },
            ToServerMessageKind::SetCurText => {
                if bytes.len() < 8 {
                    return None;
                }
                if bytes[0] != 6 || bytes[1] != 0 || bytes[2] != 0 || bytes[3] != 0 {
                    return None;
                }
                let n = crate::wire::read_u32_be(bytes, 4);
                if (bytes.len() as u64) != 8u64 + (n as u64) {
                    return None;
                }
                let mut text: Vec<u8> = Vec::new();
                let mut i: usize = 8;
                while i < bytes.len()
                    invariant
                        8 <= i <= bytes@.len(),
                        text@ == bytes@.subrange(8, i as int),
                    decreases bytes@.len() - i,
                {
                    text.push(bytes[i]);
                    proof {
                        assert(text@ =~= bytes@.subrange(8, i + 1));
                    }
                    i = i + 1;
                }
                proof {
                    assert(text@ =~= bytes@.skip(8));
                }
                Some(ToServerMessage::SetCurText(text))
            },
        }
    }
}

/// An encoding list's wire form has four bytes per encoding.
pub proof fn lemma_enc_list_len(encs: Seq<RfbEncodingType>)
    ensures
        spec_encode_enc_list(encs).len() == 4 * encs.len(),
    decreases encs.len(),
{
    if encs.len() > 0 {
        lemma_enc_list_len(encs.drop_first());
    }
}

/// Decoding an encoding list's wire form recovers the list.
pub proof fn lemma_enc_list_roundtrip(encs: Seq<RfbEncodingType>)
    ensures
        spec_decode_enc_list(spec_encode_enc_list(encs), encs.len() as int) == Some(encs),
    decreases encs.len(),
{
    if encs.len() == 0 {
        assert(encs =~= Seq::<RfbEncodingType>::empty());
    } else {
        let s = spec_encode_enc_list(encs);
        let c0 = encs[0].code_spec() as u32;
        let head = crate::wire::be32_bytes(c0);
        lemma_enc_list_len(encs);
        assert(s[0] == head[0] && s[1] == head[1] && s[2] == head[2] && s[3] == head[3]);
        crate::wire::lemma_be32_roundtrip(c0);
        assert(s.skip(4) =~= spec_encode_enc_list(encs.drop_first()));
        lemma_enc_list_roundtrip(encs.drop_first());
        assert(seq![encs[0]] + encs.drop_first() =~= encs);
    }
}

/// Wire idempotence: encoding any message other than the local `Terminate`
/// sentinel, then decoding it as its own kind, yields the same logical value.
pub proof fn lemma_encode_decode_roundtrip(m: ToServerMessageView)
    requires
        !(m is Terminate),
        m matches ToServerMessageView::SetEncoding(encs) ==> encs.len() <= 0xFFFF,
        m matches ToServerMessageView::SetCurText(text) ==> text.len() <= 0xFFFFFFFFu64,
    ensures
        spec_kind_of(m) matches Some(kind) && spec_decode(kind, spec_encode(m)) == Some(m),
{
    let s = spec_encode(m);
    match m {
        ToServerMessageView::ProtocolVersion => {},
        ToServerMessageView::Security(t) => {
            assert(s.len() == 1 && s[0] == t.code_spec());
        },
        ToServerMessageView::ClientInit(shared) => {
            assert(s.len() == 1);
        },
        ToServerMessageView::SetEncoding(encs) => {
            let n16 = encs.len() as u16;
            let count = crate::wire::be16_bytes(n16);
            lemma_enc_list_len(encs);
            assert(s[0] == 2 && s[1] == 0);
            assert(s[2] == count[0] && s[3] == count[1]);
            crate::wire::lemma_be16_roundtrip(n16);
            assert(s.skip(4) =~= spec_encode_enc_list(encs));
            lemma_enc_list_roundtrip(encs);
        },
        ToServerMessageView::FrameUpdateRequest(a) => {
            let bx = crate::wire::be16_bytes(a.rect.location.x);
            let by = crate::wire::be16_bytes(a.rect.location.y);
            let bw = crate::wire::be16_bytes(a.rect.size.width);
            let bh = crate::wire::be16_bytes(a.rect.size.height);
            assert(s.len() == 10);
            assert(s[0] == 3);
            assert(s[2] == bx[0] && s[3] == bx[1] && s[4] == by[0] && s[5] == by[1]
                && s[6] == bw[0] && s[7] == bw[1] && s[8] == bh[0] && s[9] == bh[1]);
            crate::wire::lemma_be16_roundtrip(a.rect.location.x);
            crate::wire::lemma_be16_roundtrip(a.rect.location.y);
            crate::wire::lemma_be16_roundtrip(a.rect.size.width);
            crate::wire::lemma_be16_roundtrip(a.rect.size.height);
        },
        ToServerMessageView::PointerEvent(a) => {
            let bx = crate::wire::be16_bytes(a.location.x);
            let by = crate::wire::be16_bytes(a.location.y);
            assert(s.len() == 6);
            assert(s[0] == 5 && s[1] == a.button_mask);
            assert(s[2] == bx[0] && s[3] == bx[1] && s[4] == by[0] && s[5] == by[1]);
            crate::wire::lemma_be16_roundtrip(a.location.x);
            crate::wire::lemma_be16_roundtrip(a.location.y);
        },
        ToServerMessageView::SetCurText(text) => {
            let n32 = text.len() as u32;
            let count = crate::wire::be32_bytes(n32);
            assert(s[0] == 6 && s[1] == 0 && s[2] == 0 && s[3] == 0);
            assert(s[4] == count[0] && s[5] == count[1] && s[6] == count[2]
                && s[7] == count[3]);
            crate::wire::lemma_be32_roundtrip(n32);
            assert(s.skip(8) =~= text);
        },
        ToServerMessageView::Terminate => {},
    }
}

} // verus!
