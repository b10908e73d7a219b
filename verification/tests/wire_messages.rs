use hometoucher::rfb_messages::{
    FromServerCommands, FrameUpdateRequestArgs, Point, PointerEventArgs, Rect, RfbEncodingType,
    RfbSecurityType, Size, ToServerMessage, ToServerMessageKind,
};
use hometoucher::errors::RfbSessionErrorKind;

fn frame_update_request(incremental: bool, w: u16, h: u16) -> ToServerMessage {
    ToServerMessage::FrameUpdateRequest(FrameUpdateRequestArgs {
        incremental,
        rect: Rect {
            location: Point { x: 0, y: 0 },
            size: Size { width: w, height: h },
        },
    })
}

#[test]
fn encode_protocol_version() {
    let bytes = ToServerMessage::ProtocolVersion.encode();
    assert_eq!(bytes, b"RFB 003.008\n".to_vec());
}

#[test]
fn encode_security_none() {
    let bytes = ToServerMessage::Security(RfbSecurityType::NoAuthentication).encode();
    assert_eq!(bytes, vec![1]);
}

#[test]
fn encode_client_init_shared() {
    assert_eq!(ToServerMessage::ClientInit(true).encode(), vec![1]);
    assert_eq!(ToServerMessage::ClientInit(false).encode(), vec![0]);
}

#[test]
fn encode_set_encoding_hextile_raw() {
    let bytes = ToServerMessage::SetEncoding(vec![
        RfbEncodingType::HexTile,
        RfbEncodingType::Raw,
    ])
    .encode();
    assert_eq!(bytes, vec![2, 0, 0, 2, 0, 0, 0, 5, 0, 0, 0, 0]);
}

#[test]
fn encode_frame_update_request_full() {
    let bytes = frame_update_request(false, 640, 480).encode();
    assert_eq!(bytes, vec![3, 0, 0, 0, 0, 0, 2, 0x80, 1, 0xE0]);
}

#[test]
fn encode_frame_update_request_incremental() {
    let bytes = frame_update_request(true, 640, 480).encode();
    assert_eq!(bytes, vec![3, 1, 0, 0, 0, 0, 2, 0x80, 1, 0xE0]);
}

#[test]
fn encode_pointer_event() {
    let bytes = ToServerMessage::PointerEvent(PointerEventArgs {
        button_mask: 1,
        location: Point { x: 100, y: 200 },
    })
    .encode();
    assert_eq!(bytes, vec![5, 1, 0, 100, 0, 200]);
}

#[test]
fn encode_set_cur_text_empty() {
    let bytes = ToServerMessage::SetCurText(Vec::new()).encode();
    assert_eq!(bytes, vec![6, 0, 0, 0, 0, 0, 0, 0]);
}

#[test]
fn encode_set_cur_text_payload() {
    let bytes = ToServerMessage::SetCurText(vec![104, 105]).encode();
    assert_eq!(bytes, vec![6, 0, 0, 0, 0, 0, 0, 2, 104, 105]);
}

#[test]
fn roundtrip_protocol_version() {
    let m = ToServerMessage::ProtocolVersion;
    let decoded = ToServerMessage::decode(ToServerMessageKind::ProtocolVersion, &m.encode());
    assert!(matches!(decoded, Some(ToServerMessage::ProtocolVersion)));
}

#[test]
fn roundtrip_security() {
    let m = ToServerMessage::Security(RfbSecurityType::VncAuthentication);
    let decoded = ToServerMessage::decode(ToServerMessageKind::Security, &m.encode());
    match decoded {
        Some(ToServerMessage::Security(RfbSecurityType::VncAuthentication)) => {}
        other => panic!("unexpected decode: {:?}", other),
    }
}

#[test]
fn roundtrip_client_init() {
    let m = ToServerMessage::ClientInit(true);
    let decoded = ToServerMessage::decode(ToServerMessageKind::ClientInit, &m.encode());
    assert!(matches!(decoded, Some(ToServerMessage::ClientInit(true))));
}

#[test]
fn roundtrip_set_encoding() {
    let m = ToServerMessage::SetEncoding(vec![RfbEncodingType::HexTile, RfbEncodingType::Raw]);
    let decoded = ToServerMessage::decode(ToServerMessageKind::SetEncoding, &m.encode());
    match decoded {
        Some(ToServerMessage::SetEncoding(encs)) => {
            assert_eq!(encs.len(), 2);
            assert!(matches!(encs[0], RfbEncodingType::HexTile));
            assert!(matches!(encs[1], RfbEncodingType::Raw));
        }
        other => panic!("unexpected decode: {:?}", other),
    }
}

#[test]
fn roundtrip_frame_update_request() {
    let m = frame_update_request(true, 1024, 768);
    let decoded = ToServerMessage::decode(ToServerMessageKind::FrameUpdateRequest, &m.encode());
    match decoded {
        Some(ToServerMessage::FrameUpdateRequest(a)) => {
            assert!(a.incremental);
            assert_eq!(a.rect.size.width, 1024);
            assert_eq!(a.rect.size.height, 768);
            assert_eq!(a.rect.location.x, 0);
            assert_eq!(a.rect.location.y, 0);
        }
        other => panic!("unexpected decode: {:?}", other),
    }
}

#[test]
fn roundtrip_pointer_event() {
    let m = ToServerMessage::PointerEvent(PointerEventArgs {
        button_mask: 0,
        location: Point { x: 12, y: 3000 },
    });
    let decoded = ToServerMessage::decode(ToServerMessageKind::PointerEvent, &m.encode());
    match decoded {
        Some(ToServerMessage::PointerEvent(a)) => {
            assert_eq!(a.button_mask, 0);
            assert_eq!(a.location.x, 12);
            assert_eq!(a.location.y, 3000);
        }
        other => panic!("unexpected decode: {:?}", other),
    }
}

#[test]
fn roundtrip_set_cur_text() {
    let m = ToServerMessage::SetCurText(vec![1, 2, 3]);
    let decoded = ToServerMessage::decode(ToServerMessageKind::SetCurText, &m.encode());
    match decoded {
        Some(ToServerMessage::SetCurText(text)) => assert_eq!(text, vec![1, 2, 3]),
        other => panic!("unexpected decode: {:?}", other),
    }
}

#[test]
fn decode_rejects_wrong_tag() {
    assert!(ToServerMessage::decode(ToServerMessageKind::PointerEvent, &[4, 1, 0, 100, 0, 200])
        .is_none());
    assert!(ToServerMessage::decode(ToServerMessageKind::SetEncoding, &[2, 0, 0, 1, 0, 0, 0, 9])
        .is_none());
    assert!(ToServerMessage::decode(ToServerMessageKind::ProtocolVersion, b"RFB 003.003\n")
        .is_none());
}

#[test]
fn encoding_type_codes() {
    assert!(matches!(RfbEncodingType::new(0), Ok(RfbEncodingType::Raw)));
    assert!(matches!(RfbEncodingType::new(5), Ok(RfbEncodingType::HexTile)));
    match RfbEncodingType::new(7) {
        Err(e) => assert!(matches!(e.0, RfbSessionErrorKind::InvalidEncoding(7))),
        Ok(_) => panic!("encoding 7 must be refused"),
    }
}

#[test]
fn from_server_commands_codes() {
    assert!(matches!(FromServerCommands::new(0), Ok(FromServerCommands::FrameUpdate)));
    match FromServerCommands::new(2) {
        Err(e) => assert!(matches!(e.0, RfbSessionErrorKind::InvalidServerCommand(2))),
        Ok(_) => panic!("command 2 must be refused"),
    }
}
