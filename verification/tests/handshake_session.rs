use hometoucher::errors::RfbSessionErrorKind;
use hometoucher::handshake::Handshake;
use hometoucher::rfb_messages::{
    FrameUpdateRequestArgs, Point, Rect, Size, ToServerMessage,
};

fn same_format_wire_pf() -> Vec<u8> {
    // bpp 16, depth 16, little-endian, true colour, maxima 63/127/63,
    // shifts 10/4/0, three bytes of padding
    vec![16, 16, 0, 1, 0, 63, 0, 127, 0, 63, 10, 4, 0, 0, 0, 0]
}

/// Feed the handshake one chunk of exactly the size it asked for; collect
/// the encoded bytes of any message it wants sent.
fn step(h: &mut Handshake, bytes: &[u8], sent: &mut Vec<Vec<u8>>) {
    assert_eq!(h.needed(), bytes.len());
    if let Some(m) = h.advance(bytes).expect("handshake failed") {
        sent.push(m.encode());
    }
}

#[test]
fn handshake_happy_path() {
    let mut h = Handshake::new();
    let mut sent: Vec<Vec<u8>> = Vec::new();
    step(&mut h, b"RFB 003.008\n", &mut sent);
    step(&mut h, &[1], &mut sent); // one security type offered
    step(&mut h, &[1], &mut sent); // the type byte itself
    step(&mut h, &[0, 0, 0, 0], &mut sent); // security result: ok
    let mut server_init = vec![2, 0x80, 1, 0xE0]; // 640 x 480
    server_init.extend_from_slice(&same_format_wire_pf());
    step(&mut h, &server_init, &mut sent);
    step(&mut h, &[0, 0, 0, 1], &mut sent); // name length 1
    step(&mut h, b"X", &mut sent); // name
    assert!(h.is_done());

    assert_eq!(sent.len(), 4);
    assert_eq!(sent[0], b"RFB 003.008\n".to_vec());
    assert_eq!(sent[1], vec![1]); // security: None
    assert_eq!(sent[2], vec![1]); // client init: shared
    assert_eq!(sent[3], vec![2, 0, 0, 2, 0, 0, 0, 5, 0, 0, 0, 0]); // SetEncodings

    let info = h.into_server_info();
    assert_eq!(info.frame_buffer_width, 640);
    assert_eq!(info.frame_buffer_height, 480);
    assert_eq!(info.name, b"X".to_vec());
    assert!(info.pixel_format.is_same_format());

    // the session then opens with a full-screen, non-incremental request
    let first_request = ToServerMessage::FrameUpdateRequest(FrameUpdateRequestArgs {
        incremental: false,
        rect: Rect {
            location: Point { x: 0, y: 0 },
            size: Size {
                width: info.frame_buffer_width,
                height: info.frame_buffer_height,
            },
        },
    });
    assert_eq!(first_request.encode(), vec![3, 0, 0, 0, 0, 0, 2, 0x80, 1, 0xE0]);
}

#[test]
fn handshake_server_rejection() {
    let mut h = Handshake::new();
    let mut sent: Vec<Vec<u8>> = Vec::new();
    step(&mut h, b"RFB 003.008\n", &mut sent);
    // zero security types: the server explains itself
    step(&mut h, &[0], &mut sent);
    step(&mut h, &[0, 0, 0, 2], &mut sent);
    let r = h.advance(b"no");
    match r {
        Err(e) => match e.0 {
            RfbSessionErrorKind::ServerError(msg) => assert_eq!(msg, b"no".to_vec()),
            other => panic!("unexpected error: {:?}", other),
        },
        Ok(_) => panic!("a zero security count must fail the handshake"),
    }
}

#[test]
fn handshake_security_result_failure() {
    let mut h = Handshake::new();
    let mut sent: Vec<Vec<u8>> = Vec::new();
    step(&mut h, b"RFB 003.008\n", &mut sent);
    step(&mut h, &[1], &mut sent);
    step(&mut h, &[1], &mut sent);
    // nonzero security result, then the reason
    step(&mut h, &[0, 0, 0, 1], &mut sent);
    step(&mut h, &[0, 0, 0, 3], &mut sent);
    let r = h.advance(b"bad");
    match r {
        Err(e) => match e.0 {
            RfbSessionErrorKind::ServerError(msg) => assert_eq!(msg, b"bad".to_vec()),
            other => panic!("unexpected error: {:?}", other),
        },
        Ok(_) => panic!("a nonzero security result must fail the handshake"),
    }
}

#[test]
fn handshake_rejects_oversized_string() {
    let mut h = Handshake::new();
    let mut sent: Vec<Vec<u8>> = Vec::new();
    step(&mut h, b"RFB 003.008\n", &mut sent);
    step(&mut h, &[0], &mut sent);
    let r = h.advance(&[0, 0, 8, 0]); // length 2048
    match r {
        Err(e) => assert!(matches!(e.0, RfbSessionErrorKind::StringTooLong(2048))),
        Ok(_) => panic!("an oversized string must fail the handshake"),
    }
}

#[test]
fn handshake_rejects_unsupported_pixel_format() {
    let mut h = Handshake::new();
    let mut sent: Vec<Vec<u8>> = Vec::new();
    step(&mut h, b"RFB 003.008\n", &mut sent);
    step(&mut h, &[1], &mut sent);
    step(&mut h, &[1], &mut sent);
    step(&mut h, &[0, 0, 0, 0], &mut sent);
    // depth 8 is neither the device's 16-bit format nor 32-bit true colour
    let mut server_init = vec![2, 0x80, 1, 0xE0];
    server_init.extend_from_slice(&[8, 8, 0, 1, 0, 7, 0, 7, 0, 3, 5, 2, 0, 0, 0, 0]);
    let r = h.advance(&server_init);
    match r {
        Err(e) => assert!(matches!(e.0, RfbSessionErrorKind::UnsupportedPixelFormat)),
        Ok(_) => panic!("depth 8 must fail the handshake"),
    }
}
