use hometoucher::decoder::{DecodeAction, FrameDecoder, HexTileDecoder};
use hometoucher::errors::RfbSessionErrorKind;
use hometoucher::pixel::{DevicePixel, PixelFormat};
use hometoucher::rfb_messages::{Point, Rect, Size};
use hometoucher::screen::Screen;

fn same_format_pf() -> PixelFormat {
    PixelFormat {
        bits_per_pixel: 16,
        depth: 16,
        big_endian: false,
        true_color: true,
        red_max: 63,
        green_max: 127,
        blue_max: 63,
        red_shift: 10,
        green_shift: 4,
        blue_shift: 0,
    }
}

fn pixel_of(screen: &Screen, x: usize, y: usize) -> u16 {
    let img = screen.image_bytes();
    let off = y * screen.bytes_per_row() + 2 * x;
    (img[off] as u16) | ((img[off + 1] as u16) << 8)
}

/// Feed the decoder one chunk of exactly the size it asked for.
fn step(d: &mut FrameDecoder, screen: &mut Screen, bytes: &[u8]) -> DecodeAction {
    assert_eq!(d.needed(), bytes.len());
    d.advance(bytes, screen).expect("advance failed")
}

#[test]
fn raw_two_by_one_same_format() {
    let mut screen = Screen::new(4, 4, 8);
    let mut d = FrameDecoder::new(same_format_pf(), &screen);
    assert!(matches!(step(&mut d, &mut screen, &[0, 0]), DecodeAction::Carry));
    assert!(matches!(step(&mut d, &mut screen, &[0, 1]), DecodeAction::Carry));
    // rectangle (0,0) 2x1, encoding 0 (Raw)
    assert!(matches!(
        step(&mut d, &mut screen, &[0, 0, 0, 0, 0, 2, 0, 1, 0, 0, 0, 0]),
        DecodeAction::Carry
    ));
    assert!(matches!(
        step(&mut d, &mut screen, &[0x34, 0x12, 0x78, 0x56]),
        DecodeAction::FrameComplete
    ));
    assert_eq!(&screen.image_bytes()[0..4], &[0x34, 0x12, 0x78, 0x56]);
    // nothing else was touched
    assert!(screen.image_bytes()[4..].iter().all(|&b| b == 0));
}

#[test]
fn hextile_single_tile_background_only() {
    let mut screen = Screen::new(32, 32, 64);
    let mut d = FrameDecoder::new(same_format_pf(), &screen);
    step(&mut d, &mut screen, &[0, 0]);
    step(&mut d, &mut screen, &[0, 1]);
    // rectangle (0,0) 16x16, encoding 5 (HexTile)
    step(&mut d, &mut screen, &[0, 0, 0, 0, 0, 16, 0, 16, 0, 0, 0, 5]);
    // mask: BackgroundSpecified
    step(&mut d, &mut screen, &[0x02]);
    // background pixel: red 0xF800 little-endian, no subrects
    let a = step(&mut d, &mut screen, &[0x00, 0xF8]);
    assert!(matches!(a, DecodeAction::FrameComplete));
    for y in 0..16 {
        for x in 0..16 {
            assert_eq!(pixel_of(&screen, x, y), 0xF800);
        }
    }
    assert_eq!(pixel_of(&screen, 16, 0), 0);
    assert_eq!(pixel_of(&screen, 0, 16), 0);
}

#[test]
fn hextile_uncolored_subrect_uses_black_foreground() {
    let mut screen = Screen::new(32, 32, 64);
    let mut d = FrameDecoder::new(same_format_pf(), &screen);
    step(&mut d, &mut screen, &[0, 0]);
    step(&mut d, &mut screen, &[0, 1]);
    step(&mut d, &mut screen, &[0, 0, 0, 0, 0, 16, 0, 16, 0, 0, 0, 5]);
    // mask: BackgroundSpecified | AnySubrects
    step(&mut d, &mut screen, &[0x0A]);
    // background blue 0x001F little-endian, one subrect
    step(&mut d, &mut screen, &[0x1F, 0x00, 1]);
    // uncolored subrect at (1,2), size 3x4; foreground is still black
    let a = step(&mut d, &mut screen, &[0x12, 0x23]);
    assert!(matches!(a, DecodeAction::FrameComplete));
    for y in 0..16 {
        for x in 0..16 {
            let inside = (1..4).contains(&x) && (2..6).contains(&y);
            let expected = if inside { 0x0000 } else { 0x001F };
            assert_eq!(pixel_of(&screen, x, y), expected, "pixel ({}, {})", x, y);
        }
    }
}

#[test]
fn hextile_colored_subrect_and_sticky_foreground() {
    let mut screen = Screen::new(48, 16, 96);
    let mut d = FrameDecoder::new(same_format_pf(), &screen);
    step(&mut d, &mut screen, &[0, 0]);
    step(&mut d, &mut screen, &[0, 1]);
    // rectangle (0,0) 48x16: three tiles in one row
    step(&mut d, &mut screen, &[0, 0, 0, 0, 0, 48, 0, 16, 0, 0, 0, 5]);
    // tile 0: ForegroundSpecified | AnySubrects, foreground green 0x07E0
    step(&mut d, &mut screen, &[0x0C]);
    step(&mut d, &mut screen, &[0xE0, 0x07, 1]);
    step(&mut d, &mut screen, &[0x00, 0x00]); // 1x1 subrect at (0,0)
    assert_eq!(pixel_of(&screen, 0, 0), 0x07E0);
    // tile 1: no ForegroundSpecified; its uncolored subrect reuses green
    step(&mut d, &mut screen, &[0x08]);
    step(&mut d, &mut screen, &[1]);
    step(&mut d, &mut screen, &[0x00, 0x00]);
    assert_eq!(pixel_of(&screen, 16, 0), 0x07E0);
    // tile 2: colored subrect carries its own pixel
    step(&mut d, &mut screen, &[0x18]);
    step(&mut d, &mut screen, &[1]);
    let a = step(&mut d, &mut screen, &[0x1F, 0x00, 0x00, 0x00]);
    assert!(matches!(a, DecodeAction::FrameComplete));
    assert_eq!(pixel_of(&screen, 32, 0), 0x001F);
}

#[test]
fn hextile_raw_tile() {
    let mut screen = Screen::new(4, 4, 8);
    let mut d = FrameDecoder::new(same_format_pf(), &screen);
    step(&mut d, &mut screen, &[0, 0]);
    step(&mut d, &mut screen, &[0, 1]);
    // rectangle (1,1) 2x2, HexTile: a single edge tile of 2x2
    step(&mut d, &mut screen, &[0, 1, 0, 1, 0, 2, 0, 2, 0, 0, 0, 5]);
    // mask: Raw tile
    step(&mut d, &mut screen, &[0x01]);
    let a = step(&mut d, &mut screen, &[1, 0, 2, 0, 3, 0, 4, 0]);
    assert!(matches!(a, DecodeAction::FrameComplete));
    assert_eq!(pixel_of(&screen, 1, 1), 1);
    assert_eq!(pixel_of(&screen, 2, 1), 2);
    assert_eq!(pixel_of(&screen, 1, 2), 3);
    assert_eq!(pixel_of(&screen, 2, 2), 4);
    assert_eq!(pixel_of(&screen, 0, 0), 0);
}

#[test]
fn unknown_encoding_is_fatal() {
    let mut screen = Screen::new(4, 4, 8);
    let mut d = FrameDecoder::new(same_format_pf(), &screen);
    step(&mut d, &mut screen, &[0, 0]);
    step(&mut d, &mut screen, &[0, 1]);
    let r = d.advance(&[0, 0, 0, 0, 0, 2, 0, 1, 0, 0, 0, 7], &mut screen);
    match r {
        Err(e) => assert!(matches!(e.0, RfbSessionErrorKind::InvalidEncoding(7))),
        Ok(_) => panic!("encoding 7 must end the session"),
    }
}

#[test]
fn unknown_command_is_fatal() {
    let mut screen = Screen::new(4, 4, 8);
    let mut d = FrameDecoder::new(same_format_pf(), &screen);
    let r = d.advance(&[0, 9], &mut screen);
    match r {
        Err(e) => assert!(matches!(e.0, RfbSessionErrorKind::InvalidServerCommand(9))),
        Ok(_) => panic!("command 9 must end the session"),
    }
}

#[test]
fn out_of_bounds_rectangle_is_fatal() {
    let mut screen = Screen::new(4, 4, 8);
    let mut d = FrameDecoder::new(same_format_pf(), &screen);
    step(&mut d, &mut screen, &[0, 0]);
    step(&mut d, &mut screen, &[0, 1]);
    // 2x1 rectangle at (3,0) overruns a 4-pixel-wide screen
    let r = d.advance(&[0, 3, 0, 0, 0, 2, 0, 1, 0, 0, 0, 0], &mut screen);
    match r {
        Err(e) => assert!(matches!(e.0, RfbSessionErrorKind::RectangleOutOfBounds)),
        Ok(_) => panic!("an out-of-bounds rectangle must end the session"),
    }
    assert!(screen.image_bytes().iter().all(|&b| b == 0));
}

#[test]
fn empty_frame_update_completes() {
    let mut screen = Screen::new(4, 4, 8);
    let mut d = FrameDecoder::new(same_format_pf(), &screen);
    step(&mut d, &mut screen, &[0, 0]);
    let a = step(&mut d, &mut screen, &[0, 0]);
    assert!(matches!(a, DecodeAction::FrameComplete));
}

#[test]
fn generic_path_translates_32_bit_pixels() {
    let mut pf = same_format_pf();
    pf.bits_per_pixel = 32;
    pf.depth = 32;
    pf.red_max = 255;
    pf.green_max = 255;
    pf.blue_max = 255;
    pf.red_shift = 16;
    pf.green_shift = 8;
    pf.blue_shift = 0;
    let mut screen = Screen::new(4, 4, 8);
    let mut d = FrameDecoder::new(pf, &screen);
    step(&mut d, &mut screen, &[0, 0]);
    step(&mut d, &mut screen, &[0, 1]);
    step(&mut d, &mut screen, &[0, 0, 0, 0, 0, 1, 0, 1, 0, 0, 0, 0]);
    // little-endian b, g, r, pad: pure red
    let a = step(&mut d, &mut screen, &[0x00, 0x00, 0xFF, 0x00]);
    assert!(matches!(a, DecodeAction::FrameComplete));
    assert_eq!(pixel_of(&screen, 0, 0), 0xF800);
}

#[test]
fn fill_subrect_writes_relative_to_the_tile() {
    let mut screen = Screen::new(8, 8, 16);
    let tile = Rect {
        location: Point { x: 2, y: 2 },
        size: Size { width: 4, height: 4 },
    };
    let sub = Rect {
        location: Point { x: 1, y: 1 },
        size: Size { width: 2, height: 2 },
    };
    HexTileDecoder::fill_subrect(&mut screen, &tile, &sub, DevicePixel::from_value(0x0F0F));
    for y in 0..8 {
        for x in 0..8 {
            let inside = (3..5).contains(&x) && (3..5).contains(&y);
            let expected = if inside { 0x0F0F } else { 0 };
            assert_eq!(pixel_of(&screen, x, y), expected, "pixel ({}, {})", x, y);
        }
    }
}
