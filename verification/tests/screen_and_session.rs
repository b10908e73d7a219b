use hometoucher::channel::{mux_step, OutboundChannel};
use hometoucher::pixel::{to_device_pixel, DevicePixel, PixelFormat};
use hometoucher::rfb_messages::ToServerMessage;
use hometoucher::screen::Screen;
use hometoucher::supervisor::{next_state, SessionState};

fn pixel_of(screen: &Screen, x: usize, y: usize) -> u16 {
    let img = screen.image_bytes();
    let off = y * screen.bytes_per_row() + 2 * x;
    (img[off] as u16) | ((img[off + 1] as u16) << 8)
}

#[test]
fn device_pixel_from_rgb_packs_565() {
    assert_eq!(DevicePixel::from_rgb(0, 0, 0).value(), 0x0000);
    assert_eq!(DevicePixel::from_rgb(255, 255, 255).value(), 0xFFFF);
    assert_eq!(DevicePixel::from_rgb(0xF8, 0, 0).value(), 0xF800);
    assert_eq!(DevicePixel::from_rgb(0, 0xFC, 0).value(), 0x07E0);
    assert_eq!(DevicePixel::from_rgb(0, 0, 0xF8).value(), 0x001F);
    assert_eq!(DevicePixel::from_value(0x1234).value(), 0x1234);
}

#[test]
fn pixel_format_predicates() {
    let same = PixelFormat {
        bits_per_pixel: 16,
        depth: 16,
        big_endian: false,
        true_color: true,
        red_max: 63,
        green_max: 127,
        blue_max: 63,
        red_shift: 10,
        green_shift: 4,
        blue_shift: 0,
    };
    assert!(same.is_same_format());
    assert!(same.is_supported());
    assert_eq!(same.bytes_per_pixel(), 2);
    let mut wrong_blue_shift = same;
    wrong_blue_shift.blue_shift = 4;
    assert!(!wrong_blue_shift.is_same_format());
    assert!(!wrong_blue_shift.is_supported());
}

#[test]
fn fast_and_generic_paths_agree_on_a_colour() {
    let (r, g, b) = (0xF8u8, 0x44u8, 0x10u8);
    let expected = DevicePixel::from_rgb(r, g, b).value();
    let fast_pf = PixelFormat {
        bits_per_pixel: 16,
        depth: 16,
        big_endian: false,
        true_color: true,
        red_max: 63,
        green_max: 127,
        blue_max: 63,
        red_shift: 10,
        green_shift: 4,
        blue_shift: 0,
    };
    let fast_bytes = [(expected & 0xff) as u8, (expected >> 8) as u8];
    assert_eq!(to_device_pixel(&fast_pf, true, &fast_bytes, 0).value(), expected);
    let generic_pf = PixelFormat {
        bits_per_pixel: 32,
        depth: 32,
        big_endian: false,
        true_color: true,
        red_max: 255,
        green_max: 255,
        blue_max: 255,
        red_shift: 16,
        green_shift: 8,
        blue_shift: 0,
    };
    let generic_bytes = [b, g, r, 0];
    assert_eq!(to_device_pixel(&generic_pf, false, &generic_bytes, 0).value(), expected);
}

#[test]
fn big_endian_generic_path_reads_middle_bytes() {
    let pf = PixelFormat {
        bits_per_pixel: 32,
        depth: 32,
        big_endian: true,
        true_color: true,
        red_max: 255,
        green_max: 255,
        blue_max: 255,
        red_shift: 16,
        green_shift: 8,
        blue_shift: 0,
    };
    // pad, r, g, b on a big-endian server
    let bytes = [0, 0xF8, 0, 0];
    assert_eq!(to_device_pixel(&pf, false, &bytes, 0).value(), 0xF800);
}

#[test]
fn screen_writes_are_clipped_to_the_visible_area() {
    let mut screen = Screen::new(4, 4, 10);
    screen.put_pixel(3, 3, DevicePixel::from_value(0xABCD));
    assert_eq!(pixel_of(&screen, 3, 3), 0xABCD);
    screen.put_pixel(4, 0, DevicePixel::from_value(0xFFFF));
    screen.put_pixel(0, 4, DevicePixel::from_value(0xFFFF));
    assert_eq!(pixel_of(&screen, 3, 0), 0);
    assert_eq!(pixel_of(&screen, 0, 3), 0);
    // padding bytes beyond 2 * xres stay untouched
    assert_eq!(screen.image_bytes()[8], 0);
    assert_eq!(screen.image_bytes()[9], 0);
}

#[test]
fn fill_rect_overruns_are_discarded() {
    let mut screen = Screen::new(4, 4, 8);
    screen.fill_rect(2, 2, 5, 5, DevicePixel::from_value(7));
    for y in 0..4 {
        for x in 0..4 {
            let expected = if x >= 2 && y >= 2 { 7 } else { 0 };
            assert_eq!(pixel_of(&screen, x, y), expected);
        }
    }
}

#[test]
fn display_rgb_image_centers_on_black() {
    let mut screen = Screen::new(6, 6, 12);
    screen.fill_rect(0, 0, 6, 6, DevicePixel::from_value(0x1234));
    // a 2x2 pure-red image
    let rows = [255u8, 0, 0, 255, 0, 0, 255, 0, 0, 255, 0, 0];
    screen.display_rgb_image(2, 2, &rows);
    for y in 0..6 {
        for x in 0..6 {
            let inside = (2..4).contains(&x) && (2..4).contains(&y);
            let expected = if inside { 0xF800 } else { 0 };
            assert_eq!(pixel_of(&screen, x, y), expected, "pixel ({}, {})", x, y);
        }
    }
}

#[test]
fn outbound_channel_is_fifo_with_capacity_ten() {
    let mut ch = OutboundChannel::new();
    assert!(ch.recv().is_none());
    assert!(ch.try_send(ToServerMessage::ClientInit(false)));
    assert!(ch.try_send(ToServerMessage::ClientInit(true)));
    for _ in 0..8 {
        assert!(ch.try_send(ToServerMessage::Terminate));
    }
    // the eleventh send is refused: backpressure
    assert!(!ch.try_send(ToServerMessage::Terminate));
    assert_eq!(ch.len(), 10);
    assert!(matches!(ch.recv(), Some(ToServerMessage::ClientInit(false))));
    assert!(matches!(ch.recv(), Some(ToServerMessage::ClientInit(true))));
}

#[test]
fn mux_stops_on_terminate_and_encodes_the_rest() {
    assert!(mux_step(&ToServerMessage::Terminate).is_none());
    let bytes = mux_step(&ToServerMessage::ClientInit(true)).expect("a real message is encoded");
    assert_eq!(bytes, vec![1]);
}

#[test]
fn supervisor_transition_table() {
    let locate = SessionState::LocateServersManager;
    let query = SessionState::QueryServersManager;
    let connect = SessionState::ConnectToServer;
    let session = SessionState::RfbSession;
    assert!(matches!(next_state(locate, true, false), SessionState::QueryServersManager));
    assert!(matches!(next_state(locate, false, false), SessionState::LocateServersManager));
    assert!(matches!(next_state(query, true, false), SessionState::ConnectToServer));
    assert!(matches!(next_state(query, false, false), SessionState::LocateServersManager));
    assert!(matches!(next_state(connect, true, false), SessionState::RfbSession));
    assert!(matches!(next_state(connect, false, false), SessionState::QueryServersManager));
    assert!(matches!(next_state(connect, false, true), SessionState::ConnectToServer));
    assert!(matches!(next_state(session, true, false), SessionState::ConnectToServer));
    assert!(matches!(next_state(session, false, true), SessionState::ConnectToServer));
}
