use hometoucher::rfb_messages::ToServerMessage;
use hometoucher::touch::{InputEvent, TouchTracker};

fn event_bytes(event_type: u16, code: u16, value: i32) -> Vec<u8> {
    let mut b = Vec::new();
    b.extend_from_slice(&7i32.to_le_bytes()); // seconds, ignored
    b.extend_from_slice(&9i32.to_le_bytes()); // microseconds, ignored
    b.extend_from_slice(&event_type.to_le_bytes());
    b.extend_from_slice(&code.to_le_bytes());
    b.extend_from_slice(&value.to_le_bytes());
    b
}

#[test]
fn from_buffer_reads_little_endian_fields() {
    let ev = InputEvent::from_buffer(&event_bytes(3, 53, 100));
    assert_eq!(ev.seconds, 7);
    assert_eq!(ev.micro_seconds, 9);
    assert_eq!(ev.event_type, 3);
    assert_eq!(ev.code, 53);
    assert_eq!(ev.value, 100);
}

#[test]
fn touch_sequence_translates_to_pointer_events() {
    let mut tracker = TouchTracker::new();
    let mut outbound: Vec<Vec<u8>> = Vec::new();
    let sequence = [
        event_bytes(3, 53, 100), // EV_ABS X = 100
        event_bytes(3, 54, 200), // EV_ABS Y = 200
        event_bytes(1, 330, 1),  // BTN_TOUCH down
        event_bytes(1, 330, 0),  // BTN_TOUCH up
    ];
    for bytes in sequence.iter() {
        let ev = InputEvent::from_buffer(bytes);
        if let Some(args) = tracker.handle_event(&ev) {
            outbound.push(ToServerMessage::PointerEvent(args).encode());
        }
    }
    assert_eq!(outbound.len(), 2);
    assert_eq!(outbound[0], vec![5, 1, 0, 100, 0, 200]);
    assert_eq!(outbound[1], vec![5, 0, 0, 100, 0, 200]);
}

#[test]
fn unrelated_events_are_ignored() {
    let mut tracker = TouchTracker::new();
    let syn = InputEvent::from_buffer(&event_bytes(0, 0, 0));
    assert!(tracker.handle_event(&syn).is_none());
    let other_key = InputEvent::from_buffer(&event_bytes(1, 28, 1));
    assert!(tracker.handle_event(&other_key).is_none());
    // a second touch value (e.g. 2) is neither down nor up
    let strange = InputEvent::from_buffer(&event_bytes(1, 330, 2));
    assert!(tracker.handle_event(&strange).is_none());
    assert_eq!(tracker.x, 0);
    assert_eq!(tracker.y, 0);
}
