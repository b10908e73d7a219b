//! Touch input translation: raw Linux-evdev-shaped event records become
//! pointer events for the server. Reading the device is done outside this
//! crate; the tracker here is fed one event at a time.

use vstd::prelude::*;
use crate::rfb_messages::{Point, PointerEventArgs};

verus! {

/// Event type: an absolute axis position.
pub const EV_ABS: u16 = 3;

/// Event type: a key or button.
pub const EV_KEY: u16 = 1;

/// Axis code: multitouch X position.
pub const CODE_ABS_MT_POSITION_X: u16 = 53;

/// Axis code: multitouch Y position.
pub const CODE_ABS_MT_POSITION_Y: u16 = 54;

/// Button code: touch down / up.
pub const CODE_BTN_TOUCH: u16 = 330;

/// One fixed-layout 16-byte input event record:
/// `{seconds: i32, micro: i32, type: u16, code: u16, value: i32}`, all
/// little-endian (the byte order of the target panels).
#[derive(Clone, Copy, Debug, PartialEq, Eq, Structural)]
pub struct InputEvent {
    pub seconds: i32,
    pub micro_seconds: i32,
    pub event_type: u16,
    pub code: u16,
    pub value: i32,
}

/// The 16-bit value two little-endian bytes carry.
pub open spec fn le16_value(b0: u8, b1: u8) -> u16 {
    (b0 + b1 * 0x100) as u16
}

/// The 32-bit value four little-endian bytes carry.
pub open spec fn le32_value(b0: u8, b1: u8, b2: u8, b3: u8) -> u32 {
    (b0 + b1 * 0x100 + b2 * 0x10000 + b3 * 0x1000000) as u32
}

/// The input event recorded in the first 16 bytes of `buffer`.
pub open spec fn spec_event_from(buffer: Seq<u8>) -> InputEvent {
    InputEvent {
        seconds: le32_value(buffer[0], buffer[1], buffer[2], buffer[3]) as i32,
        micro_seconds: le32_value(buffer[4], buffer[5], buffer[6], buffer[7]) as i32,
        event_type: le16_value(buffer[8], buffer[9]),
        code: le16_value(buffer[10], buffer[11]),
        value: le32_value(buffer[12], buffer[13], buffer[14], buffer[15]) as i32,
    }
}

impl InputEvent {
    /// Read one event record from the front of `buffer`.
    pub fn from_buffer(buffer: &[u8]) -> (ev: InputEvent)
        requires
            buffer@.len() >= 16,
        ensures
            ev == spec_event_from(buffer@),
    {
        InputEvent {
            seconds: #[verifier::truncate] ((read_u32_le(buffer, 0)) as i32),
            micro_seconds: #[verifier::truncate] ((read_u32_le(buffer, 4)) as i32),
            event_type: read_u16_le(buffer, 8),
            code: read_u16_le(buffer, 10),
            value: #[verifier::truncate] ((read_u32_le(buffer, 12)) as i32),
        }
    }
}

/// Read a little-endian 16-bit value at offset `i`.
fn read_u16_le(bytes: &[u8], i: usize) -> (n: u16)
    requires
        i + 2 <= bytes@.len(),
    ensures
        n == le16_value(bytes@[i as int], bytes@[i + 1]),
{
    (bytes[i] as u16) + (bytes[i + 1] as u16) * 0x100
}

/// Read a little-endian 32-bit value at offset `i`.
fn read_u32_le(bytes: &[u8], i: usize) -> (n: u32)
    requires
        i + 4 <= bytes@.len(),
    ensures
        n == le32_value(bytes@[i as int], bytes@[i + 1], bytes@[i + 2], bytes@[i + 3]),
{
    (bytes[i] as u32) + (bytes[i + 1] as u32) * 0x100 + (bytes[i + 2] as u32) * 0x10000 + (bytes[i
        + 3] as u32) * 0x1000000
}

/// The last-known touch position, updated by axis events; touch-down and
/// touch-up events emit pointer events at that position.
#[derive(Clone, Copy, Debug, PartialEq, Eq, Structural)]
pub struct TouchTracker {
    pub x: u16,
    pub y: u16,
}

impl TouchTracker {
    /// A tracker with the position at the origin.
    pub fn new() -> (t: TouchTracker)
        ensures
            t.x == 0,
            t.y == 0,
    {
        TouchTracker { x: 0, y: 0 }
    }

    /// Apply one input event: multitouch axis events move the tracked
    /// position, a touch-down (value 1) or touch-up (value 0) emits a
    /// pointer event with button mask 1 resp. 0 at the tracked position,
    /// and every other event is ignored.
    pub fn handle_event(&mut self, ev: &InputEvent) -> (r: Option<PointerEventArgs>)
        ensures
            ev.event_type == EV_ABS && ev.code == CODE_ABS_MT_POSITION_X ==> final(self).x
                == ev.value as u16 && final(self).y == old(self).y && r is None,
            ev.event_type == EV_ABS && ev.code == CODE_ABS_MT_POSITION_Y ==> final(self).y
                == ev.value as u16 && final(self).x == old(self).x && r is None,
            ev.event_type == EV_KEY && ev.code == CODE_BTN_TOUCH && ev.value == 1 ==> *final(self)
                == *old(self) && r == Some(PointerEventArgs {
                button_mask: 1,
                location: Point { x: old(self).x, y: old(self).y },
            }),
            ev.event_type == EV_KEY && ev.code == CODE_BTN_TOUCH && ev.value == 0 ==> *final(self)
                == *old(self) && r == Some(PointerEventArgs {
                button_mask: 0,
                location: Point { x: old(self).x, y: old(self).y },
            }),
            !(ev.event_type == EV_ABS && (ev.code == CODE_ABS_MT_POSITION_X || ev.code
                == CODE_ABS_MT_POSITION_Y)) && !(ev.event_type == EV_KEY && ev.code
                == CODE_BTN_TOUCH && (ev.value == 0 || ev.value == 1)) ==> *final(self) == *old(
                self,
            ) && r is None,
    {
        if ev.event_type == EV_ABS && ev.code == CODE_ABS_MT_POSITION_X {
            self.x = #[verifier::truncate] (ev.value as u16);
            None
        } else if ev.event_type == EV_ABS && ev.code == CODE_ABS_MT_POSITION_Y {
            self.y = #[verifier::truncate] (ev.value as u16);
            None
        } else if ev.event_type == EV_KEY && ev.code == CODE_BTN_TOUCH && ev.value == 1 {
            Some(PointerEventArgs { button_mask: 1, location: Point { x: self.x, y: self.y } })
        } else if ev.event_type == EV_KEY && ev.code == CODE_BTN_TOUCH && ev.value == 0 {
            Some(PointerEventArgs { button_mask: 0, location: Point { x: self.x, y: self.y } })
        } else {
            None
        }
    }
}

} // verus!
