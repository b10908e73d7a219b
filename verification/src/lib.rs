//! Core of a thin kiosk-style RFB (remote framebuffer) viewer: pixel
//! translation, wire-message encoding, a screen buffer model, the frame
//! decoder and handshake state machines, touch-event translation, the
//! manager query codec, the outbound channel model, and the session
//! supervisor's state transitions.
//!
//! All I/O (sockets, timers, devices) lives outside this crate; the types
//! here consume and produce plain bytes and values.

pub mod channel;
pub mod decoder;
pub mod errors;
pub mod handshake;
pub mod pixel;
pub mod query;
pub mod rfb_messages;
pub mod screen;
pub mod supervisor;
pub mod touch;
pub mod wire;
