//! Verified core of a preference-driven hardware reducer.
//!
//! The library turns user-declared LED and LCD preferences into low-level
//! device state: an RGB color model with a hex codec and exact integer
//! blending, a status resolver, the LED color-fade engine, and the LCD
//! render/diff/encode engine that produces serial command bytes.
//! The surrounding runtime (HTTP API, persistence, transport tasks) is
//! ordinary unverified code that calls into this crate.

pub mod clock;
pub mod color;
pub mod common;
pub mod hardware;
pub mod jumbo;
pub mod lcd;
pub mod led;
pub mod user;
