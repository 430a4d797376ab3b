//! Hardware-facing state shared between the reducer (producer) and the
//! transport tasks (consumers): the liveness flag, the current LED color,
//! and the LCD byte queue with its atomic drain.

use vstd::prelude::*;

use crate::color::RgbColor;
use crate::common::{black, Color, Status};

verus! {

/// The status a liveness flag selects.
pub open spec fn status_of(is_alive: bool) -> Status {
    if is_alive {
        Status::Normal
    } else {
        Status::Sleep
    }
}

/// Liveness flag written by the monitoring collaborator and read each tick.
#[derive(Copy, Clone, Debug)]
pub struct KeepaliveState {
    pub is_alive: bool,
}

impl KeepaliveState {
    /// Resolve the flag to an operating profile: alive means normal,
    /// anything else means sleep. No hysteresis.
    pub fn to_status(&self) -> (r: Status)
        ensures
            r == status_of(self.is_alive),
    {
        if self.is_alive {
            Status::Normal
        } else {
            Status::Sleep
        }
    }
}

impl Default for KeepaliveState {
    fn default() -> (r: KeepaliveState)
        ensures
            !r.is_alive,
    {
        KeepaliveState { is_alive: false }
    }
}

/// Output of the LED reducer: the single current color, overwritten each tick.
#[derive(Copy, Clone, Debug)]
pub struct LedState {
    pub color: Color,
}

impl Default for LedState {
    fn default() -> (r: LedState)
        ensures
            r.color == black(),
    {
        LedState { color: Color::black() }
    }
}

/// Output of the LCD reducer: an append-only queue of encoded command bytes.
/// The reducer appends; only the transport consumer drains.
#[derive(Debug)]
pub struct LcdState {
    pub message_queue: Vec<u8>,
}

impl LcdState {
    /// Atomically hand every queued byte to the consumer, leaving the queue
    /// empty, so no append can fall between the read and the clear.
    pub fn drain(&mut self) -> (r: Vec<u8>)
        ensures
            r@ == old(self).message_queue@,
            final(self).message_queue@ == Seq::<u8>::empty(),
    {
        let mut out: Vec<u8> = Vec::new();
        core::mem::swap(&mut self.message_queue, &mut out);
        out
    }
}

impl Default for LcdState {
    fn default() -> (r: LcdState)
        ensures
            r.message_queue@ == Seq::<u8>::empty(),
    {
        LcdState { message_queue: Vec::new() }
    }
}

/// Combined hardware state for deployments that share one store: the
/// liveness flag, the LED color, and the LCD command queue.
#[derive(Debug)]
pub struct HardwareState {
    pub keepalive: bool,
    pub led_color: RgbColor,
    pub lcd_command_queue: Vec<u8>,
}

impl Default for HardwareState {
    fn default() -> (r: HardwareState)
        ensures
            !r.keepalive,
            r.led_color == (RgbColor { red: 0, green: 0, blue: 0 }),
            r.lcd_command_queue@ == Seq::<u8>::empty(),
    {
        HardwareState {
            keepalive: false,
            led_color: RgbColor::default(),
            lcd_command_queue: Vec::new(),
        }
    }
}

} // verus!
