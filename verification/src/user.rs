//! User-managed preference state: what the management API exposes and the
//! reducer reads. One configuration object per resource per status.

use vstd::prelude::*;

use crate::common::{black, Color, Status};

verus! {

/// Both configurations of one resource, one per status.
#[derive(Clone, Debug)]
pub struct ResourceState<T> {
    pub normal: T,
    pub sleep: T,
}

impl<T> ResourceState<T> {
    /// The configuration selected by a status.
    pub open spec fn spec_get(self, status: Status) -> T {
        match status {
            Status::Normal => self.normal,
            Status::Sleep => self.sleep,
        }
    }

    /// Snapshot view of the configuration for one status: always exactly one
    /// of the two whole stored objects.
    pub fn get(&self, status: Status) -> (r: &T)
        ensures
            *r == self.spec_get(status),
    {
        match status {
            Status::Normal => &self.normal,
            Status::Sleep => &self.sleep,
        }
    }

    /// Writable access to the configuration for one status; the other
    /// status's configuration is untouched.
    pub fn get_mut(&mut self, status: Status) -> (r: &mut T)
        ensures
            *r == old(self).spec_get(status),
            status is Normal ==> *final(self) == (ResourceState {
                normal: *final(r),
                sleep: old(self).sleep,
            }),
            status is Sleep ==> *final(self) == (ResourceState {
                normal: old(self).normal,
                sleep: *final(r),
            }),
    {
        match status {
            Status::Normal => &mut self.normal,
            Status::Sleep => &mut self.sleep,
        }
    }
}

/// LED operating mode, re-read fresh on every tick.
#[derive(Copy, Clone, Debug, PartialEq, Eq, Structural)]
pub enum LedMode {
    Off,
    Static,
    Fade,
}

impl Default for LedMode {
    fn default() -> (r: LedMode)
        ensures
            r == LedMode::Off,
    {
        LedMode::Off
    }
}

/// Configuration for static-color LED mode.
#[derive(Copy, Clone, Debug)]
pub struct LedStaticState {
    pub color: Color,
}

impl Default for LedStaticState {
    fn default() -> (r: LedStaticState)
        ensures
            r.color == black(),
    {
        LedStaticState { color: Color::black() }
    }
}

/// Configuration for fade LED mode: the color cycle, saved presets, and the
/// per-segment fade duration in milliseconds.
#[derive(Clone, Debug)]
pub struct LedFadeState {
    pub colors: Vec<Color>,
    pub saved: Vec<(String, Vec<Color>)>,
    pub fade_time_ms: u32,
}

impl LedFadeState {
    /// Range the API enforces before a fade configuration reaches the core:
    /// one to thirty seconds per segment.
    pub open spec fn wf(self) -> bool {
        1000 <= self.fade_time_ms <= 30000
    }
}

/// The validation rule the API boundary applies to a fade duration before
/// it may reach the core: between one and thirty seconds.
pub fn fade_time_valid(fade_time_ms: u32) -> (r: bool)
    ensures
        r == (1000 <= fade_time_ms <= 30000),
{
    1000 <= fade_time_ms && fade_time_ms <= 30000
}

impl Default for LedFadeState {
    fn default() -> (r: LedFadeState)
        ensures
            r.colors@ == Seq::<Color>::empty(),
            r.saved@ == Seq::<(String, Vec<Color>)>::empty(),
            r.fade_time_ms == 5000,
            r.wf(),
    {
        LedFadeState { colors: Vec::new(), saved: Vec::new(), fade_time_ms: 5000 }
    }
}

/// Complete LED configuration for one status.
#[derive(Clone, Debug)]
pub struct LedState {
    pub mode: LedMode,
    pub static_: LedStaticState,
    pub fade: LedFadeState,
}

impl Default for LedState {
    fn default() -> (r: LedState)
        ensures
            r.mode == LedMode::Off,
            r.static_.color == black(),
            r.fade.colors@ == Seq::<Color>::empty(),
            r.fade.fade_time_ms == 5000,
    {
        LedState {
            mode: LedMode::Off,
            static_: LedStaticState::default(),
            fade: LedFadeState::default(),
        }
    }
}

/// LCD operating mode.
#[derive(Copy, Clone, Debug, PartialEq, Eq, Structural)]
pub enum LcdMode {
    Off,
    Clock,
}

impl Default for LcdMode {
    fn default() -> (r: LcdMode)
        ensures
            r == LcdMode::Off,
    {
        LcdMode::Off
    }
}

/// Complete LCD configuration for one status.
#[derive(Copy, Clone, Debug)]
pub struct LcdState {
    pub mode: LcdMode,
    pub color: Color,
}

impl Default for LcdState {
    fn default() -> (r: LcdState)
        ensures
            r.mode == LcdMode::Off,
            r.color == black(),
    {
        LcdState { mode: LcdMode::Off, color: Color::black() }
    }
}

} // verus!
