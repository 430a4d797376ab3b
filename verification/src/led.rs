//! The LED fade engine: per-tick color computation for the Off / Static /
//! Fade state machine, with time-based interpolation across an ordered
//! color list.

use vstd::prelude::*;

use crate::common::{black, spec_blend, Color};
use crate::hardware;
use crate::user::{LedMode, LedState};

verus! {

/// Private runtime state of the fade engine: the current keyframe index and
/// the start of the current blend segment, in milliseconds of a monotonic
/// clock. Created at engine start, mutated every tick, never user-visible.
#[derive(Copy, Clone, Debug, PartialEq, Eq, Structural)]
pub struct LedResource {
    pub color_index: usize,
    pub fade_start_ms: u64,
}

/// Runtime state after one fade-mode tick over `colors`: reset on an empty
/// list, advance (modulo the current list length) when the segment has run
/// its duration, otherwise unchanged but for index clamping.
pub open spec fn fade_runtime_step(
    pre: LedResource,
    colors: Seq<Color>,
    fade_ms: int,
    now: int,
) -> LedResource {
    if colors.len() == 0 {
        LedResource { color_index: 0, fade_start_ms: now as u64 }
    } else {
        let n = colors.len() as int;
        let i0 = pre.color_index as int % n;
        if now - pre.fade_start_ms >= fade_ms {
            LedResource { color_index: ((i0 + 1) % n) as usize, fade_start_ms: now as u64 }
        } else {
            LedResource { color_index: i0 as usize, fade_start_ms: pre.fade_start_ms }
        }
    }
}

/// Output color of one fade-mode tick: black on an empty list, else the
/// blend between the current keyframe and its successor, biased by the time
/// already spent in the segment.
pub open spec fn fade_color(pre: LedResource, colors: Seq<Color>, fade_ms: int, now: int) -> Color {
    if colors.len() == 0 {
        black()
    } else {
        let n = colors.len() as int;
        let post = fade_runtime_step(pre, colors, fade_ms, now);
        let i = post.color_index as int;
        let elapsed = now - post.fade_start_ms;
        spec_blend(colors[i], colors[(i + 1) % n], elapsed, fade_ms)
    }
}

/// Runtime state after one tick, whatever the mode: only fade mode touches it.
pub open spec fn led_tick_step(pre: LedResource, cfg: LedState, now: int) -> LedResource {
    match cfg.mode {
        LedMode::Off => pre,
        LedMode::Static => pre,
        LedMode::Fade => fade_runtime_step(pre, cfg.fade.colors@, cfg.fade.fade_time_ms as int, now),
    }
}

/// Output color of one tick, whatever the mode.
pub open spec fn led_tick_color(pre: LedResource, cfg: LedState, now: int) -> Color {
    match cfg.mode {
        LedMode::Off => black(),
        LedMode::Static => cfg.static_.color,
        LedMode::Fade => fade_color(pre, cfg.fade.colors@, cfg.fade.fade_time_ms as int, now),
    }
}

impl LedResource {
    /// A fresh engine: first keyframe, segment starting now.
    pub fn new(now_ms: u64) -> (r: LedResource)
        ensures
            r.color_index == 0,
            r.fade_start_ms == now_ms,
    {
        LedResource { color_index: 0, fade_start_ms: now_ms }
    }

    /// One scheduler tick: read the mode fresh from the configuration and
    /// overwrite the hardware color. `now_ms` is the current reading of the
    /// monotonic clock that also timestamped `fade_start_ms`.
    pub fn on_tick(
        &mut self,
        user_state: &LedState,
        hardware_state: &mut hardware::LedState,
        now_ms: u64,
    )
        requires
            old(self).fade_start_ms <= now_ms,
            user_state.mode is Fade ==> user_state.fade.wf(),
        ensures
            *final(self) == led_tick_step(*old(self), *user_state, now_ms as int),
            final(hardware_state).color == led_tick_color(*old(self), *user_state, now_ms as int),
    {
        match user_state.mode {
            LedMode::Off => {
                hardware_state.color = Color::black();
            },
            LedMode::Static => {
                hardware_state.color = user_state.static_.color;
            },
            LedMode::Fade => {
                let colors = &user_state.fade.colors;
                let fade_ms = user_state.fade.fade_time_ms;
                let n = colors.len();
                if n == 0 {
                    // Reset so a later non-empty list starts a clean segment.
                    self.color_index = 0;
                    self.fade_start_ms = now_ms;
                    hardware_state.color = Color::black();
                } else {
                    // The list may have shrunk since the index was stored:
                    // clamp before every use.
                    let mut index = self.color_index % n;
                    let elapsed64: u64 = now_ms - self.fade_start_ms;
                    let elapsed: u32;
                    if elapsed64 >= fade_ms as u64 {
                        index = (index + 1) % n;
                        self.fade_start_ms = now_ms;
                        elapsed = 0;
                    } else {
                        elapsed = elapsed64 as u32;
                    }
                    self.color_index = index;
                    let next = (index + 1) % n;
                    hardware_state.color = Color::blend(colors[index], colors[next], elapsed,
                        fade_ms);
                }
            },
        }
    }
}

/// With an empty color list the fade engine outputs black, whatever the
/// runtime state, duration, and elapsed time.
pub proof fn lemma_fade_empty_is_black(pre: LedResource, fade_ms: int, now: int)
    ensures
        fade_color(pre, Seq::<Color>::empty(), fade_ms, now) == black(),
{
}

/// A fresh engine cycling over two colors: anywhere inside the first
/// segment the output is the exact blend biased by the elapsed time (so the
/// first color itself at elapsed zero), and when the segment has run its
/// full duration the engine advances to the second keyframe and outputs the
/// second color exactly.
pub proof fn lemma_fade_two_color_cycle(c0: Color, c1: Color, start: u64, dur: u32, e: int)
    requires
        0 < dur,
        0 <= e < dur,
        start + dur <= u64::MAX,
    ensures
        ({
            let engine = LedResource { color_index: 0, fade_start_ms: start };
            let colors = seq![c0, c1];
            &&& fade_runtime_step(engine, colors, dur as int, start as int + e) == engine
            &&& fade_color(engine, colors, dur as int, start as int + e) == spec_blend(
                c0,
                c1,
                e,
                dur as int,
            )
            &&& fade_color(engine, colors, dur as int, start as int) == c0
            &&& fade_runtime_step(engine, colors, dur as int, start as int + dur) == (LedResource {
                color_index: 1,
                fade_start_ms: (start + dur) as u64,
            })
            &&& fade_color(engine, colors, dur as int, start as int + dur) == c1
        }),
{
    let engine = LedResource { color_index: 0, fade_start_ms: start };
    let colors = seq![c0, c1];
    assert(colors[0] == c0 && colors[1] == c1);
    let mid = fade_runtime_step(engine, colors, dur as int, start as int + e);
    assert(colors.len() == 2);
    assert((start as int + e) - engine.fade_start_ms < dur as int);
    assert(engine.color_index as int % (colors.len() as int) == 0);
    assert(mid == engine);
    let advanced = fade_runtime_step(engine, colors, dur as int, start as int + dur);
    assert(advanced.color_index == 1 && advanced.fade_start_ms == (start + dur) as u64);
    assert(advanced == (LedResource { color_index: 1, fade_start_ms: (start + dur) as u64 }));
    crate::common::lemma_blend_endpoints(c0, c1, dur as int);
    crate::common::lemma_blend_endpoints(c1, c0, dur as int);
}

} // verus!
