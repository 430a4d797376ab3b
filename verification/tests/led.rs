//! Tests for the LED fade engine: the Off/Static/Fade state machine and
//! the time-based interpolation across a color cycle.

use soze::common::Color;
use soze::hardware;
use soze::led::LedResource;
use soze::user::{LedFadeState, LedMode, LedState, LedStaticState};

fn fade_config(colors: Vec<Color>, fade_time_ms: u32) -> LedState {
    LedState {
        mode: LedMode::Fade,
        static_: LedStaticState::default(),
        fade: LedFadeState {
            colors,
            saved: Vec::new(),
            fade_time_ms,
        },
    }
}

#[test]
fn off_mode_outputs_black() {
    let mut engine = LedResource::new(0);
    let mut hw = hardware::LedState {
        color: Color::parse("#ffffff").unwrap(),
    };
    let cfg = LedState {
        mode: LedMode::Off,
        ..LedState::default()
    };
    engine.on_tick(&cfg, &mut hw, 5);
    assert_eq!(hw.color, Color::parse("#000000").unwrap());
}

#[test]
fn static_mode_outputs_configured_color() {
    let mut engine = LedResource::new(0);
    let mut hw = hardware::LedState::default();
    let color = Color::parse("#12ab34").unwrap();
    let cfg = LedState {
        mode: LedMode::Static,
        static_: LedStaticState { color },
        ..LedState::default()
    };
    engine.on_tick(&cfg, &mut hw, 123);
    assert_eq!(hw.color, color);
}

#[test]
fn fade_two_color_cycle() {
    let c0 = Color::parse("#000000").unwrap();
    let c1 = Color::parse("#c86432").unwrap();
    let cfg = fade_config(vec![c0, c1], 2000);
    let mut engine = LedResource::new(0);
    let mut hw = hardware::LedState::default();

    // Segment start: exactly the first color.
    engine.on_tick(&cfg, &mut hw, 0);
    assert_eq!(hw.color, c0);
    assert_eq!(engine.color_index, 0);

    // Halfway: the even blend. 0xc8=200 -> 100, 0x64=100 -> 50, 0x32=50 -> 25.
    engine.on_tick(&cfg, &mut hw, 1000);
    assert_eq!(hw.color, Color::blend(c0, c1, 1000, 2000));
    assert_eq!(hw.color.to_html(), "#643219");

    // Full duration: advanced to the second keyframe, output exactly c1.
    engine.on_tick(&cfg, &mut hw, 2000);
    assert_eq!(engine.color_index, 1);
    assert_eq!(engine.fade_start_ms, 2000);
    assert_eq!(hw.color, c1);
}

#[test]
fn fade_empty_list_outputs_black() {
    let cfg = fade_config(Vec::new(), 2000);
    let mut engine = LedResource::new(0);
    let mut hw = hardware::LedState {
        color: Color::parse("#ffffff").unwrap(),
    };
    for now in [0u64, 700, 1999, 2000, 60000] {
        engine.on_tick(&cfg, &mut hw, now);
        assert_eq!(hw.color, Color::parse("#000000").unwrap());
        // The runtime state resets so a later non-empty list starts cleanly.
        assert_eq!(engine.color_index, 0);
        assert_eq!(engine.fade_start_ms, now);
    }
}

#[test]
fn fade_index_clamped_when_list_shrinks() {
    let c0 = Color::parse("#111111").unwrap();
    let c1 = Color::parse("#222222").unwrap();
    let c2 = Color::parse("#333333").unwrap();
    let mut engine = LedResource::new(0);
    let mut hw = hardware::LedState::default();

    // Advance twice through a three-color cycle: index reaches 2.
    let three = fade_config(vec![c0, c1, c2], 1000);
    engine.on_tick(&three, &mut hw, 1000);
    engine.on_tick(&three, &mut hw, 2000);
    assert_eq!(engine.color_index, 2);

    // The list shrinks to two entries: the stale index is clamped, not
    // indexed out of bounds.
    let two = fade_config(vec![c0, c1], 1000);
    engine.on_tick(&two, &mut hw, 2500);
    assert!(engine.color_index < 2);
    assert_eq!(hw.color, Color::blend(c0, c1, 500, 1000));
}
