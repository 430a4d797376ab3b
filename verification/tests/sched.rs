//! Tests for the scheduler building blocks: status resolution, per-status
//! configuration selection, and the atomic-snapshot property of reads
//! under simulated interleaved writes and ticks.

use soze::common::{Color, Status};
use soze::hardware::KeepaliveState;
use soze::user::{LedFadeState, LedMode, LedState, LedStaticState, ResourceState};

#[test]
fn liveness_resolves_to_status() {
    assert_eq!(
        KeepaliveState { is_alive: true }.to_status(),
        Status::Normal
    );
    assert_eq!(
        KeepaliveState { is_alive: false }.to_status(),
        Status::Sleep
    );
}

#[test]
fn resource_state_selects_by_status() {
    let mut store = ResourceState {
        normal: 1u32,
        sleep: 2u32,
    };
    assert_eq!(*store.get(Status::Normal), 1);
    assert_eq!(*store.get(Status::Sleep), 2);
    *store.get_mut(Status::Sleep) = 9;
    assert_eq!(*store.get(Status::Normal), 1);
    assert_eq!(*store.get(Status::Sleep), 9);
}

/// A configuration whose fields are correlated: the fade time encodes the
/// static color's red channel. A torn (half-written) snapshot would break
/// the correlation.
fn correlated_config(seed: u8) -> LedState {
    LedState {
        mode: LedMode::Static,
        static_: LedStaticState {
            color: Color {
                red: seed,
                green: seed,
                blue: seed,
            },
        },
        fade: LedFadeState {
            colors: Vec::new(),
            saved: Vec::new(),
            fade_time_ms: 1000 + seed as u32,
        },
    }
}

fn snapshot_is_consistent(cfg: &LedState) -> bool {
    cfg.fade.fade_time_ms == 1000 + cfg.static_.color.red as u32
        && cfg.static_.color.green == cfg.static_.color.red
        && cfg.static_.color.blue == cfg.static_.color.red
}

#[test]
fn ticks_read_atomic_snapshots_under_interleaved_writes() {
    let mut store = ResourceState {
        normal: correlated_config(0),
        sleep: correlated_config(100),
    };

    // Interleave config writes for both statuses with reducer ticks; every
    // read must observe one whole previously-written configuration, never
    // a mix of two writes.
    for round in 0u8..100 {
        let status = if round % 2 == 0 {
            Status::Normal
        } else {
            Status::Sleep
        };
        // The write replaces the selected configuration as one unit.
        *store.get_mut(status) = correlated_config(round);
        // A tick for each resource takes its snapshot.
        for s in [Status::Normal, Status::Sleep] {
            let snapshot = store.get(s);
            assert!(snapshot_is_consistent(snapshot));
        }
    }
}
