//! The host's decisions, its telemetry and its settings.

use nvstereo3d::edid::Connector;
use nvstereo3d::host::config::{
    delay_to_write, fire_lead_us, preferred_output, profile_lead_us, requested_connector,
    stall_hold_after_freerun_slots, unless_empty,
};
use nvstereo3d::host::eye_queue::DropDiagnostic;
use nvstereo3d::host::grid::{floored_next_boundary, stamped_pin};
use nvstereo3d::host::session::{ButtonAction, Fire, Session, LOCK_MIN_FIRE_GAP_US};
use nvstereo3d::host::stats::{DrainWindow, StreamStats};
use nvstereo3d::host::target::{resolve_published_connector, Target};
use nvstereo3d::nvstusb::drm::{DrmVblank, VblankClock};
use nvstereo3d::shm::{Swap, EYE_LEFT, EYE_RIGHT};

const P: u64 = 8_333;

fn anchor() -> DrmVblank {
    let clock = VblankClock { modern: false, crtc_id: 0 };
    let mut d = DrmVblank::new(0, clock, 0, 0);
    assert!(d.bind(1_000_000 - P, 1_000_000, Some("DP-1".to_string())));
    d
}

fn swap(eye: u32) -> Swap {
    Swap { eye, t_us: Some(1), seq: 0 }
}

fn connector(name: &str, product: u8) -> Connector {
    let mut edid = vec![0u8; 128];
    edid[8] = 0x04;
    edid[9] = 0x69;
    edid[10] = product;
    Connector {
        name: name.to_string(),
        edid: Some(edid),
        status: Some("connected".to_string()),
    }
}

#[test]
fn a_steady_game_fires_an_eye_a_slot() {
    let mut s = Session::default();
    let mut d = anchor();
    assert!(s.observe_mode(true));
    assert!(!s.observe_mode(true));
    let mut fired = Vec::new();
    for i in 0..20u64 {
        let vblank = 1_000_000 + i * P;
        let clock = vblank + 200;
        s.take_drain(&[], Some(&d), clock);
        if i > 0 {
            assert!(s.observe_liveness(clock));
        }
        s.begin_slot(&mut d, vblank);
        let eye = if i % 2 == 0 { EYE_LEFT } else { EYE_RIGHT };
        s.take_late_drain(&[swap(eye)], &d, vblank, clock);
        let fire = s.arm(&mut d, 1000, clock);
        if let Some(f) = fire {
            assert_eq!(f.target, vblank + P);
            assert_eq!(f.not_before, Some(vblank + P - 4_000));
            assert_eq!(s.sent(f, P, f.not_before.unwrap(), false), None);
            fired.push(f.right);
        }
        d.frame_end(Some(vblank), clock);
    }
    assert_eq!(fired.len(), 20);
    assert!(fired.windows(2).all(|w| w[0] != w[1]));
    assert!(!s.pending.last_was_freerun);
}

#[test]
fn packets_keep_their_distance() {
    let mut s = Session::default();
    let mut d = anchor();
    s.begin_slot(&mut d, 1_000_000);
    s.take_late_drain(&[swap(EYE_LEFT)], &d, 1_000_000, 1_000_100);
    s.last_fire = Some(1_000_000 + P - 4_000 - 100);
    let f = s.arm(&mut d, 1000, 1_000_100).unwrap();
    assert_eq!(f.not_before, Some(1_000_000 + P - 4_100 + LOCK_MIN_FIRE_GAP_US));
}

#[test]
fn a_stopped_game_leaves_no_phase_behind() {
    let mut s = Session::default();
    let d = anchor();
    assert!(!s.observe_liveness(5_000_000));
    s.take_drain(&[swap(EYE_RIGHT), swap(EYE_LEFT)], Some(&d), 5_000_000);
    assert!(s.observe_liveness(5_300_000));
    assert!(s.force_grid_resync);
    assert!(s.pending.has_eye());
    assert!(!s.observe_liveness(5_300_001));
    assert!(!s.pending.has_eye());
    assert_eq!(s.fire_unpaced(), None);
}

#[test]
fn without_a_grid_eyes_go_out_at_once() {
    let mut s = Session::default();
    s.take_drain(&[swap(EYE_RIGHT), swap(EYE_LEFT)], None, 10);
    assert_eq!(s.fire_unpaced(), Some(true));
    s.sent_unpaced(true, 10);
    assert_eq!(s.fire_unpaced(), Some(false));
    s.manual_invert = true;
    assert_eq!(s.fire_unpaced(), Some(true));
}

#[test]
fn the_button_counts_once_for_a_press() {
    let mut s = Session::default();
    assert_eq!(s.observe_button(true, false), ButtonAction::SwappedOnWire(true));
    assert_eq!(s.observe_button(true, false), ButtonAction::Nothing);
    assert_eq!(s.observe_button(false, false), ButtonAction::Nothing);
    assert_eq!(s.observe_button(true, false), ButtonAction::SwappedOnWire(false));
    s.observe_button(false, false);
    s.observe_mode(true);
    assert_eq!(s.observe_button(true, false), ButtonAction::SetRendererFlag(true));
    s.observe_button(false, true);
    assert_eq!(s.observe_button(true, true), ButtonAction::SetRendererFlag(false));
    assert!(!s.manual_invert);
}

#[test]
fn an_inverted_view_is_turned_by_the_renderer() {
    let mut s = Session::default();
    s.observe_mode(true);
    let fire = |i: u64, right: bool| Fire {
        right,
        target: 1_000_000 + i * P,
        not_before: None,
    };
    for i in 0..260u64 {
        assert_eq!(s.sent(fire(i, i % 2 == 0), P, i * P, false), None);
    }
    assert_eq!(s.sent(fire(260, false), P, 260 * P, false), Some(true));
    assert_eq!(s.sent(fire(262, false), P, 262 * P, true), Some(false));
    s.move_head();
    assert_eq!(s.last_vblank, None);
    assert_eq!(s.sent(fire(264, false), P, 264 * P, true), None);
}

#[test]
fn a_stream_is_judged_once_a_second() {
    let mut s = StreamStats::default();
    let mut w = DrainWindow::default();
    let drops = DropDiagnostic { overdue: 0, coalesced: 0, freerun: 0 };
    let mut line = None;
    for i in 0..122u64 {
        let now = i * P;
        s.record(i % 2 == 0, now);
        w.count_drain(1);
        if let Some(l) = s.tick(&mut w, drops, "phase-pinned", now) {
            line = Some(l);
        }
    }
    let line = line.unwrap();
    assert!(line.contains("8333"), "{line}");
    assert!(line.contains("phase-pinned"), "{line}");
    assert!(w.swaps < 122);
}

#[test]
fn the_period_of_a_stream_is_its_median() {
    let mut s = StreamStats::default();
    assert_eq!(s.median_period_us(), 0);
    s.record(false, 1_000);
    assert_eq!(s.median_period_us(), 0);
    let mut now = 1_000;
    let mut medians = Vec::new();
    for (i, period) in [9_500u64, 8_000, 8_000, 8_100, 100].into_iter().enumerate() {
        now += period;
        s.record(i % 2 == 0, now);
        medians.push(s.median_period_us());
    }
    assert_eq!(medians, vec![9_500, 9_500, 8_000, 8_100, 8_000]);
    assert_eq!(s.periods, vec![9_500, 8_000, 8_000, 8_100, 100]);
    let drops = DropDiagnostic { overdue: 0, coalesced: 0, freerun: 0 };
    let line = s.tick(&mut DrainWindow::default(), drops, "fifo", now).unwrap();
    assert!(line.contains("period 100-9500us (avg 8000)"), "{line}");
    assert_eq!(s.median_period_us(), 0);
}

#[test]
fn settings_have_defaults() {
    assert_eq!(fire_lead_us(None), 3100);
    assert_eq!(fire_lead_us(Some("250")), 250);
    assert_eq!(fire_lead_us(Some(" 250")), 3100);
    assert_eq!(fire_lead_us(Some("+7")), 7);
    assert_eq!(fire_lead_us(Some("-7")), 3100);
    assert_eq!(fire_lead_us(Some("18446744073709551616")), 3100);
    assert_eq!(stall_hold_after_freerun_slots(None), 12);
    assert_eq!(stall_hold_after_freerun_slots(Some("0")), 0);
    assert_eq!(stall_hold_after_freerun_slots(Some("4294967296")), 12);
    assert_eq!(profile_lead_us(None, 12), 12);
    assert_eq!(profile_lead_us(Some("9"), 12), 9);
    assert_eq!(requested_connector(Some(" DP-1\n")), Some("DP-1".to_string()));
    assert_eq!(requested_connector(Some("  ")), None);
    assert_eq!(requested_connector(None), None);
    assert_eq!(preferred_output(Some(" dp-1\n")), Some("DP-1".to_string()));
    assert_eq!(preferred_output(Some("  ")), None);
    assert_eq!(preferred_output(None), None);
    assert_eq!(unless_empty(String::new()), None);
    assert_eq!(delay_to_write(0, 3000), Some(3000));
    assert_eq!(delay_to_write(3000, 3000), None);
    assert_eq!(delay_to_write(3000, 0), None);
}

#[test]
fn published_values_name_connectors() {
    let entries = vec![connector("card0-DP-1", 1), connector("card0-DP-2", 2)];
    let r = |v: &str| resolve_published_connector(v, &entries);
    assert_eq!(r(" dp-2 "), Some("dp-2".to_string()));
    assert_eq!(r("ACI_0002"), Some("DP-2".to_string()));
    assert_eq!(r("ACI_0003"), None);
    assert_eq!(r("2"), None);
    assert_eq!(r("  "), None);
}

#[test]
fn the_anchor_moves_when_the_window_does() {
    let entries = vec![connector("card0-DP-1", 1), connector("card0-DP-2", 2)];
    let mut t = Target::new(Some("DP-1".to_string()));
    assert_eq!(t.observe("dp-1", &entries), None);
    assert_eq!(t.observe("ACI_0002", &entries), Some("DP-2".to_string()));
    assert_eq!(t.observe("ACI_0002", &entries), None);
    t.rebound("DP-2".to_string(), None);
    assert_eq!(t.connector.as_deref(), Some("DP-2"));
    assert_eq!(t.observe("nowhere", &entries), None);
    assert_eq!(t.observe("DP-2", &entries), None);
    t.rebound("dp-2".to_string(), Some("DP-2".to_string()));
    assert_eq!(t.connector.as_deref(), Some("DP-2"));
}

#[test]
fn a_stamp_pins_one_period_past_its_boundary() {
    assert_eq!(stamped_pin(1_000_000, P, 1_004_000), 1_000_000 + 2 * P);
    assert_eq!(stamped_pin(1_000_000, P, 1_000_000), 1_000_000 + 2 * P);
    assert_eq!(floored_next_boundary(Some(500), 400, 0), 400);
}
