//! The search for an anchor over cards and pipes.

use nvstereo3d::nvstusb::drm::{DrmVblank, VblankClock};
use nvstereo3d::nvstusb::heads::{ConnectorInfo, Notice};
use nvstereo3d::nvstusb::search::{AnchorSearch, Step};

const P: u64 = 8_333;

fn head(name: &str, pipe: u32) -> ConnectorInfo {
    ConnectorInfo { name: name.to_string(), connected: true, pipe: Some(pipe), crtc_id: Some(40 + pipe) }
}

fn fresh(pipe: u32) -> DrmVblank {
    DrmVblank::new(pipe, VblankClock { modern: false, crtc_id: 0 }, 0, 0)
}

fn card_of(s: &AnchorSearch) -> String {
    match s.step() {
        Step::OpenCard(path) => path,
        other => panic!("no card to open: {other:?}"),
    }
}

fn pipe_of(s: &AnchorSearch) -> (u32, String) {
    match s.step() {
        Step::ProbePipe { pipe, place } => (pipe, place),
        other => panic!("no pipe to probe: {other:?}"),
    }
}

#[test]
fn the_wanted_output_is_bound_when_it_ticks() {
    let mut s = AnchorSearch::new(None, Some("DisplayPort-2"), None);
    assert_eq!(card_of(&s), "/dev/dri/card0");
    let notice = s.card_opened(vec![head("DP-1", 0), head("DP-2", 1)], vec![40, 41], false);
    assert_eq!(notice, Notice::Nothing);
    assert_eq!(pipe_of(&s), (1, "/dev/dri/card0/DP-2".to_string()));
    assert_eq!(s.crtc(&vec![]), Some(41));
    let mut d = fresh(1);
    assert!(s.measured(&mut d, 1_000, 1_000 + P));
    assert_eq!(d.connector_name(), Some("DP-2"));
    assert_eq!(d.period_us(), P);
    assert_eq!(d.current_present_us(), 1_000 + 2 * P);
    assert!(!s.off_target(&d));
}

#[test]
fn a_pipe_at_another_rate_is_passed_over() {
    let mut s = AnchorSearch::new(None, Some("DP-2"), None);
    s.card_opened(vec![head("DP-1", 0), head("DP-2", 1)], vec![40, 41], false);
    let mut d = fresh(1);
    assert!(!s.measured(&mut d, 0, 16_667));
    assert_eq!(d.connector_name(), None);
    assert_eq!(pipe_of(&s), (0, "/dev/dri/card0/DP-1".to_string()));
    assert_eq!(s.crtc(&vec![]), Some(40));
    let mut d = fresh(0);
    assert!(s.measured(&mut d, 0, P));
    assert!(s.off_target(&d));
}

#[test]
fn the_search_gives_up_after_the_last_card() {
    let mut s = AnchorSearch::new(Some("/dev/dri/card2"), None, Some(3));
    assert_eq!(card_of(&s), "/dev/dri/card2");
    assert_eq!(s.card_opened(vec![], vec![], false), Notice::Nothing);
    assert_eq!(pipe_of(&s), (3, "/dev/dri/card2/pipe3".to_string()));
    assert_eq!(s.crtc(&vec![7, 8, 9, 10]), Some(10));
    s.probe_failed("vblank wait failed");
    for card in ["/dev/dri/card0", "/dev/dri/card1", "/dev/dri/card3"] {
        assert_eq!(card_of(&s), card);
        s.card_failed("busy");
    }
    match s.step() {
        Step::GiveUp(why) => assert_eq!(
            why,
            "/dev/dri/card2/pipe3: vblank wait failed; \
             /dev/dri/card2: no usable ~120 Hz display (no probes ran); \
             /dev/dri/card0: busy; /dev/dri/card1: busy; /dev/dri/card3: busy"
        ),
        other => panic!("not at the end: {other:?}"),
    }
}

#[test]
fn a_silent_card_is_probed_blind_to_its_end() {
    let mut s = AnchorSearch::new(None, Some("DP-1"), None);
    assert_eq!(s.card_opened(vec![], vec![], true), Notice::NoEnumeration);
    for pipe in 0..8 {
        assert_eq!(pipe_of(&s), (pipe, format!("/dev/dri/card0/pipe{pipe}")));
        assert!(!s.measured(&mut fresh(pipe), 0, 20_000));
    }
    assert_eq!(card_of(&s), "/dev/dri/card1");
    assert_eq!(s.card_opened(vec![head("DP-2", 0)], vec![40], false), Notice::NotFound);
}
