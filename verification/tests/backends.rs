//! Direct scanout, the compositor's reports and the screen's frame counter.

use nvstereo3d::nvstusb::kms::{
    choose_config, connector_mode, drm_ioc, find_best_connector, flip_time, pick_crtc, pick_mode,
    takeover_order, ConnectorMode, DrmModeModeInfo, Encoder, FlipError, PresentStages, Retired,
    Scanout, Stage, DRM_FORMAT_XRGB8888, DRM_MODE_TYPE_PREFERRED,
};
use nvstereo3d::nvstusb::wayland::{
    foreign_clock, log_due, KeyQueue, Output, Waited, WaylandPresent,
};
use nvstereo3d::nvstusb::x11glx::{sync_values, MscAnchor};

fn mode(vrefresh: u32, preferred: bool) -> DrmModeModeInfo {
    DrmModeModeInfo {
        clock: 0,
        hdisplay: 1920,
        hsync_start: 0,
        hsync_end: 0,
        htotal: 0,
        hskew: 0,
        vdisplay: 1080,
        vsync_start: 0,
        vsync_end: 0,
        vtotal: 0,
        vscan: 0,
        vrefresh,
        flags: 0,
        mode_type: if preferred { DRM_MODE_TYPE_PREFERRED | 1 } else { 1 },
    }
}

#[test]
fn the_preferred_mode_is_picked_first() {
    let m = [mode(60, true), mode(120, false)];
    assert_eq!(pick_mode(&m), Some(m[0]));
    let m = [mode(60, false), mode(100, false), mode(120, false), mode(144, false)];
    assert_eq!(pick_mode(&m).unwrap().vrefresh, 120);
    let m = [mode(75, false), mode(60, true), mode(50, true)];
    assert_eq!(pick_mode(&m).unwrap().vrefresh, 60);
    let m = [mode(75, false), mode(60, false)];
    assert_eq!(pick_mode(&m).unwrap().vrefresh, 75);
    assert_eq!(pick_mode(&[]), None);
    let tall = DrmModeModeInfo { vdisplay: 1200, ..mode(120, false) };
    assert_eq!(pick_mode(&[tall, mode(120, false)]), Some(tall));
}

#[test]
fn the_best_connector_is_found() {
    let c = |id: u32, vrefresh: u32| connector_mode(id, &[mode(vrefresh, false)]).unwrap();
    let slow = connector_mode(9, &[mode(60, true), mode(120, false)]).unwrap();
    assert_eq!(
        slow,
        ConnectorMode { connector_id: 9, mode: mode(60, true), offers_stereo: true }
    );
    assert_eq!(connector_mode(9, &[]), None);
    assert_eq!(find_best_connector(&vec![c(1, 144), slow]), Some(slow));
    assert_eq!(find_best_connector(&vec![slow, c(2, 100)]), Some(c(2, 100)));
    assert_eq!(takeover_order(&vec![false, true, false, true]), vec![1, 3, 0, 2]);
    assert_eq!(find_best_connector(&vec![c(1, 144), c(2, 100), c(3, 60)]), Some(c(2, 100)));
    assert_eq!(find_best_connector(&vec![c(1, 100), c(2, 120), c(3, 120)]), Some(c(2, 120)));
    assert_eq!(find_best_connector(&vec![c(1, 60), c(2, 75)]), Some(c(2, 75)));
    assert_eq!(find_best_connector(&Vec::new()), None);
}

#[test]
fn a_connector_is_routed_to_a_crtc() {
    let e = |crtc_id: u32, possible_crtcs: u32| Encoder { crtc_id, possible_crtcs };
    let crtcs = vec![50, 51, 52];
    assert_eq!(pick_crtc(&crtcs, &vec![e(0, 2), e(77, 1)]), Some(77));
    assert_eq!(pick_crtc(&crtcs, &vec![e(0, 0), e(0, 0b110)]), Some(51));
    assert_eq!(pick_crtc(&crtcs, &vec![e(0, 0b1000)]), Some(50));
    assert_eq!(pick_crtc(&vec![0, 51], &vec![e(0, 0b11)]), Some(51));
    assert_eq!(pick_crtc(&vec![0, 51], &Vec::new()), None);
    assert_eq!(pick_crtc(&Vec::new(), &vec![e(0, 1)]), None);
}

#[test]
fn the_scanout_format_is_chosen() {
    assert_eq!(choose_config(&vec![Some(1), None, Some(DRM_FORMAT_XRGB8888)]), 2);
    assert_eq!(choose_config(&vec![Some(1), None]), 0);
    assert_eq!(drm_ioc(3, 0xA0, 64), 0xc040_64a0);
    assert_eq!(drm_ioc(0, 0x1e, 0), 0x641e);
}

fn flip_event(kind: u32, sec: u32, usec: u32) -> Vec<u8> {
    let mut e = Vec::new();
    e.extend_from_slice(&kind.to_le_bytes());
    e.extend_from_slice(&32u32.to_le_bytes());
    e.extend_from_slice(&0u64.to_le_bytes());
    e.extend_from_slice(&sec.to_le_bytes());
    e.extend_from_slice(&usec.to_le_bytes());
    e.extend_from_slice(&[0; 8]);
    e
}

#[test]
fn flips_carry_their_time() {
    assert_eq!(flip_time(&flip_event(2, 12, 345)), Ok(12_000_345));
    assert_eq!(flip_time(&flip_event(2, u32::MAX, u32::MAX)), Ok(4_294_971_589_967_295));
    assert_eq!(flip_time(&flip_event(0x1f, 1, 1)), Err(FlipError::Unexpected(0x1f)));
    assert_eq!(flip_time(&flip_event(2, 1, 1)[..31]), Err(FlipError::Short));
    assert_eq!(FlipError::Unexpected(0x1f).message(), "unexpected drm event type 0x1f");
    assert_eq!(FlipError::Unexpected(0).message(), "unexpected drm event type 0x0");
    assert_eq!(FlipError::Short.message(), "short read waiting for drm event");
    assert_eq!(FlipError::TimedOut.message(), "timed out waiting for page flip event");
}

#[test]
fn a_flip_retires_the_frame_before() {
    let mut s = Scanout::new();
    assert!(s.first);
    assert_eq!(s.retire(), Retired { fb: None, bo: None });
    assert_eq!(s.shown(7, 70), Retired { fb: None, bo: None });
    assert!(!s.first);
    assert_eq!(s.shown(8, 80), Retired { fb: Some(7), bo: Some(70) });
    assert_eq!(s.retire(), Retired { fb: Some(8), bo: Some(80) });
}

#[test]
fn stages_are_summed_up_and_reset() {
    let mut s = Stage::new();
    assert_eq!(s.take(), None);
    s.sample(10);
    s.sample(21);
    assert_eq!(s.take(), Some((2, 15, 21)));
    assert_eq!(s.take(), None);
    let mut p = PresentStages::new();
    assert_eq!(p.take_present_stats_line(), None);
    p.swap.sample(100);
    p.swap.sample(301);
    p.flipwait.sample(8);
    p.egl_errors = 3;
    assert_eq!(
        p.take_present_stats_line().unwrap(),
        "swap avg=200us max=301us n=2 | flipwait avg=8us max=8us n=1 | egl-err-after-swap n=3"
    );
    assert_eq!(p, PresentStages::new());
    assert_eq!(p.take_present_stats_line(), None);
    p.egl_errors = 1;
    assert_eq!(p.take_present_stats_line().unwrap(), "egl-err-after-swap n=1");
}

#[test]
fn presented_frames_are_reported_once() {
    let mut p = WaylandPresent::new(5_000, 2_000_000_000);
    let mut seen = p.generation();
    assert_eq!(p.last_present(), None);
    assert_eq!(p.wait_next(&mut seen), Waited::Pending);
    p.presented(0, 2, 7_000_999, 8_333_000);
    assert_eq!(p.wait_next(&mut seen), Waited::Presented(12_000));
    assert_eq!(p.wait_next(&mut seen), Waited::Pending);
    assert_eq!(p.last_present(), Some(12_000));
    assert_eq!(p.period_us(), 8_333);
    p.discarded();
    assert_eq!(p.wait_next(&mut seen), Waited::Discarded);
    assert_eq!(p.last_present(), Some(12_000));
    assert_eq!(p.generation(), 2);
}

#[test]
fn odd_reports_are_tamed() {
    let mut p = WaylandPresent::new(5_000, 2_000_000_000);
    p.discarded();
    let mut seen = 0;
    assert_eq!(p.wait_next(&mut seen), Waited::Discarded);
    p.presented(0, 1, 0, 3_999_999);
    assert_eq!(p.last_present(), Some(5_000), "a time before the base is the base");
    assert_eq!(p.period_us(), 0);
    p.presented(0, 3, 0, 40_000_000);
    assert_eq!(p.period_us(), 40_000);
    p.presented(0, 3, 0, 40_001_000);
    assert_eq!(p.period_us(), 40_000);
    p.presented(1, 0, 0, 0);
    assert_eq!(p.last_present(), Some(5_000 + (4_294_967_296 - 2) * 1_000_000));
}

#[test]
fn keys_and_outputs() {
    let mut q = KeyQueue::new();
    for k in [16, 2, 23, 52] {
        q.push_key(k);
    }
    assert_eq!(q.take_key(), Some('q'));
    assert_eq!(q.take_key(), Some('i'));
    assert_eq!(q.take_key(), Some('.'));
    assert_eq!(q.take_key(), None);
    let mut o = Output::new();
    assert_eq!(o.surface_size(), (1920, 1080));
    assert_eq!(o.known_size(), None);
    o.mode(2560, 1440, 120_000, false);
    assert_eq!(o, Output { width: 2560, height: 1440, refresh_mhz: 0 });
    o.mode(0, 1440, 119_998, true);
    assert_eq!(o, Output { width: 2560, height: 1440, refresh_mhz: 119_998 });
    assert_eq!(o.surface_size(), (2560, 1440));
    assert!(!foreign_clock(0) && !foreign_clock(1) && foreign_clock(4));
    assert!(log_due(None, 5));
    assert!(!log_due(Some(5), 1_000_004));
    assert!(log_due(Some(5), 1_000_005));
}

#[test]
fn the_frame_counter_gives_the_period() {
    assert_eq!(sync_values(0, 5, 5), None);
    assert_eq!(sync_values(1, 0, 0), None);
    assert_eq!(sync_values(1, 0, 5), Some((0, 5)));
    let mut a = MscAnchor::capture(1_000, 50_000, 10);
    assert_eq!(a.period_us(), 0);
    assert_eq!(a.wait_vblank(50_000, 10), None);
    assert_eq!(a.wait_vblank(50_000 + 3 * 8_333_333, 13), Some(1_000 + 3 * 8_333_333));
    assert_eq!(a.period_us(), 8_333);
    assert_eq!(a.wait_vblank(50_000, 12), Some(1_000));
    assert_eq!(a.period_us(), 8_333, "a counter that went back measures nothing");
    a.observe(50_000 + 16_666_667, 13);
    assert_eq!(a.period_us(), 8_333, "a period out of range is not taken over");
    assert_eq!(a.instant_of(49_000), 1_000);
}
