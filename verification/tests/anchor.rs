//! The vertical-blank anchor and the choice of the head it is bound to.

use nvstereo3d::nvstusb::drm::{
    choose_clock, ioc, mono_to_host_us, next_vblank_on_advance, phase_preserving_step,
    timeval_to_us, vblank_pipe_bits, DrmCrtcGetSequence, DrmCrtcQueueSequence,
    DrmEventCrtcSequence, DrmVblank, VblankClock, DEFAULT_RESYNC_EVERY,
    DRM_CRTC_SEQUENCE_RELATIVE, DRM_EVENT_CRTC_SEQUENCE, DRM_IOCTL_CRTC_GET_SEQUENCE,
    DRM_IOCTL_CRTC_QUEUE_SEQUENCE, DRM_IOCTL_MODE_GETCONNECTOR, DRM_IOCTL_MODE_GETENCODER,
    DRM_IOCTL_MODE_GETRESOURCES, DRM_IOCTL_WAIT_VBLANK, DRM_VBLANK_HIGH_CRTC_MASK,
};
use nvstereo3d::nvstusb::heads::{
    bind_notice, card_order, connector_info, connector_type_name, crtc_of_pipe,
    normalize_connector_name, off_target, outputs_summary, probe_order, sysfs_active_heads,
    vblank_hint, ConnectorInfo, HeadEntry, Notice, Probe, RawConnector, Reasons, VblankHint,
};
use std::mem::size_of;

const P: u64 = 8_333;

fn anchor() -> DrmVblank {
    let clock = VblankClock { modern: false, crtc_id: 0 };
    let mut d = DrmVblank::new(1, clock, 0, 1_000_000);
    assert!(d.bind(100_000, 100_000 + P, Some("DP-1".to_string())));
    d
}

fn head(name: &str, connected: bool, pipe: Option<u32>) -> ConnectorInfo {
    ConnectorInfo {
        name: name.to_string(),
        connected,
        pipe,
        crtc_id: pipe.map(|p| 40 + p),
    }
}

fn pairs(order: Vec<Probe>) -> Vec<(u32, String)> {
    order.into_iter().map(|p| (p.pipe, p.label())).collect()
}

#[test]
fn next_vblank_detected_only_on_sequence_advance() {
    assert_eq!(next_vblank_on_advance(42, (42, 1_000_000)), None);
    assert_eq!(next_vblank_on_advance(42, (42, 1_001_000)), None);
    assert_eq!(next_vblank_on_advance(42, (43, 1_009_000)), Some(1_009_000));
    assert_eq!(next_vblank_on_advance(42, (48, 1_050_000)), Some(1_050_000));
    assert_eq!(next_vblank_on_advance(u64::MAX, (0, 9_999_999)), Some(9_999_999));
}

#[test]
fn resync_reanchor_never_steps_a_whole_slot() {
    let period = 8333u64;
    let current = 41_665u64;
    let desired = 24_999 + period;
    assert_eq!(phase_preserving_step(current, desired, period), 0);
    let just_under_half = current.saturating_sub(period / 2 - 1);
    let _ = phase_preserving_step(current, just_under_half, period);
    assert_eq!(phase_preserving_step(current, current + 3, period), 3);
}

#[test]
fn connector_names_normalize_across_spellings() {
    assert_eq!(normalize_connector_name("DP-1"), normalize_connector_name("dp-1"));
    assert_eq!(normalize_connector_name("HDMI-A-1"), "hdmi-a-1");
    assert_eq!(normalize_connector_name("DisplayPort-1"), "dp-1");
    assert_eq!(normalize_connector_name("DisplayPort-2"), "dp-2");
    assert_eq!(normalize_connector_name("HDMI-1"), "hdmi-a-1");
    assert_eq!(normalize_connector_name("eDP-1"), "edp-1");
    assert_ne!(normalize_connector_name("DP-1"), normalize_connector_name("DP-2"));
}

#[test]
fn a_normalized_name_stays_as_it_is() {
    for name in ["DisplayPort-1", "HDMI1", "hdmi--2", "HDMI-A-1", " eDP-1 ", "Virtual_1", ""] {
        let n = normalize_connector_name(name);
        assert_eq!(normalize_connector_name(&n), n);
        assert_eq!(normalize_connector_name(&name.to_ascii_uppercase()), n);
    }
    assert_eq!(normalize_connector_name("DisplayPortDisplayPort"), "dpdisplayport");
}

#[test]
fn vblank_pipe_encoding_matches_kernel_decoder() {
    for pipe in 0u32..8 {
        let bits = vblank_pipe_bits(pipe) as u32;
        if pipe == 0 {
            assert_eq!(bits, 0, "pipe 0 must encode to no bits");
        }
        assert_eq!(bits & !DRM_VBLANK_HIGH_CRTC_MASK, 0);
        let decoded = (bits & DRM_VBLANK_HIGH_CRTC_MASK) >> 1;
        assert_eq!(decoded, pipe, "pipe {pipe} must survive kernel decode");
    }
}

#[test]
fn crtc_sequence_abi_matches_uapi() {
    let _ = size_of::<DrmCrtcGetSequence>;
    assert_eq!(size_of::<DrmCrtcGetSequence>(), 24);
    assert_eq!(size_of::<DrmCrtcQueueSequence>(), 24);
    assert_eq!(size_of::<DrmEventCrtcSequence>(), 32);
    assert_eq!(DRM_IOCTL_CRTC_GET_SEQUENCE, 0xc018_643b);
    assert_eq!(DRM_IOCTL_CRTC_QUEUE_SEQUENCE, 0xc018_643c);
    assert_eq!(DRM_CRTC_SEQUENCE_RELATIVE, 0x0000_0001);
    assert_eq!(DRM_EVENT_CRTC_SEQUENCE, 0x03);
}

#[test]
fn mono_ns_converts_to_host_epoch_us() {
    assert_eq!(mono_to_host_us(1_234_567_000, 1_000_000), 234_567);
    assert_eq!(mono_to_host_us(1_500_000_000, 1_000_000), 500_000);
}

#[test]
fn ioctl_numbers_encode_direction_size_and_number() {
    assert_eq!(ioc(3, b'd', 0x3a, 24), DRM_IOCTL_WAIT_VBLANK);
    assert_eq!(ioc(3, b'd', 0x3b, 24), DRM_IOCTL_CRTC_GET_SEQUENCE);
    assert_eq!(ioc(3, b'd', 0xa0, 64), DRM_IOCTL_MODE_GETRESOURCES);
    assert_eq!(ioc(3, b'd', 0xa6, 20), DRM_IOCTL_MODE_GETENCODER);
    assert_eq!(ioc(3, b'd', 0xa7, 80), DRM_IOCTL_MODE_GETCONNECTOR);
}

#[test]
fn the_legacy_clock_is_preferred() {
    let legacy = Some(VblankClock { modern: false, crtc_id: 0 });
    assert_eq!(
        choose_clock(Some(42), true, Some(7)),
        Some(VblankClock { modern: true, crtc_id: 42 })
    );
    assert_eq!(choose_clock(Some(42), true, None), None);
    assert_eq!(choose_clock(None, true, None), legacy);
    assert_eq!(
        choose_clock(Some(42), false, Some(7)),
        Some(VblankClock { modern: true, crtc_id: 42 })
    );
    assert_eq!(choose_clock(Some(42), false, Some(0)), None);
    assert_eq!(choose_clock(Some(42), false, None), None);
    assert_eq!(choose_clock(None, false, Some(7)), None);
}

#[test]
fn times_are_counted_from_the_epoch() {
    let d = anchor();
    assert_eq!(timeval_to_us(2, 5), 2_000_005);
    assert_eq!(timeval_to_us(-2, -5), 0);
    assert_eq!(timeval_to_us(i64::MAX, 1), u64::MAX);
    assert_eq!(d.legacy_sample(0, 0), None);
    assert_eq!(d.legacy_sample(2, 5), Some(1_000_005));
    assert_eq!(d.legacy_sample(0, 5), Some(0));
    let g = DrmCrtcGetSequence { crtc_id: 1, active: 1, sequence: 9, sequence_ns: 3_000_000_000 };
    assert_eq!(d.sequence_sample(g), Some((9, 2_000_000)));
    assert_eq!(d.sequence_sample(DrmCrtcGetSequence { sequence_ns: 0, ..g }), None);
    assert_eq!(d.host_us_from_mono(1_000_250), 250);
    assert_eq!(d.instant_of(17), 17);
    assert_eq!(d.host_epoch_us(40), 40);
}

#[test]
fn binding_takes_only_a_usable_period() {
    let clock = VblankClock { modern: false, crtc_id: 0 };
    let mut d = DrmVblank::new(1, clock, 0, 0);
    assert!(!d.bind(100_000, 116_667, Some("DP-1".to_string())));
    assert_eq!(d.connector_name(), None);
    assert_eq!(d.label(), "pipe1");
    assert!(d.bind(100_000, 108_333, Some("DP-1".to_string())));
    assert_eq!(d.connector_name(), Some("DP-1"));
    assert_eq!(d.label(), "DP-1/pipe1");
    assert_eq!(d.period_us(), 8_333);
    assert_eq!(d.current_present_us(), 116_666);
}

#[test]
fn a_missed_prediction_moves_by_whole_periods() {
    let mut d = anchor();
    let start = d.current_present_us();
    let deadline = d.frame_start(3100, start + 10 * P).unwrap();
    let next = d.current_present_us();
    assert_eq!((next - start) % P, 0);
    assert!(next > start + 10 * P + 3_000 + 3_100 + 250);
    assert!(next <= start + 11 * P + 3_000 + 3_100 + 250);
    assert_eq!(deadline, next - 3_000 - 3_100);
    d.broken = true;
    assert_eq!(d.frame_start(3100, start), None);
}

#[test]
fn a_steady_stream_advances_one_period_a_frame() {
    let mut d = anchor();
    let first = d.current_present_us();
    d.frame_start(3100, 0);
    for i in 0..400u64 {
        let at = d.current_present_us();
        assert_eq!(at, first + i * P);
        d.frame_end(Some(at - P), at);
    }
    let (n, total, worst) = d.resync_stats();
    assert_eq!(n, 400 / DEFAULT_RESYNC_EVERY as u64);
    assert_eq!((total, worst), (0, 0));
    d.reset_resync_stats();
    assert_eq!(d.resync_stats(), (0, 0, 0));
}

#[test]
fn a_forced_resync_confirms_the_next_flip() {
    let mut d = anchor();
    d.frame_start(3100, 0);
    let at = d.current_present_us();
    d.force_resync();
    d.frame_end(Some(at + 40), at);
    assert_eq!(d.confirmed_us, at + 40);
    assert_eq!(d.resync_stats(), (1, 40, 40));
    d.resync_to_vblank(500_000);
    assert_eq!(d.current_present_us(), 500_000 + d.period_us());
}

#[test]
fn the_period_is_measured_over_the_frames_since_the_last_re_anchor() {
    let mut d = anchor();
    d.frame_start(3100, 0);
    let mut at = d.current_present_us();
    d.force_resync();
    d.frame_end(Some(at), at);
    assert_eq!((d.last_resync_us, d.frames_since_resync), (at, 0));
    // A forced one counts the frames that really passed.
    for k in 1..=149 {
        at += 8_333;
        if k == 149 {
            d.force_resync();
        }
        d.frame_end(Some(at), at);
    }
    assert_eq!((d.period_us(), d.last_resync_frames), (8_333, 149));
    // So the next interval is not measured with the count of this one.
    for _ in 0..150 {
        at += 8_333;
        d.frame_end(Some(at), at);
    }
    assert_eq!((d.period_us(), d.last_resync_frames), (8_333, 150));
}

#[test]
fn an_error_is_folded_in_by_an_eighth() {
    let mut d = anchor();
    d.frame_start(3100, 0);
    let at = d.current_present_us();
    d.frame_end(Some(at + 80), at);
    assert_eq!(d.current_present_us(), at + P + 10);
}

#[test]
fn a_constant_error_shrinks_frame_by_frame() {
    let mut d = anchor();
    d.frame_start(3100, 0);
    let mut flip = d.current_present_us() + 800;
    let mut left = 800i64;
    for _ in 0..10 {
        d.frame_end(Some(flip), flip);
        flip += P;
        let error = flip as i64 - d.current_present_us() as i64;
        assert_eq!(error, left - left / 8);
        left = error;
    }
    assert!(left < 250);
}

#[test]
fn kernel_connector_names() {
    assert_eq!(connector_type_name(1), "VGA");
    assert_eq!(connector_type_name(10), "DP");
    assert_eq!(connector_type_name(11), "HDMI-A");
    assert_eq!(connector_type_name(14), "eDP");
    assert_eq!(connector_type_name(17), "DPI");
    assert_eq!(connector_type_name(0), "Unknown");
    assert_eq!(connector_type_name(18), "Unknown");
}

#[test]
fn odd_names_normalize() {
    assert_eq!(normalize_connector_name("  HDMI 2 "), "hdmi-a-2");
    assert_eq!(normalize_connector_name("hdmi--3"), "hdmi-a-3");
    assert_eq!(normalize_connector_name("HDMI-B-1"), "hdmi-b-1");
    assert_eq!(normalize_connector_name("hdmi"), "hdmi");
    assert_eq!(normalize_connector_name(""), "");
    assert_eq!(normalize_connector_name("DisplayPortDisplayPort"), "dpdisplayport");
}

#[test]
fn connectors_resolve_to_pipes() {
    let raw = RawConnector {
        connector_type: 10,
        connector_type_id: 2,
        connection: 1,
        encoder_id: 7,
    };
    let crtcs = vec![50, 51, 52];
    let i = connector_info(&crtcs, &raw, 52);
    assert_eq!(i.name, "DP-2");
    assert!(i.connected);
    assert_eq!((i.pipe, i.crtc_id), (Some(2), Some(52)));
    let i = connector_info(&crtcs, &raw, 99);
    assert_eq!((i.pipe, i.crtc_id), (None, Some(99)));
    let i = connector_info(&crtcs, &raw, 0);
    assert_eq!((i.pipe, i.crtc_id), (None, None));
    let idle = RawConnector { encoder_id: 0, ..raw };
    assert!(!idle.is_active());
    let unplugged = RawConnector { connection: 2, ..raw };
    let i = connector_info(&crtcs, &unplugged, 52);
    assert!(!i.connected);
    assert_eq!((i.pipe, i.crtc_id), (None, None));
}

#[test]
fn pipes_are_probed_in_order() {
    let infos = vec![
        head("DP-1", true, Some(0)),
        head("DP-2", true, Some(1)),
        head("HDMI-A-1", false, None),
        head("DP-3", true, Some(1)),
    ];
    assert_eq!(
        pairs(probe_order(&infos, None, None)),
        vec![(0, "DP-1".to_string()), (1, "DP-2".to_string())]
    );
    assert_eq!(
        pairs(probe_order(&infos, Some("DisplayPort-3"), None)),
        vec![(1, "DP-3".to_string()), (0, "DP-1".to_string())]
    );
    assert_eq!(
        pairs(probe_order(&infos, Some("HDMI-1"), None)),
        vec![(0, "DP-1".to_string()), (1, "DP-2".to_string())]
    );
    assert_eq!(
        pairs(probe_order(&infos, Some("DP-1"), Some(5))),
        vec![(5, "pipe5".to_string())]
    );
    let blind = pairs(probe_order(&Vec::new(), Some("DP-1"), None));
    assert_eq!(blind.len(), 8);
    assert_eq!(blind[7], (7, "pipe7".to_string()));
    assert!(probe_order(&Vec::new(), Some("DP-1"), None).iter().all(|p| p.connector.is_none()));
}

#[test]
fn a_pipe_finds_its_crtc() {
    let infos = vec![head("DP-1", true, Some(1))];
    let none: Vec<u32> = Vec::new();
    assert_eq!(crtc_of_pipe(&infos, &vec![60, 61], &none, 1), Some(41));
    assert_eq!(crtc_of_pipe(&infos, &vec![60, 61], &none, 0), Some(60));
    assert_eq!(crtc_of_pipe(&infos, &vec![60], &vec![70, 71, 72], 2), Some(72));
    assert_eq!(crtc_of_pipe(&infos, &none, &none, 2), None);
}

#[test]
fn a_forced_card_is_opened_first() {
    let all = ["/dev/dri/card0", "/dev/dri/card1", "/dev/dri/card2", "/dev/dri/card3"];
    assert_eq!(card_order(None), all);
    assert_eq!(card_order(Some("   ")), all);
    assert_eq!(
        card_order(Some(" /dev/dri/card2\n")),
        ["/dev/dri/card2", "/dev/dri/card0", "/dev/dri/card1", "/dev/dri/card3"]
    );
    assert_eq!(card_order(Some("/dev/dri/card9")).len(), 5);
}

#[test]
fn enabled_heads_are_counted() {
    let e = |name: &str, enabled: Option<&str>| HeadEntry {
        name: name.to_string(),
        enabled: enabled.map(|s| s.to_string()),
    };
    let entries = vec![
        e("card0", Some("enabled\n")),
        e("card0-", Some("enabled\n")),
        e("card0-DP-1", Some("enabled\n")),
        e("card0-DP-2", Some("disabled\n")),
        e("card0-DP-3", None),
        e("card0-HDMI-A-1", Some(" enabled ")),
        e("card1-DP-1", Some("enabled\n")),
    ];
    assert_eq!(sysfs_active_heads("card0", &entries), 2);
    assert_eq!(sysfs_active_heads("card1", &entries), 1);
    assert_eq!(sysfs_active_heads("card2", &entries), 0);
}

#[test]
fn the_search_says_what_went_wrong() {
    let infos = vec![head("DP-1", true, Some(0)), head("DP-2", false, None)];
    assert_eq!(outputs_summary(&infos), "DP-1(pipe0), DP-2(no-crtc, disconnected)");
    assert_eq!(outputs_summary(&Vec::new()), "");
    assert_eq!(bind_notice(&infos, Some("dp-1"), None, false), Notice::Nothing);
    assert_eq!(bind_notice(&infos, Some("dp-2"), None, false), Notice::NotFound);
    assert_eq!(bind_notice(&infos, Some("dp-2"), None, true), Notice::NoEnumeration);
    assert_eq!(bind_notice(&Vec::new(), Some("dp-2"), None, false), Notice::NoEnumeration);
    assert_eq!(bind_notice(&infos, None, None, false), Notice::Nothing);
    assert_eq!(bind_notice(&infos, Some("dp-2"), Some(0), false), Notice::Nothing);
    assert!(off_target(&infos, Some("dp-2"), None, Some("DP-1")));
    assert!(!off_target(&infos, Some("DisplayPort-1"), None, Some("DP-1")));
    assert!(!off_target(&infos, None, None, Some("DP-1")));
    assert!(!off_target(&Vec::new(), Some("dp-2"), None, Some("DP-1")));
    assert!(!off_target(&infos, Some("dp-2"), Some(0), None));
    assert!(off_target(&infos, Some("dp-2"), None, None));
    let mut r = Reasons::new();
    assert_eq!(r.report(), "");
    r.failed("/dev/dri/card0", "no such file");
    r.wrong_rate("DP-1", 16_667);
    r.wrong_rate("DP-2", 6_944);
    r.card_done("/dev/dri/card1");
    r.card_done("/dev/dri/card2");
    assert_eq!(
        r.report(),
        "/dev/dri/card0: no such file; /dev/dri/card1: no usable ~120 Hz display \
         (DP-1: 16667 us; DP-2: 6944 us); /dev/dri/card2: no usable ~120 Hz display \
         (no probes ran)"
    );
    assert!(r.no_card().starts_with("no usable DRM card (3): /dev/dri/card0: no such file; "));
}

#[test]
fn a_driver_without_vblank_gets_a_hint() {
    assert_eq!(vblank_hint(None, true, "Y"), VblankHint::Nothing);
    assert_eq!(vblank_hint(Some(22), true, "Y"), VblankHint::Nothing);
    assert_eq!(vblank_hint(Some(95), false, "Y"), VblankHint::Nothing);
    assert_eq!(vblank_hint(Some(95), true, ""), VblankHint::NoOption);
    assert_eq!(vblank_hint(Some(95), true, "N\n"), VblankHint::SetOption { off: true });
    assert_eq!(vblank_hint(Some(95), true, "Y\n"), VblankHint::SetOption { off: false });
    assert_eq!(vblank_hint(Some(95), true, "1"), VblankHint::SetOption { off: false });
}
