//! The demo's keys, frames and scenes.

use nvstereo3d::demo::output::{
    output_base, start_timings, stored_timings, OutputWatch, Shutter,
};
use nvstereo3d::demo::{
    eye_of, hud_layout, hud_mark, hud_profile, hud_registers, hud_step, label_place, log_profile,
    log_registers, plausible_rate, poll_output, scene_label, CameraType, DemoState, FrameAccum,
    FrameStats, FrameTimer, KeyAction, SceneMode, TimingTarget,
};
use nvstereo3d::edid::Connector;
use nvstereo3d::gfx::{AttributeAt, Mesh, Texture, VertexRange};
use nvstereo3d::medimg;
use nvstereo3d::medimg::{base_noise, rds_quads, FieldPlan, RdsCache, Rng, ShiftedQuad};
use nvstereo3d::nvstusb::Eye;
use nvstereo3d::nvtimings::TimingsDb;
use nvstereo3d::pulsar;
use nvstereo3d::scene;
use nvstereo3d::screenshot::tga;

fn said(a: KeyAction) -> String {
    match a {
        KeyAction::Say(s) => s,
        other => panic!("no text: {other:?}"),
    }
}

#[test]
fn keys_do_what_they_say() {
    let mut s = DemoState::new();
    for c in ['q', 'Q', '\u{1b}'] {
        assert!(matches!(s.process_key(c), KeyAction::Quit));
    }
    assert_eq!(said(s.process_key('c')), "Using toe-in stereo camera.");
    assert_eq!(s.camera, CameraType::ToeIn);
    assert_eq!(said(s.process_key('C')), "Using parallel axis asymmetric frusta camera.");
    assert_eq!(said(s.process_key('f')), "Forcing left eye always.");
    assert_eq!(said(s.process_key('F')), "Forcing right eye always.");
    assert_eq!(said(s.process_key('f')), "Swapping eyes normally.");
    assert!(matches!(s.process_key('s'), KeyAction::SaveTimings));
    assert!(matches!(s.process_key('S'), KeyAction::Screenshot));
    assert!(matches!(s.process_key('i'), KeyAction::InvertEyes));
    assert!(matches!(s.process_key('z'), KeyAction::Nothing));
    assert_eq!(s, DemoState::new());
    for (c, scene) in [
        ('2', SceneMode::Rds),
        ('3', SceneMode::AltBlink),
        ('4', SceneMode::Pulsar),
        ('1', SceneMode::HexTri),
    ] {
        said(s.process_key(c));
        assert_eq!(s.scene, scene);
    }
    assert_eq!(SceneMode::default(), SceneMode::HexTri);
}

#[test]
fn timing_keys_follow_the_step() {
    let mut s = DemoState::new();
    let delta = |s: &mut DemoState, c: char| match s.process_key(c) {
        KeyAction::Adjust(d) => d,
        other => panic!("no change: {other:?}"),
    };
    assert_eq!(delta(&mut s, ','), -100);
    assert_eq!(delta(&mut s, '.'), 100);
    assert_eq!(delta(&mut s, '{'), -1000);
    assert_eq!(delta(&mut s, ']'), 1000);
    assert_eq!(
        said(s.process_key('k')),
        "Timing step: 1000 us (`,`,`.` adjust by this; `[`,`]` by 10000 us)"
    );
    said(s.process_key('k'));
    assert_eq!(delta(&mut s, ';'), -10);
    said(s.process_key('K'));
    assert_eq!(delta(&mut s, ':'), 1);
    said(s.process_key('k'));
    assert_eq!(s.timing_step_us, 100);
}

#[test]
fn targets_cycle_through_all_timings() {
    let mut s = DemoState::new();
    let mut seen = vec![s.timing_target.label()];
    for _ in 0..3 {
        assert!(matches!(s.process_key('t'), KeyAction::ShowTarget));
        seen.push(s.timing_target.label());
    }
    assert_eq!(
        seen,
        vec![
            "X (refresh start -> shutter open)",
            "Y (shutter open window)",
            "W (2nd T2 counter)",
            "LEAD (packet -> vblank)",
        ]
    );
    assert_eq!(s.timing_target.next(), TimingTarget::X);
}

#[test]
fn depths_and_leads_stay_in_range() {
    let mut s = DemoState::new();
    for _ in 0..50 {
        s.process_key('+');
        s.process_key('a');
    }
    assert_eq!((s.rds_depth, s.rds_bg), (80, 40));
    assert_eq!(said(s.process_key('=')), "RDS depth (pop-out): 80 px");
    assert_eq!(said(s.process_key('A')), "RDS background depth (convergence): 40 px");
    for _ in 0..50 {
        s.process_key('_');
        s.process_key('d');
    }
    assert_eq!((s.rds_depth, s.rds_bg), (0, 0));
    s.adjust_phase(-5000);
    assert_eq!(s.swap_phase_us, 0);
    s.adjust_phase(6999);
    assert_eq!(s.swap_phase_us, 6999);
    s.adjust_phase(10_000);
    assert_eq!(s.swap_phase_us, 7000);
}

#[test]
fn eyes_take_turns_unless_forced() {
    let mut s = DemoState::new();
    let shown: Vec<i32> = (0..4).map(|_| s.next_frame()).collect();
    assert_eq!(shown, vec![1, 0, 1, 0]);
    s.process_key('f');
    assert_eq!((s.next_frame(), s.next_frame()), (1, 1));
    s.process_key('f');
    assert_eq!((s.next_frame(), s.next_frame()), (0, 0));
    assert_eq!(eye_of(1), Eye::Left);
    assert_eq!(eye_of(0), Eye::Right);
    assert!(s.observe_button(true));
    assert!(!s.pulsar_rotate);
    assert!(!s.observe_button(false));
    assert!(!s.pulsar_rotate);
}

#[test]
fn the_output_is_polled_early_and_then_seldom() {
    assert!(poll_output(false, 239));
    assert!(poll_output(false, 240));
    assert!(!poll_output(false, 241));
    assert!(!poll_output(true, 119));
    assert!(poll_output(true, 0));
    assert!(poll_output(true, 360));
    assert_eq!(plausible_rate(Some(60_000)), Some(60_000));
    assert_eq!(plausible_rate(Some(59_999)), None);
    assert_eq!(plausible_rate(None), None);
    let mut edid = vec![0u8; 128];
    edid[8] = 0x04;
    edid[9] = 0x69;
    let entries = vec![Connector { name: "card0-DP-1".to_string(), edid: Some(edid), status: None }];
    assert_eq!(output_base(Some("DP-1"), &entries), Some("ACI_0000".to_string()));
    assert_eq!(output_base(Some(""), &entries), None);
    assert_eq!(output_base(None, &entries), None);
}

#[test]
fn frames_are_counted() {
    let mut a = FrameAccum::new();
    assert!(!a.report_if_due());
    for _ in 0..512 {
        a.observe(3);
    }
    assert!(a.report_if_due());
    assert_eq!((a.sum_us, a.sum_sq_us), (1536, 4608));
    a.observe(1);
    assert!(!a.report_if_due());
    let mut f = FrameStats::new();
    assert_eq!(f.take(), None);
    f.observe(9, 100);
    f.observe(5, 200);
    f.observe(7, 300);
    assert_eq!(f.jitter_us(), 4);
    let w = f.take().unwrap();
    assert_eq!((w.count, w.sum_us, w.min_us, w.max_us, w.window_start), (3, 21, 5, 9, Some(100)));
    assert_eq!(f, FrameStats::new());
    assert_eq!(f.jitter_us(), 0);
}

#[test]
fn labels_are_centred() {
    assert_eq!(scene_label(SceneMode::HexTri, 1), Some("LEFT: GREEN HEXAGONS"));
    assert_eq!(scene_label(SceneMode::HexTri, 0), Some("RIGHT: BLUE TRIANGLES"));
    assert_eq!(scene_label(SceneMode::AltBlink, 1), Some("LEFT: RED"));
    assert_eq!(scene_label(SceneMode::AltBlink, 0), Some("RIGHT: BLUE"));
    assert_eq!(scene_label(SceneMode::Pulsar, 1), None);
    let p = label_place(2560, 9);
    assert_eq!((p.x, p.scale), ((2560 - 9 * 6 * 4) / 2, 4));
    let p = label_place(100, 20);
    assert_eq!((p.x, p.scale), ((100 - 20 * 6 * 2) / 2, 2));
    assert_eq!(label_place(99_999, 1).scale, 6);
    let h = hud_layout(2560);
    assert_eq!((h.scale, h.line_height, h.x), (1, 11, 12));
    assert_eq!(h.y, [10, 21, 32, 43, 54, 70, 81, 92, 103, 114]);
    assert_eq!(hud_layout(99_999).scale, 3);
    assert_eq!(hud_mark(TimingTarget::Y, TimingTarget::Y), (">", true));
    assert_eq!(hud_mark(TimingTarget::Y, TimingTarget::X), (" ", false));
    assert_eq!(hud_profile(Some("ACI_23F7"), Some(120)), "  JSON <ACI_23F7_120>");
    assert_eq!(hud_profile(Some("ACI_23F7"), None), "  JSON <ACI_23F7> (rate unknown)");
    assert_eq!(hud_profile(None, Some(120)), "  JSON <unreadable EDID>");
    assert_eq!(hud_registers(Some(true)), "  TIMING REGS LIVE");
    assert_eq!(hud_registers(Some(false)), "  TIMING REGS UNVERIFIED");
    assert_eq!(hud_registers(None), "  TIMING REGS UNCHECKED");
    assert_eq!(hud_step(10), "  STEP 10 US (K=SWITCH)");
    assert_eq!(log_registers(Some(true)), "regs live");
    assert_eq!(log_registers(Some(false)), "regs unverified");
    assert_eq!(log_registers(None), "regs unprobed");
    assert_eq!(log_profile(Some("ACI_23F7"), 120), "[json ACI_23F7_120]");
    assert_eq!(log_profile(Some(""), 120), "[json unreadable]");
    assert_eq!(log_profile(None, 120), "[json unreadable]");
}

#[test]
fn the_dots_are_those_of_single_precision() {
    let mut rng = Rng { state: medimg::SEED };
    assert_eq!(rng.next_u32(), {
        let mut x: u32 = 0x9E37_79B9;
        x ^= x << 13;
        x ^= x >> 17;
        x ^= x << 5;
        x
    });
    let half = |x: u32| (x as f32 / u32::MAX as f32) < 0.5;
    for x in [0u32, 1, 0x7FFF_FFBF, 0x7FFF_FFC0, 0x7FFF_FFFF, 0x8000_0000, u32::MAX] {
        assert_eq!(half(x), x < medimg::HALF);
    }
    let mut x: u32 = medimg::SEED;
    let expected: Vec<u8> = (0..64 * 48)
        .map(|_| {
            x ^= x << 13;
            x ^= x >> 17;
            x ^= x << 5;
            if half(x) { 32 } else { 224 }
        })
        .collect();
    assert_eq!(base_noise(64, 48), expected);
    assert_eq!(base_noise(64, 20)[..], expected[..64 * 20]);
    assert!(base_noise(0, 5).is_empty());
}

#[test]
fn the_field_is_built_once_for_a_size() {
    let mut c: RdsCache<u32> = RdsCache::new();
    assert!(c.texture().is_none());
    assert_eq!(medimg::warm(&c, 4, 3).unwrap().len(), 12);
    assert!(c.uploaded(4, 3, Texture { id: Some(9) }).is_none());
    assert!(medimg::warm(&c, 4, 3).is_none());
    assert!(matches!(c.rds_texture(4, 3), FieldPlan::Ready(t) if t.id == Some(9)));
    assert!(matches!(c.rds_texture(5, 3), FieldPlan::Upload(d) if d.len() == 15));
    assert_eq!(c.uploaded(5, 3, Texture::none()).id, Some(9));
    assert!(medimg::warm(&c, 5, 3).is_some(), "a failed upload is tried again");
}

#[test]
fn the_eyes_see_shifted_fields() {
    let left = rds_quads(1000, 600, 1, 2, 1);
    let right = rds_quads(1000, 600, 0, 2, 1);
    assert_eq!(left[0], ShiftedQuad { x0: 0, y0: 0, x1: 1000, y1: 600, shift: 1 });
    assert_eq!(left[1], ShiftedQuad { x0: 425, y0: 225, x1: 575, y1: 375, shift: -2 });
    assert_eq!((right[0].shift, right[1].shift), (-1, 2));
    assert_eq!(right[1].x0, 425);
}

#[test]
fn scenes_are_made_of_pieces() {
    let cells = scene::warm(false).unwrap();
    assert_eq!(cells.len(), 20);
    assert_eq!((cells[0].x, cells[0].y), (-2, -2));
    assert_eq!((cells[7].x, cells[7].y), (0, -1));
    assert_eq!((cells[19].x, cells[19].y), (2, 1));
    assert!(scene::warm(true).is_none());
    assert_eq!((scene::corners(true), scene::corners(false)), (6, 3));
    assert_eq!((scene::pattern_of(1), scene::pattern_of(0)), (1, 0));
    assert!(pulsar::warm(true).is_none());
    let p = pulsar::warm(false).unwrap();
    assert_eq!((p.light.len(), p.sphere.len(), p.cones.len(), p.lines.len()), (128, 2304, 72, 18));
    assert_eq!((p.light[17].stack, p.light[17].slice), (1, 1));
    assert_eq!((p.sphere[33].longitude, p.sphere[33].latitude), (5, -75));
    assert!(p.sphere[128].bright && !p.sphere[32].bright);
    assert!(!p.cones[0].up && p.cones[36].up && p.cones[3].dark && !p.cones[1].dark);
    assert_eq!(p.cones[35].angle, 350);
    assert_eq!(p.lines[17], 340);
    assert_eq!(p.line_ranges[17], VertexRange { first: 4760, count: 280 });
}

#[test]
fn meshes_know_their_layout() {
    let m: Mesh<u32> = Mesh::from_color_verts(Some(3), 12, 4);
    assert_eq!(m.ranges, vec![VertexRange { first: 0, count: 12 }]);
    assert_eq!(
        m.attributes(),
        [
            AttributeAt { index: 0, components: 3, offset: 0 },
            AttributeAt { index: 1, components: 3, offset: 12 },
        ]
    );
    assert_eq!(m.stride, 24);
    let mut m: Mesh<u32> = Mesh::from_uv_verts(Some(3), 12, 4);
    assert_eq!((m.stride, m.attributes()[1].offset), (16, 8));
    m.replace_uv_verts(6);
    assert_eq!(m.ranges, vec![VertexRange { first: 0, count: 6 }]);
    let mut lost: Mesh<u32> = Mesh::from_uv_verts(None, 12, 4);
    lost.replace_uv_verts(6);
    assert_eq!(lost.ranges, vec![VertexRange { first: 0, count: 12 }]);
    let strips = vec![VertexRange { first: 0, count: 3 }, VertexRange { first: 3, count: 4 }];
    let m: Mesh<u32> = Mesh::from_color_verts_ranges(None, strips.clone(), 3);
    assert_eq!(m.ranges, strips);
    assert!(Texture::<u32>::none().is_none());
    assert!(!Texture { id: Some(1u32) }.is_none());
}

#[test]
fn pictures_have_blue_first() {
    let file = tga(258, 1, &(0..774).map(|i| i as u8).collect::<Vec<u8>>());
    assert_eq!(file.len(), 18 + 774);
    assert_eq!(file[..18], [0, 0, 2, 0, 0, 0, 0, 0, 0, 0, 0, 0, 2, 1, 1, 0, 24, 0]);
    assert_eq!(file[18..24], [2, 1, 0, 5, 4, 3]);
    assert_eq!(tga(0, 0, &[]).len(), 18);
}

fn display(name: &str, product: u8) -> Connector {
    let mut edid = vec![0u8; 128];
    (edid[8], edid[9], edid[10]) = (0x04, 0x69, product);
    Connector { name: name.to_string(), edid: Some(edid), status: None }
}

#[test]
fn the_window_is_followed_to_another_output() {
    let entries = vec![display("card0-DP-1", 0xF7), display("card0-HDMI-A-1", 0x01)];
    let mut w = OutputWatch::new();
    assert!(w.is_due(7));
    assert!(!w.is_news(None));
    assert!(w.is_news(Some("DP-1")));
    let m = w.moved_to(Some("DP-1".to_string()), Some(119_982), &entries);
    assert_eq!(w.base.as_deref(), Some("ACI_00F7"));
    assert_eq!((m.rate_mhz, m.profile.as_deref()), (Some(119_982), Some("ACI_00F7")));
    assert!(!w.is_due(7));
    assert!(w.is_due(120));
    assert!(!w.is_news(Some("DP-1")));
    assert!(w.is_news(Some("DP-2")));
    assert!(w.is_news(None));
    w.pinned = true;
    let m = w.moved_to(Some("HDMI-A-1".to_string()), Some(59_000), &entries);
    assert_eq!(w.base.as_deref(), Some("ACI_0001"));
    assert!(m.rate_mhz.is_none() && m.profile.is_none());
    let m = w.moved_to(Some(String::new()), None, &entries);
    assert!(w.base.is_none() && m.profile.is_none());
}

#[test]
fn given_timings_win_over_stored_ones() {
    let reference = Shutter { x: 1, y: 2, w: 3 };
    let (file, stored) = (Shutter { x: 10, y: 20, w: 30 }, Shutter { x: 100, y: 200, w: 300 });
    let none = Shutter { x: None, y: None, w: None };
    let all = |t: (Shutter<i32>, bool)| (t.0.x, t.0.y, t.0.w, t.1);
    assert_eq!(all(start_timings(true, reference, None, None, none)), (1, 2, 3, false));
    assert_eq!(all(start_timings(true, reference, Some(file), None, none)), (10, 20, 30, false));
    assert_eq!(
        all(start_timings(true, reference, Some(file), Some(stored), none)),
        (100, 200, 300, false)
    );
    let given = Shutter { x: None, y: Some(7), w: None };
    assert_eq!(
        all(start_timings(true, reference, Some(file), Some(stored), given)),
        (100, 7, 300, true)
    );
    assert_eq!(all(start_timings(false, reference, Some(file), None, given)), (1, 2, 3, false));
    let mut db = TimingsDb::new();
    db.insert("ACI_23F7_120".to_string(), 5);
    assert_eq!(
        stored_timings(&db, Some("ACI_23F7"), Some(100)),
        Some(("ACI_23F7_120".to_string(), &5))
    );
    assert_eq!(stored_timings(&db, Some("ACI_23F8"), Some(120)), None);
    assert_eq!(stored_timings(&db, Some("ACI_23F7"), None), None);
    assert_eq!(stored_timings(&db, None, Some(120)), None);
}

#[test]
fn a_report_covers_the_frames_since_the_last() {
    let mut t = FrameTimer::new();
    assert!(!t.frame(1000));
    t.swapped(1500);
    for k in 1..512u64 {
        assert!(!t.frame(1000 + k * 10));
        t.swapped(1500 + k * 10);
        assert!(t.report().is_none());
    }
    assert!(t.frame(1000 + 5130));
    let (frames, swaps) = t.report().unwrap();
    assert_eq!((frames.count, frames.min_us, frames.max_us), (512, 10, 20));
    assert_eq!((swaps.count, swaps.min_us, swaps.max_us), (511, 10, 10));
    assert_eq!((t.frames, t.swaps), (FrameStats::new(), FrameStats::new()));
    assert!(t.report().is_none());
    assert_eq!((t.accum.count, t.accum.sum_us), (512, 5130));
    assert!(!t.frame(0));
    assert_eq!((t.frames.count, t.frames.max_us, t.accum.sum_us), (1, 0, 5130));
}
