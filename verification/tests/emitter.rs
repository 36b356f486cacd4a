//! The emitter's context, its profiles in text form, and the profile database.

use nvstereo3d::nvstusb::drm::{DrmVblank, VblankClock};
use nvstereo3d::nvstusb::heads::{needs_anchor_retarget, normalize_connector_name};
use nvstereo3d::nvstusb::ini::{
    latest, pick_profile, read_profiles, Candidate, IniEntry, IniField, ReadValue,
};
use nvstereo3d::nvstusb::{
    Eye, Keys, NvstusbContext, Retarget, SwapStart, ARM_GRACE_SWAPS, IR_ALARM_DELAY_US,
};
use nvstereo3d::nvtimings::{config_dir, db_path, key_for, resolve, TimingsDb, DEFAULT_PATH};

const P: u64 = 8_333;

fn anchor_on(label: &str) -> DrmVblank {
    let clock = VblankClock { modern: false, crtc_id: 0 };
    let mut d = DrmVblank::new(1, clock, 0, 0);
    assert!(d.bind(100_000, 100_000 + P, Some(label.to_string())));
    d
}

fn context_on(label: &str) -> NvstusbContext {
    NvstusbContext::new(Some(anchor_on(label)))
}

fn reopened(r: Retarget) -> Option<String> {
    match r {
        Retarget::Keep => None,
        Retarget::Reopen(s) => Some(s),
    }
}

#[test]
fn anchor_retarget_follows_the_window_output() {
    assert!(needs_anchor_retarget(None, Some("DP-2")));
    assert!(needs_anchor_retarget(Some("dp-1"), Some("DP-2")));
    assert!(!needs_anchor_retarget(Some("DP-2"), Some("DP-2")));
    assert!(!needs_anchor_retarget(Some("DP-1"), None));
    assert!(!needs_anchor_retarget(None, None));
    assert_eq!(normalize_connector_name("DP-2"), normalize_connector_name("dp-2"));
    assert_eq!(normalize_connector_name("DisplayPort-1"), "dp-1");
    assert_eq!(normalize_connector_name("HDMI-1"), "hdmi-a-1");
}

#[test]
fn anchor_retarget_matches_exactly_one_head() {
    let heads = ["DP-1", "DP-2", "HDMI-A-1"];
    for window in heads {
        for anchor in heads {
            let same = normalize_connector_name(window) == normalize_connector_name(anchor);
            assert_eq!(
                needs_anchor_retarget(Some(anchor), Some(window)),
                !same,
                "anchor={anchor} window={window}"
            );
        }
    }
}

#[derive(Clone, Copy)]
struct ShutterTimings {
    x_us: f64,
    y_us: f64,
    z_us: f64,
    w_us: f64,
}

fn numbers<V: Copy + std::str::FromStr>(e: &IniEntry) -> Vec<ReadValue<V>> {
    e.values
        .iter()
        .map(|v| ReadValue { field: v.field, number: v.text.parse::<V>().ok() })
        .collect()
}

fn from_ini(text: &str, rate_hz: f32, tol_hz: f32) -> Option<ShutterTimings> {
    let candidates: Vec<Candidate<f64>> = read_profiles(text)
        .iter()
        .map(|e| {
            let v: Vec<ReadValue<f64>> = numbers(e);
            let rates: Vec<ReadValue<f32>> = numbers(e);
            Candidate {
                fits: latest(&rates, IniField::Rate)
                    .map_or(false, |r| (r - rate_hz).abs() <= tol_hz),
                x: latest(&v, IniField::X),
                y: latest(&v, IniField::Y),
                z: latest(&v, IniField::Z),
                w: latest(&v, IniField::W),
            }
        })
        .collect();
    pick_profile(&candidates).map(|(x_us, y_us, z_us, w_us)| ShutterTimings {
        x_us,
        y_us,
        z_us,
        w_us,
    })
}

#[test]
fn ini_selects_profile_by_refresh_rate() {
    let s = "[0]\n\
             Monitor: Samsung LC27G5xT 1440p 120Hz\n\
             EDID_ID: SAM28794\n\
             RefreshRateHz: 119.998\n\
             X_us: 0.50\n\
             Y_us: 7334.00\n\
             Z_us: 8333.50\n\
             W_us: 4735.58\n\
             [1]\n\
             Monitor: AsusPG248Q 100Hz original\n\
             EDID_ID: AUS24B1\n\
             RefreshRateHz: 99.931\n\
             X_us: 203.25\n\
             Y_us: 8800.00\n\
             Z_us: 10006.92\n\
             W_us: 5204.33\n";
    let t = from_ini(s, 120.0, 0.5).unwrap();
    assert_eq!(t.x_us, 0.5);
    assert_eq!(t.y_us, 7334.0);
    assert_eq!(t.z_us, 8333.5);
    assert_eq!(t.w_us, 4735.58);
    let t = from_ini(s, 100.0, 0.5).unwrap();
    assert_eq!(t.x_us, 203.25);
    assert_eq!(t.y_us, 8800.0);
    assert!(from_ini(s, 144.0, 0.5).is_none());
}

#[test]
fn profiles_are_read_line_by_line() {
    let entries = read_profiles(
        "X_us: 1\r\n[0]\r\n  X_us:  2 \r\nnoise\r\n\r\nX_us: oops\r\nEDID_ID: A\nW_us:3",
    );
    assert_eq!(entries.len(), 2);
    assert_eq!(entries[0].values.len(), 2);
    assert_eq!(entries[0].values[0].field, IniField::X);
    assert_eq!(entries[0].values[0].text, "2");
    assert_eq!(entries[0].values[1].text, "oops");
    assert_eq!(entries[1].values[0].field, IniField::W);
    assert_eq!(entries[1].values[0].text, "3");
    let v: Vec<ReadValue<f64>> = numbers(&entries[0]);
    assert_eq!(latest(&v, IniField::X), Some(2.0));
    assert_eq!(latest(&v, IniField::Y), None);
    assert!(read_profiles("").is_empty());
}

#[test]
fn an_incomplete_profile_is_passed_over() {
    let whole = Candidate { fits: true, x: Some(1), y: Some(2), z: Some(3), w: Some(4) };
    let other = Candidate { x: Some(9), ..whole };
    assert_eq!(pick_profile(&vec![Candidate { fits: false, ..whole }, other]), Some((9, 2, 3, 4)));
    assert_eq!(pick_profile(&vec![Candidate { z: None, ..whole }, whole]), Some((1, 2, 3, 4)));
    assert_eq!(pick_profile(&vec![Candidate { w: None, ..whole }]), None);
    assert_eq!(pick_profile::<i32>(&Vec::new()), None);
}

#[test]
fn eyes_and_constants() {
    assert_eq!(Eye::from_u8(1), Eye::Left);
    assert_eq!(Eye::from_u8(0), Eye::Right);
    assert_eq!(Eye::from_u8(200), Eye::Left);
    assert_eq!(IR_ALARM_DELAY_US, 3_000);
    assert_eq!(ARM_GRACE_SWAPS, 240);
}

#[test]
fn buttons_and_wheel_decode() {
    let mut c = NvstusbContext::new(None);
    let k = c.take_keys(&[0x18, 0x03, 0x00, 0x04, 0xff, 0x02, 0x01]);
    assert_eq!(k, Keys { delta_wheel: -1, pressed_delta_wheel: 2, toggled_3d: true });
    assert!(c.toggled_3d);
    let k = c.take_keys(&[0; 7]);
    assert_eq!(k, Keys::default());
    assert!(c.toggled_3d);
    let k = c.take_keys(&[0, 0, 0, 0, 0x80, 0x7f, 0xfe]);
    assert_eq!(k, Keys { delta_wheel: -128, pressed_delta_wheel: 127, toggled_3d: false });
}

#[test]
fn packets_follow_the_swap_of_the_eyes() {
    let mut c = NvstusbContext::new(None);
    let select = |c: &NvstusbContext, e: Eye| -> Vec<u8> {
        c.set_eye(e, 0x0102_0304).iter().map(|p| p[1]).collect()
    };
    assert_eq!(select(&c, Eye::Left), vec![0xFF]);
    assert_eq!(select(&c, Eye::Right), vec![0xFE]);
    assert_eq!(select(&c, Eye::Quad), vec![0xFE, 0xFF]);
    assert_eq!(c.set_eye(Eye::Left, 0x0102_0304)[0], [0xAA, 0xFF, 0, 0, 4, 3, 2, 1]);
    c.invert_eyes();
    assert!(c.is_inverted());
    assert_eq!(select(&c, Eye::Left), vec![0xFE]);
    assert_eq!(select(&c, Eye::Quad), vec![0xFF, 0xFE]);
    c.invert_eyes();
    assert!(!c.is_inverted());
}

#[test]
fn the_anchor_follows_the_window_once() {
    let mut c = context_on("DP-1");
    assert_eq!(reopened(c.set_target_connector(Some("DisplayPort-1"))), None);
    assert_eq!(c.target_connector.as_deref(), Some("dp-1"));
    assert_eq!(reopened(c.set_target_connector(Some("DP-2"))), Some("dp-2".to_string()));
    assert_eq!(reopened(c.set_target_connector(Some("DP-2"))), None);
    assert_eq!(reopened(c.set_target_connector(None)), None);
    assert_eq!(c.target_connector, None);
    let mut blind = NvstusbContext::new(None);
    assert_eq!(reopened(blind.set_target_connector(Some("DP-2"))), Some("dp-2".to_string()));
}

#[test]
fn the_anchor_has_a_name() {
    assert_eq!(context_on("DP-1").anchor_name(), "drm-vblank[DP-1/pipe1]");
    assert_eq!(NvstusbContext::new(None).anchor_name(), "no-anchor");
    let clock = VblankClock { modern: false, crtc_id: 0 };
    let mut blind = DrmVblank::new(2, clock, 0, 0);
    assert!(blind.bind(100_000, 100_000 + P, None));
    assert_eq!(blind.connector_name(), None);
    assert_eq!(NvstusbContext::new(Some(blind)).anchor_name(), "drm-vblank[pipe2]");
    assert_eq!(NvstusbContext::new(None).vblank_method(), 4);
}

#[test]
fn writes_are_counted() {
    let mut c = NvstusbContext::new(None);
    assert!(!c.wrote_packet(5000));
    assert!(c.wrote_packet(5001));
    assert!(!c.wrote_packet(10));
    assert_eq!(c.dbg_write_stats(), (3, 10_011, 5001, 1));
    assert_eq!(c.dbg_wait_stats(), (0, 0, 0));
    c.waited(40);
    c.waited(7);
    assert_eq!(c.dbg_wait_stats(), (2, 47, 40));
}

#[test]
fn a_swap_waits_for_its_vblank() {
    let mut c = context_on("DP-1");
    c.set_swap_phase_us(1000);
    assert_eq!(c.swap_phase_us(), 1000);
    let start = c.begin_swap(100_000);
    assert_eq!(start.predicted, Some(100_000 + 2 * P));
    assert_eq!(start.period_us, P);
    assert_eq!(start.not_before, Some(100_000 + 2 * P - 4_000));
    c.end_swap(start, Some(100_000 + 2 * P - 30), 0);
    assert_eq!(c.drm_present_stats(), (1, 30, 30));
    assert_eq!(c.flip_time(Some(17)), Some(17));
    assert_eq!(c.flip_time(None), None);
    let start = c.begin_swap(200_000);
    c.end_swap(start, Some(start.predicted.unwrap() + 2 * P), 0);
    assert_eq!(c.drm_present_stats(), (1, 30, 30), "a wild flip is not counted");
    c.reset_drm_present_stats();
    assert_eq!(c.drm_present_stats(), (0, 0, 0));
    c.force_resync();
    let start = c.begin_swap(300_000);
    c.end_swap(start, start.predicted, 0);
    assert!(c.drm_resync_stats().0 >= 1);
    c.reset_drm_resync_stats();
    assert_eq!(c.drm_resync_stats(), (0, 0, 0));
}

#[test]
fn without_an_anchor_a_swap_does_not_wait() {
    let mut c = NvstusbContext::new(None);
    let start = c.begin_swap(5);
    assert_eq!(start, SwapStart { not_before: None, predicted: None, period_us: 8333 });
    c.end_swap(start, None, 9);
    assert_eq!(c.drm_present_stats(), (0, 0, 0));
    assert_eq!(c.flip_time(Some(17)), None);
}

#[test]
fn the_first_probe_counts() {
    let mut c = NvstusbContext::new(None);
    assert_eq!(c.timings_live(), None);
    c.probed_timings(false);
    c.probed_timings(true);
    assert_eq!(c.timings_live(), Some(false));
}

#[derive(Debug, PartialEq)]
struct MonitorEntry {
    refresh_hz: f64,
    frequency_10khz: u64,
    x_us: f64,
    y_us: f64,
    w_us: f64,
    lead_us: f64,
}

fn round_refresh(rate_hz: f32) -> i64 {
    (rate_hz as f64).round() as i64
}

#[test]
fn resolves_by_base_and_refresh() {
    let mut db = TimingsDb::new();
    db.insert(
        "ACI_23F7_120".to_string(),
        MonitorEntry {
            refresh_hz: 119.983,
            frequency_10khz: 28675,
            x_us: 3064.5,
            y_us: 2375.25,
            w_us: 5854.58,
            lead_us: 3200.0,
        },
    );
    db.insert(
        "ACI_23F7_100".to_string(),
        MonitorEntry {
            refresh_hz: 99.931,
            frequency_10khz: 23654,
            x_us: 3703.25,
            y_us: 3468.0,
            w_us: 7489.33,
            lead_us: 3100.0,
        },
    );
    let (k, e) = resolve(&db, "ACI_23F7", round_refresh(119.98)).unwrap();
    assert_eq!(k, "ACI_23F7_120");
    assert_eq!(e.x_us, 3064.5);
    assert_eq!(e.lead_us, 3200.0);
    let (k, e) = resolve(&db, "ACI_23F7", round_refresh(99.93)).unwrap();
    assert_eq!(k, "ACI_23F7_100");
    assert_eq!(e.x_us, 3703.25);
    let (k, e) = resolve(&db, "ACI_23F7", round_refresh(144.0)).unwrap();
    assert_eq!(k, "ACI_23F7_120");
    assert_eq!(e.x_us, 3064.5);
    assert!(resolve(&db, "XYZ_9999", round_refresh(120.0)).is_none());
}

#[test]
fn save_entry_writes_only_the_given_monitor() {
    let e = || MonitorEntry {
        refresh_hz: 119.983,
        frequency_10khz: 28675,
        x_us: 0.5,
        y_us: 7334.0,
        w_us: 4735.58,
        lead_us: 3100.0,
    };
    let db = TimingsDb::single("ACI_23F7_120".to_string(), e());
    assert_eq!(db.len(), 1);
    assert_eq!(db.get("ACI_23F7_120").unwrap(), &e());
}

#[test]
fn config_dir_follows_xdg_config_home() {
    let d = config_dir(Some("/tmp/nvstereo3d-xdg-test"), Some("/home/x"))
        .expect("config dir with XDG_CONFIG_HOME set");
    assert_eq!(d, "/tmp/nvstereo3d-xdg-test/nvstereo3d");
}

#[test]
fn the_database_has_its_place() {
    assert_eq!(config_dir(Some(""), Some("/home/x/")).unwrap(), "/home/x/.config/nvstereo3d");
    assert_eq!(config_dir(None, Some("")), None);
    assert_eq!(db_path(Some("/x.json"), true, None, None), "/x.json");
    assert_eq!(db_path(None, true, Some("/c"), None), DEFAULT_PATH);
    assert_eq!(db_path(None, false, Some("/c"), None), "/c/nvstereo3d/monitor_timings.json");
    assert_eq!(db_path(None, false, None, None), "monitor_timings.json");
}

#[test]
fn keys_hold_display_and_rate() {
    assert_eq!(key_for("ACI_23F7", 120), "ACI_23F7_120");
    assert_eq!(key_for("ACI_23F7", -1), "ACI_23F7_-1");
    assert_eq!(key_for("", i64::MIN), "_-9223372036854775808");
}

#[test]
fn the_highest_rate_stands_in() {
    let mut db = TimingsDb::new();
    for (key, v) in [
        ("A_1_99", 1),
        ("A_1_144", 2),
        ("A_1_0144", 3),
        ("A_1_144x", 4),
        ("A_1_99999999999999999999", 5),
        ("A_1_", 6),
        ("A_11_200", 7),
    ] {
        db.insert(key.to_string(), v);
    }
    assert_eq!(db.len(), 7);
    let keys: Vec<&str> = db.entries.iter().map(|e| e.key.as_str()).collect();
    let mut sorted = keys.clone();
    sorted.sort();
    assert_eq!(keys, sorted);
    assert_eq!(resolve(&db, "A_1", 60), Some(("A_1_0144".to_string(), &3)));
    assert_eq!(resolve(&db, "A_1", 99), Some(("A_1_99".to_string(), &1)));
    db.insert("A_1_99".to_string(), 8);
    assert_eq!(db.len(), 7);
    assert_eq!(db.get("A_1_99"), Some(&8));
    assert_eq!(db.get("A_1_98"), None);
}

#[test]
fn a_saved_profile_serves_any_rate() {
    let db = TimingsDb::single(key_for("A_1", 120), 5);
    for rate in [-3, 0, 60, 120, 144] {
        assert_eq!(resolve(&db, "A_1", rate), Some(("A_1_120".to_string(), &5)));
    }
}
