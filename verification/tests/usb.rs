//! The emitter's protocol and the choice of the device.

use nvstereo3d::nvstusb::firmware::{read_firmware, FirmwareError, FirmwareRecord};
use nvstereo3d::nvstusb::usb::{
    candidates, configure_commands, device_present, emitter_ids, env_hex_id, eye_packet,
    keys_query, needs_firmware, nvidia_pids_on_bus, open_failure, pair_order_write,
    parse_timings_response, read_step, register_write, timings_block, timings_query,
    timings_verified, ActiveConfig, BusDevice, OpenFailure, ReadStep, TimerCounts,
    NVIDIA_ALT_PIDS, NVSTUSB_PID, NVSTUSB_VID, REGISTER_ALARM_DELAY, REGISTER_FRAME_DURATION,
};

fn t0_count(us: f64) -> i32 {
    (-(us * 4.0) + 1.0) as i32
}

fn t2_count(us: f64) -> i32 {
    (-(us * 12.0) + 1.0) as i32
}

fn reference() -> TimerCounts {
    TimerCounts {
        w: t2_count(4735.58),
        x: t0_count(0.5),
        y: t0_count(7334.0),
        z: t2_count(1e6 / 120.0),
    }
}

fn bus(ids: &[(u16, u16)]) -> Vec<BusDevice> {
    ids.iter().map(|&(vendor, product)| BusDevice { vendor, product }).collect()
}

#[test]
fn env_hex_ids_parse() {
    assert_eq!(env_hex_id(Some("0x0955")), Some(0x0955));
    assert_eq!(env_hex_id(Some("0007")), Some(0x0007));
    assert_eq!(env_hex_id(Some("700A")), Some(0x700A));
    assert_eq!(env_hex_id(Some("not-hex")), None);
}

#[test]
fn alt_pid_list_is_sorted_probe_order() {
    let mut pids = NVIDIA_ALT_PIDS;
    pids.sort_by_key(|p| NVIDIA_ALT_PIDS.iter().position(|a| a == p).unwrap_or(usize::MAX));
    assert_eq!(pids, NVIDIA_ALT_PIDS);
}

#[test]
fn parse_timings_response_reads_z_from_block_offset() {
    let w = t2_count(4735.58);
    let x = t0_count(0.5);
    let y = t0_count(7334.0);
    let z = t2_count(1e6 / 120.0);

    let mut resp = [0u8; 32];
    resp[0..4].copy_from_slice(&[0x00, 0x1c, 0x00, 0x04]);
    resp[4..8].copy_from_slice(&w.to_le_bytes());
    resp[8..12].copy_from_slice(&x.to_le_bytes());
    resp[12..16].copy_from_slice(&y.to_le_bytes());
    resp[16..24].copy_from_slice(&[0x30, 0x28, 0x24, 0x22, 0x0a, 0x08, 0x05, 0x04]);
    resp[24..28].copy_from_slice(&z.to_le_bytes());
    resp[28..32].copy_from_slice(&[0xde, 0xad, 0xbe, 0xef]);

    assert_eq!(parse_timings_response(&resp), Some([w, x, y, z]));
}

#[test]
fn parse_timings_response_rejects_short_and_foreign() {
    let stale_keys = [0x18, 0x03, 0x00, 0x04, 0x00, 0x00, 0x00];
    assert_eq!(parse_timings_response(&stale_keys), None);

    let mut foreign = [0u8; 32];
    foreign[0..4].copy_from_slice(&[0x18, 0x03, 0x00, 0x04]);
    foreign[4..8].copy_from_slice(&[0x11, 0x22, 0x33, 0x44]);
    assert_eq!(parse_timings_response(&foreign), None);
}

#[test]
fn ids_have_limits_and_defaults() {
    assert_eq!(env_hex_id(None), None);
    assert_eq!(env_hex_id(Some("  0X00ff \n")), Some(0xff));
    assert_eq!(env_hex_id(Some("0x0x12")), Some(0x12));
    assert_eq!(env_hex_id(Some("+1f")), Some(0x1f));
    assert_eq!(env_hex_id(Some("0000000000ffff")), Some(0xffff));
    assert_eq!(env_hex_id(Some("10000")), None);
    assert_eq!(env_hex_id(Some("")), None);
    assert_eq!(env_hex_id(Some("0x")), None);
    assert_eq!(emitter_ids(None, None), (NVSTUSB_VID, NVSTUSB_PID));
    assert_eq!(emitter_ids(Some("1234"), Some("zz")), (0x1234, NVSTUSB_PID));
    assert_eq!(emitter_ids(Some("?"), Some("0x7001")), (NVSTUSB_VID, 0x7001));
}

#[test]
fn known_alternates_are_tried_first() {
    let b = bus(&[
        (0x0955, 0x1111),
        (0x0955, 0x7004),
        (0x1d6b, 0x7001),
        (0x0955, 0x0007),
        (0x0955, 0x7001),
        (0x0955, 0x1111),
        (0x0955, 0x0222),
    ]);
    assert_eq!(nvidia_pids_on_bus(&b, 0x0007), vec![0x7001, 0x7004, 0x1111, 0x0222]);
    assert_eq!(candidates(0x0007, false, &b), vec![0x0007, 0x7001, 0x7004, 0x1111, 0x0222]);
    assert_eq!(candidates(0x0007, true, &b), vec![0x0007]);
    assert!(device_present(&b, 0x0955, 0x7004));
    assert!(!device_present(&b, 0x1d6b, 0x7004));
}

#[test]
fn only_a_bare_device_needs_firmware() {
    assert!(!needs_firmware(ActiveConfig::Missing));
    assert!(needs_firmware(ActiveConfig::NoInterface));
    assert!(needs_firmware(ActiveConfig::Endpoints(0)));
    assert!(!needs_firmware(ActiveConfig::Endpoints(3)));
}

#[test]
fn failures_are_told_apart() {
    assert_eq!(open_failure(true, 1, false), OpenFailure::Permissions);
    assert_eq!(open_failure(false, 2, false), OpenFailure::NoneUsable);
    assert_eq!(open_failure(false, 1, true), OpenFailure::NoneUsable);
    assert_eq!(open_failure(false, 1, false), OpenFailure::NotFound);
}

#[test]
fn firmware_images_split_into_records() {
    let image = [0, 3, 0x12, 0x34, 1, 2, 3, 0, 0, 0, 7, 0, 1, 0xff, 0xfe, 9];
    let (records, fault) = read_firmware(&image);
    assert_eq!(fault, None);
    assert_eq!(
        records,
        vec![
            FirmwareRecord { address: 0x1234, from: 4, to: 7 },
            FirmwareRecord { address: 7, from: 11, to: 11 },
            FirmwareRecord { address: 0xfffe, from: 15, to: 16 },
        ]
    );
    assert_eq!(read_firmware(&[]), (Vec::new(), None));
}

#[test]
fn faulty_firmware_images_are_refused() {
    let (records, fault) = read_firmware(&[0, 1, 0, 0, 5, 0, 9, 0, 0, 1]);
    assert_eq!(records.len(), 1);
    assert_eq!(fault, Some(FirmwareError::Truncated));
    assert_eq!(FirmwareError::Truncated.message(), "truncated firmware record");
    let (records, fault) = read_firmware(&[0, 1, 0, 0, 5, 0, 9]);
    assert_eq!(records.len(), 1);
    assert_eq!(fault, Some(FirmwareError::MidRecord));
    assert_eq!(FirmwareError::MidRecord.message(), "firmware ended mid-record");
}

#[test]
fn the_reference_block_has_its_bytes() {
    let block = timings_block(reference());
    assert_eq!(
        block,
        [
            0x01, 0x00, 0x18, 0x00, 0x07, 0x22, 0xff, 0xff, 0xff, 0xff, 0xff, 0xff, 0x69, 0x8d,
            0xff, 0xff, 0x30, 0x28, 0x24, 0x22, 0x0a, 0x08, 0x05, 0x04, 0x61, 0x79, 0xfe, 0xff,
        ]
    );
}

#[test]
fn a_stored_block_reads_back() {
    for c in [
        reference(),
        TimerCounts { w: i32::MIN, x: -1, y: i32::MAX, z: 0 },
    ] {
        let block = timings_block(c);
        let mut resp = vec![0x00, 0x1c, 0x00, 0x04];
        resp.extend_from_slice(&block[4..]);
        resp.extend_from_slice(&[1, 2, 3, 4]);
        let back = parse_timings_response(&resp);
        assert_eq!(back, Some([c.w, c.x, c.y, c.z]));
        assert!(timings_verified(&block, back));
        assert!(!timings_verified(&block, None));
        assert!(!timings_verified(&block, Some([c.w, c.x, c.y, c.z ^ 1])));
    }
}

#[test]
fn a_read_back_is_tried_three_times() {
    assert_eq!(read_step(1, None), ReadStep::Again);
    assert_eq!(read_step(2, Some(&[0x18, 0x03, 0x00, 0x04][..])), ReadStep::Again);
    assert_eq!(read_step(3, None), ReadStep::GiveUp);
    let mut resp = [0u8; 32];
    resp[1] = 0x1c;
    resp[3] = 0x04;
    resp[4] = 7;
    assert_eq!(read_step(3, Some(&resp[..])), ReadStep::Done([7, 0, 0, 0]));
}

#[test]
fn commands_have_their_bytes() {
    let (reg, timeout, enable) = configure_commands(480);
    assert_eq!(reg, [0x01, 0x1c, 0x02, 0x00, 0x02, 0x00]);
    assert_eq!(timeout, [0x01, 0x1e, 0x02, 0x00, 0xe0, 0x01]);
    assert_eq!(enable, [0x01, 0x1b, 0x01, 0x00, 0x07]);
    assert_eq!(
        register_write(REGISTER_ALARM_DELAY, 0x1234_5678),
        [0x01, 0x23, 0x04, 0x00, 0x78, 0x56, 0x34, 0x12]
    );
    assert_eq!(
        register_write(REGISTER_FRAME_DURATION, 400),
        [0x01, 0x24, 0x04, 0x00, 0x90, 0x01, 0x00, 0x00]
    );
    assert_eq!(pair_order_write(false), [0x01, 0x25, 0x01, 0x00, 0x00]);
    assert_eq!(pair_order_write(true), [0x01, 0x25, 0x01, 0x00, 0x01]);
    let count = t2_count((1e6 / 120.0) / 1.8) as u32;
    assert_eq!(eye_packet(true, count)[..4], [0xAA, 0xFE, 0x00, 0x00]);
    assert_eq!(eye_packet(false, count)[..4], [0xAA, 0xFF, 0x00, 0x00]);
    assert_eq!(eye_packet(true, count)[4..], count.to_le_bytes());
    assert_eq!(keys_query(), [0x42, 0x18, 0x03, 0x00]);
    assert_eq!(timings_query(), [0x02, 0x00, 0x1c, 0x00]);
}
