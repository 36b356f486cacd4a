//! Display identities and connector lookup.

use nvstereo3d::edid::{
    connector_exists, find_connector_by_base, is_connector_dir, is_on_card, names_connector, parse,
    read_connector, read_connector_bytes, resolve_base, Connector, MonitorIdentity,
};

fn edid_with(vendor_hi: u8, vendor_lo: u8, product_hi: u8, product_lo: u8) -> Vec<u8> {
    let mut e = vec![0u8; 128];
    e[0] = 0x00;
    e[7] = 0x01;
    e[8] = vendor_hi;
    e[9] = vendor_lo;
    e[10] = product_lo;
    e[11] = product_hi;
    e
}

fn entry(name: &str, edid: Option<Vec<u8>>, status: &str) -> Connector {
    Connector {
        name: name.to_string(),
        edid,
        status: Some(status.to_string()),
    }
}

fn listing() -> Vec<Connector> {
    vec![
        entry("card0", None, ""),
        entry("card0-DP-1", Some(edid_with(0x04, 0x69, 0x23, 0xF7)), "disconnected\n"),
        entry("card0-HDMI-A-1", Some(Vec::new()), "connected\n"),
        entry("card1-DP-3", Some(edid_with(0x04, 0x69, 0x23, 0xF7)), "connected\n"),
        entry("card1-DP-4", Some(vec![0u8; 100]), "connected\n"),
    ]
}

#[test]
fn decodes_aci_23f7() {
    let e = edid_with(0x04, 0x69, 0x23, 0xF7);
    let id = parse(&e).unwrap();
    assert_eq!(id.vendor, "ACI");
    assert_eq!(id.product, 0x23F7);
    assert_eq!(id.base_key(), "ACI_23F7");
}

#[test]
fn rejects_short_block() {
    assert!(parse(&[0u8; 127]).is_none());
}

#[test]
fn formatting_zero_pads_and_uppercases_product() {
    let id = MonitorIdentity {
        vendor: "XYZ".into(),
        product: 0x000A,
    };
    assert_eq!(id.base_key(), "XYZ_000A");
}

#[test]
fn live_sysfs_helpers_roundtrip_or_degrade() {
    for entries in [Vec::new(), listing()] {
        let _ = connector_exists("DP-1", &entries);
        let _ = connector_exists("DP-2", &entries);
        let _ = connector_exists("XYZ-9", &entries);
        let _ = find_connector_by_base("SAM_707A", &entries);
        let _ = find_connector_by_base("ZZZ_0000", &entries);
        let _ = find_connector_by_base("", &entries);
        if let Some(base) = resolve_base("DP-1", None, &entries) {
            let found = find_connector_by_base(&base, &entries);
            assert!(found.is_some(), "reverse lookup of own EDID base should find a connector");
        }
    }
}

#[test]
fn an_empty_listing_names_nothing() {
    let none: Vec<Connector> = Vec::new();
    assert!(!connector_exists("DP-1", &none));
    assert_eq!(find_connector_by_base("ACI_23F7", &none), None);
    assert_eq!(resolve_base("DP-1", None, &none), None);
}

#[test]
fn a_base_finds_the_plugged_in_connector_first() {
    let entries = listing();
    assert_eq!(find_connector_by_base("ACI_23F7", &entries), Some("DP-3".to_string()));
    assert_eq!(find_connector_by_base("  aci_23f7 \n", &entries), Some("DP-3".to_string()));
    assert_eq!(find_connector_by_base("ACI_23F8", &entries), None);
    assert_eq!(find_connector_by_base("   ", &entries), None);
    let unplugged = vec![entry(
        "card0-DP-1",
        Some(edid_with(0x04, 0x69, 0x23, 0xF7)),
        "disconnected\n",
    )];
    assert_eq!(find_connector_by_base("ACI_23F7", &unplugged), Some("DP-1".to_string()));
}

#[test]
fn connectors_are_named_in_any_case() {
    let entries = listing();
    assert!(connector_exists("dp-1", &entries));
    assert!(connector_exists("DP-3", &entries));
    assert!(connector_exists("hdmi-a-1", &entries));
    assert!(!connector_exists("DP-2", &entries));
    assert!(!connector_exists("card0", &entries));
    assert!(!connector_exists("A-1", &entries));
    assert!(!connector_exists("1", &entries));
}

#[test]
fn a_card_restricts_the_lookup() {
    let entries = listing();
    assert_eq!(resolve_base("DP-1", None, &entries), Some("ACI_23F7".to_string()));
    assert_eq!(resolve_base("dp-1", Some("card0"), &entries), Some("ACI_23F7".to_string()));
    assert_eq!(resolve_base("DP-1", Some("card1"), &entries), None);
}

#[test]
fn a_short_or_empty_edid_is_no_identity() {
    let entries = listing();
    assert!(read_connector_bytes("HDMI-A-1", None, &entries).is_none());
    assert_eq!(read_connector_bytes("DP-4", None, &entries).unwrap().len(), 100);
    assert!(read_connector("DP-4", None, &entries).is_none());
    assert_eq!(read_connector("DP-3", None, &entries).unwrap().product, 0x23F7);
}

#[test]
fn directory_names_are_told_apart() {
    assert!(is_connector_dir("card0-DP-1"));
    assert!(!is_connector_dir("card0"));
    assert!(!is_connector_dir("renderD128"));
    assert!(is_on_card("card0-DP-1", Some("card0")));
    assert!(!is_on_card("card1-DP-1", Some("card0")));
    assert!(is_on_card("card1-DP-1", None));
    assert!(names_connector("card0-dp-1", "dp-1"));
    assert!(!names_connector("card0-dp-11", "dp-1"));
    assert!(names_connector("card0-hdmi-a-1", "hdmi-a-1"));
    assert!(!names_connector("card0-hdmi-a-1", "a-1"));
}
