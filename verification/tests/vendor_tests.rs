use unifi::vendor::{lookup_oui, lookup_vendor, lookup_vendor_from_ie};

#[test]
fn resolves_known_official_oui_prefixes() {
    assert_eq!(lookup_oui("802D1A"), Some("ZTE"));
    assert_eq!(lookup_oui("2C704F"), Some("ZTE"));
    assert_eq!(lookup_oui("F86FB0"), Some("TP-Link"));
}

#[test]
fn resolves_colon_separated_bssid() {
    assert_eq!(lookup_vendor("80:2D:1A:4B:8C:07"), "ZTE");
    assert_eq!(lookup_vendor("2C:70:4F:63:CF:DB"), "ZTE");
    assert_eq!(lookup_vendor("F8:6F:B0:A6:DE:50"), "TP-Link");
}

#[test]
fn resolves_locally_administered_prefixes_via_canonical_oui() {
    assert_eq!(lookup_vendor("6A:DD:B7:78:7F:FF"), "TP-Link");
    assert_eq!(lookup_vendor("1E:3C:D4:00:AB:B0"), "Huawei");
    assert_eq!(lookup_vendor("AE:99:29:8A:B4:90"), "Huawei");
}

#[test]
fn lookup_handles_short_and_unknown_identifiers() {
    assert_eq!(lookup_oui("80:2D"), None);
    assert_eq!(lookup_oui("123456"), None);
    assert_eq!(lookup_vendor("10:34:56:78:9A:BC"), "Unknown");
    assert_eq!(lookup_vendor("02:00:00:00:00:01"), "Locally Administered");
    assert_eq!(lookup_oui("80-2d-1a"), Some("ZTE"));
}

#[test]
fn vendor_from_ie_skips_microsoft_and_wifi_alliance() {
    // WMM (Microsoft OUI), Wi-Fi Alliance, then Huawei
    let ie = vec![
        221, 4, 0x00, 0x50, 0xF2, 0x02, 221, 4, 0x50, 0x6F, 0x9A, 0x10, 221, 4, 0xAC, 0x99, 0x29,
        0x01,
    ];
    assert_eq!(lookup_vendor_from_ie(&ie), Some("Huawei".to_string()));
    assert_eq!(lookup_vendor_from_ie(&ie[0..12]), None);
    assert_eq!(lookup_vendor_from_ie(&[]), None);
}
