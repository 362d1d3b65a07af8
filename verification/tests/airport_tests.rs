use unifi::plugins::AirportScanner;
use unifi::scanner::airport::{
    beacons_from_listing, current_from_info, listing_bssid, network_from_plist, parse_airport_xml,
    parse_current_info, PlistNetwork,
};
use unifi::types::{Band, ScanError};

fn entry(bssid: Option<&str>) -> PlistNetwork {
    PlistNetwork {
        bssid: bssid.map(|s| s.to_string()),
        ssid: Some("Cafe".to_string()),
        channel: Some(36),
        rssi: Some(-55),
        noise: Some(-92),
        ie: Some(vec![0, 4, b'C', b'a', b'f', b'e']),
        beacon_interval: Some(102),
    }
}

#[test]
fn test_network_from_plist() {
    let b = network_from_plist(entry(Some("a0:b1:c2:d3:e4:f5")), 77).unwrap();
    assert_eq!(b.bssid, [0xa0, 0xb1, 0xc2, 0xd3, 0xe4, 0xf5]);
    assert_eq!(b.ssid, Some(b"Cafe".to_vec()));
    assert_eq!(b.channel, 36);
    assert_eq!(b.band, Band::Ghz5);
    assert_eq!(b.signal_dbm, -55);
    assert_eq!(b.noise_dbm, -92);
    assert_eq!(b.beacon_interval, 102);
    assert_eq!(b.ie_data.len(), 6);
    assert_eq!(b.timestamp, 77);
    assert!(!b.connected);
}

#[test]
fn test_network_from_plist_defaults() {
    let mut e = entry(Some("00:00:00:00:00:01"));
    e.ssid = None;
    e.channel = None;
    e.rssi = None;
    e.noise = None;
    e.ie = None;
    e.beacon_interval = None;
    let b = network_from_plist(e, 0).unwrap();
    assert_eq!(b.ssid, None);
    assert_eq!(b.channel, 0);
    assert_eq!(b.band, Band::Ghz2_4);
    assert_eq!(b.signal_dbm, -100);
    assert_eq!(b.noise_dbm, -100);
    assert_eq!(b.beacon_interval, 100);
    assert!(b.ie_data.is_empty());
}

#[test]
fn test_network_from_plist_cuts_integers() {
    let mut e = entry(Some("00:00:00:00:00:01"));
    e.channel = Some(300);
    let b = network_from_plist(e, 0).unwrap();
    assert_eq!(b.channel, 44);
}

#[test]
fn test_network_from_plist_errors() {
    assert_eq!(
        network_from_plist(entry(None), 0).err(),
        Some(ScanError::ParseError("Missing BSSID".to_string()))
    );
    assert_eq!(
        network_from_plist(entry(Some("a0:b1:c2")), 0).err(),
        Some(ScanError::ParseError("Invalid BSSID format".to_string()))
    );
    assert_eq!(
        listing_bssid("a0:b1:c2:d3:e4:zz"),
        Err(ScanError::ParseError("Invalid BSSID byte".to_string()))
    );
}

#[test]
fn test_beacons_from_listing() {
    let list = vec![Some(entry(Some("00:00:00:00:00:01"))), None, Some(entry(None)), Some(entry(Some("00:00:00:00:00:02")))];
    let beacons = beacons_from_listing(list, 5);
    assert_eq!(beacons.len(), 2);
    assert_eq!(beacons[0].bssid[5], 1);
    assert_eq!(beacons[1].bssid[5], 2);
}

#[test]
fn test_parse_current_info() {
    let report = "     agrCtlRSSI: -47\n     agrExtRSSI: 0\n    agrCtlNoise: -92\n          state: running\n        op mode: station \n     lastTxRate: 867\n        maxRate: 867\n          BSSID: 80:2d:1a:4b:8c:07\n           SSID: HomeNet\n        channel: 149,80\n";
    let b = parse_current_info(report, 9).unwrap();
    assert_eq!(b.ssid, Some(b"HomeNet".to_vec()));
    assert_eq!(b.bssid, [0x80, 0x2d, 0x1a, 0x4b, 0x8c, 0x07]);
    assert_eq!(b.signal_dbm, -47);
    assert_eq!(b.channel, 149);
    assert_eq!(b.band, Band::Ghz5);
    assert_eq!(b.noise_dbm, -90);
    assert_eq!(b.beacon_interval, 100);
    assert!(b.connected);
    assert_eq!(b.timestamp, 9);
}

#[test]
fn test_parse_current_info_without_ssid() {
    assert!(parse_current_info("     agrCtlRSSI: -47\n", 0).is_none());
    let b = parse_current_info("SSID: x\nagrCtlRSSI: strong\nchannel: wide\n", 0).unwrap();
    assert_eq!(b.signal_dbm, -100);
    assert_eq!(b.channel, 0);
    assert_eq!(b.bssid, [0; 6]);
}

#[test]
fn test_current_from_info() {
    assert!(current_from_info("AirPort: Off\n", 0).is_none());
    assert!(current_from_info("", 0).is_none());
    assert!(current_from_info("SSID: Cafe\n", 0).is_some());
}

#[test]
fn test_plugin_listing() {
    let scanner = AirportScanner::new();
    let mut e = entry(Some("aa:bb:cc:dd:ee:ff"));
    e.channel = Some(6);
    let beacons = scanner.beacons_from_listing(Some(vec![Some(e), None, Some(entry(None))]));
    assert_eq!(beacons.len(), 2);
    assert_eq!(beacons[0].bssid, Some("aa:bb:cc:dd:ee:ff".to_string()));
    assert_eq!(beacons[0].ssid, Some("Cafe".to_string()));
    assert_eq!(beacons[0].channel, Some(6));
    assert_eq!(beacons[0].frequency, Some(2437));
    assert_eq!(beacons[0].signal, Some(-55));
    assert_eq!(beacons[1].bssid, None);
    assert_eq!(beacons[1].frequency, Some(5180));
    assert!(scanner.beacons_from_listing(None).is_empty());
}

const HEAD: &str = "<?xml version=\"1.0\" encoding=\"UTF-8\"?>\n<!DOCTYPE plist PUBLIC \"-//Apple//DTD PLIST 1.0//EN\" \"http://www.apple.com/DTDs/PropertyList-1.0.dtd\">\n<plist version=\"1.0\">";

const NET: &str = "<dict><key>BSSID</key><string>80:2d:1a:4b:8c:07</string><key>SSID_STR</key><string>Home</string><key>CHANNEL</key><integer>36</integer><key>RSSI</key><integer>-55</integer><key>NOISE</key><integer>-92</integer><key>IE</key><data>AAR0ZXN0</data><key>BEACON_INT</key><integer>100</integer></dict>";

#[test]
fn test_parse_airport_xml_listing() {
    let xml = format!("{}<array>{}<string>not a network</string><dict><key>SSID_STR</key><string>NoBssid</string></dict></array></plist>", HEAD, NET);
    let beacons = parse_airport_xml(&xml, 9).expect("listing reads");
    assert_eq!(beacons.len(), 1);
    let b = &beacons[0];
    assert_eq!(b.bssid, [0x80, 0x2d, 0x1a, 0x4b, 0x8c, 0x07]);
    assert_eq!(b.ssid, Some(b"Home".to_vec()));
    assert_eq!(b.channel, 36);
    assert_eq!(b.signal_dbm, -55);
    assert_eq!(b.noise_dbm, -92);
    assert_eq!(b.beacon_interval, 100);
    assert_eq!(b.ie_data, vec![0x00, 0x04, b't', b'e', b's', b't']);
    assert_eq!(b.timestamp, 9);
}

#[test]
fn test_parse_airport_xml_errors() {
    let top_dict = format!("{}<dict><key>A</key><integer>1</integer></dict></plist>", HEAD);
    match parse_airport_xml(&top_dict, 0) {
        Err(ScanError::ParseError(m)) => assert_eq!(m, "Expected array"),
        other => panic!("unexpected {:?}", other.map(|v| v.len())),
    }
    assert!(matches!(parse_airport_xml("not a plist", 0), Err(ScanError::ParseError(_))));
}

#[test]
fn test_airport_plugin_parse_xml() {
    let scanner = AirportScanner::new();
    let xml = format!("{}<dict><key>DYNAMIC_PLIST</key><array>{}<integer>3</integer></array></dict></plist>", HEAD, NET);
    let beacons = scanner.parse_xml_checked(&xml).expect("in range").expect("reads");
    assert_eq!(beacons.len(), 1);
    assert_eq!(beacons[0].bssid, Some("80:2d:1a:4b:8c:07".to_string()));
    assert_eq!(beacons[0].ssid, Some("Home".to_string()));
    assert_eq!(beacons[0].channel, Some(36));
    assert_eq!(beacons[0].frequency, Some(5180));
    assert_eq!(beacons[0].signal, Some(-55));
    // No network list gives no beacons.
    let empty = format!("{}<dict><key>Other</key><integer>1</integer></dict></plist>", HEAD);
    assert_eq!(scanner.parse_xml_checked(&empty).expect("in range").expect("reads").len(), 0);
    // A channel past the 32-bit frequency range.
    let big = format!("{}<dict><key>DYNAMIC_PLIST</key><array><dict><key>CHANNEL</key><integer>900000000</integer></dict></array></dict></plist>", HEAD);
    assert!(scanner.parse_xml_checked(&big).is_none());
    match scanner.parse_xml_checked("garbage").expect("in range") {
        Err(unifi::scanner_core::ScanError::Parse(m)) => assert!(m.starts_with("Failed to parse plist: ")),
        _ => panic!("expected a parse error"),
    }
}
