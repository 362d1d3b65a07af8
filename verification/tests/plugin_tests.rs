use unifi::plugins::nl_output_in_range;
use unifi::plugins::keep_first_beacon;
use unifi::scanner_core::RawBeacon;
use unifi::plugins::{AirportScanner, CoreWlanScanner, LibpcapScanner, Nl80211Scanner, WlanApiScanner};

#[test]
fn lib_test_scanner_info() {
    let scanner = AirportScanner::new();
    assert_eq!(scanner.name(), "airport");
    assert!(scanner.capabilities().has_ie_data);
    assert!(!scanner.requires_privilege());

    let scanner = CoreWlanScanner::new();
    assert_eq!(scanner.name(), "corewlan");
    assert!(scanner.capabilities().app_store_compatible);
    assert!(!scanner.capabilities().has_ie_data);

    let scanner = LibpcapScanner::new();
    assert_eq!(scanner.name(), "libpcap");
    assert!(scanner.capabilities().has_ie_data);
    assert!(scanner.requires_privilege());

    let scanner = Nl80211Scanner::new();
    assert_eq!(scanner.name(), "nl80211");
    assert!(scanner.capabilities().has_ie_data);

    let scanner = WlanApiScanner::new();
    assert_eq!(scanner.name(), "wlanapi");
    assert!(!scanner.requires_privilege());
}

#[test]
fn lib_test_builder() {
    let scanner = Nl80211Scanner::new().with_interface("wlan0");
    assert_eq!(scanner.interface, Some("wlan0".to_string()));

    let scanner = LibpcapScanner::new().with_interface("en0").with_timeout(3000);
    assert_eq!(scanner.interface, Some("en0".to_string()));
    assert_eq!(scanner.timeout_ms, 3000);
}

#[test]
fn libpcap_timeout_is_capped() {
    let scanner = LibpcapScanner::new().with_timeout(u64::MAX);
    assert_eq!(scanner.timeout_ms, i32::MAX);
    let scanner = AirportScanner::with_path("/nonexistent/airport");
    assert_eq!(scanner.airport_path(), "/nonexistent/airport");
}

#[test]
fn libpcap_plugin_reads_beacon() {
    let scanner = LibpcapScanner::new();
    // radiotap: version 0, length 8, present = bit 5 (signal)
    let mut packet = vec![0u8, 0, 8, 0, 0x20, 0, 0, 0];
    // frame: beacon frame control 0x80, then header
    let mut frame = vec![0u8; 36];
    frame[0] = 0x80;
    frame[16..22].copy_from_slice(&[0xAA, 0xBB, 0xCC, 0x01, 0x02, 0x03]);
    packet.extend_from_slice(&frame);
    // SSID "Lab", DS channel 36, RSN, vendor IE
    packet.extend_from_slice(&[0, 3, b'L', b'a', b'b', 3, 1, 36, 48, 2, 1, 0, 221, 5, 0x00, 0x17, 0xf2, 7, 9]);
    let b = scanner.parse_beacon(&packet).expect("beacon");
    assert_eq!(b.bssid.as_deref(), Some("aa:bb:cc:01:02:03"));
    assert_eq!(b.ssid.as_deref(), Some("Lab"));
    assert_eq!(b.channel, Some(36));
    assert_eq!(b.frequency, Some(5180));
    assert!(b.is_secured);
    assert_eq!(b.vendor_ies.len(), 1);
    assert_eq!(b.vendor_ies[0].vendor_type, 7);
    assert_eq!(b.vendor_ies[0].data, vec![9]);
    // the signal byte read at offset 8 is the frame control byte 0x80
    assert_eq!(b.signal, Some(-128));
    assert!(scanner.parse_beacon(&packet[0..40]).is_none());
}

#[test]
fn nl_output_range_check() {
    assert!(nl_output_in_range("BSS 00:11:22:33:44:55\n\tDS Parameter set: channel 6\n"));
    assert!(nl_output_in_range(""));
    assert!(!nl_output_in_range("\tDS Parameter set: 4294967295\n"));
    assert!(nl_output_in_range("\tDS Parameter set: 858992459\n"));
    assert!(!nl_output_in_range("\tDS Parameter set: 858992460\n"));
}

#[test]
fn plugin_capture_keeps_first_beacon() {
    let mut kept: Vec<RawBeacon> = Vec::new();
    let mut a = RawBeacon::new();
    a.bssid = Some("aa".to_string());
    a.signal = Some(-40);
    let mut b = RawBeacon::new();
    b.bssid = Some("aa".to_string());
    b.signal = Some(-30);
    let mut c = RawBeacon::new();
    c.bssid = Some("bb".to_string());
    keep_first_beacon(&mut kept, a);
    keep_first_beacon(&mut kept, b);
    keep_first_beacon(&mut kept, RawBeacon::new());
    keep_first_beacon(&mut kept, c);
    assert_eq!(kept.len(), 2);
    assert_eq!(kept[0].signal, Some(-40));
    assert_eq!(kept[1].bssid, Some("bb".to_string()));
}
