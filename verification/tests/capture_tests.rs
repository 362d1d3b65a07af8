use unifi::scanner::libpcap::{is_wifi_port, keep_beacon, pick_linux_interface, LibpcapScanner};
use unifi::types::{RawBeacon, ScanError};

#[test]
fn test_libpcap_needs_root() {
    let s = LibpcapScanner::from_probe(false, Some("wlan0".to_string()));
    assert!(!s.is_available());
    assert_eq!(
        s.unavailable_reason(),
        Some("Requires root/sudo privileges. Run with: sudo unifi-cli scan --scanner libpcap")
    );
    assert_eq!(
        s.capture_interface(),
        Err(ScanError::CommandFailed(
            "Requires root/sudo privileges. Run with: sudo unifi-cli scan --scanner libpcap".to_string()
        ))
    );
    assert!(s.requires_privilege());
    assert_eq!(s.name(), "Libpcap Beacon Capture");
}

#[test]
fn test_libpcap_needs_interface() {
    let s = LibpcapScanner::from_probe(true, None);
    assert!(!s.is_available());
    assert_eq!(s.unavailable_reason(), Some("No WiFi interface found"));
    assert_eq!(
        s.capture_interface(),
        Err(ScanError::CommandFailed("No WiFi interface found".to_string()))
    );
}

#[test]
fn test_libpcap_ready() {
    let s = LibpcapScanner::from_probe(true, Some("wlan1".to_string()));
    assert!(s.is_available());
    assert_eq!(s.unavailable_reason(), None);
    assert_eq!(s.capture_interface(), Ok("wlan1".to_string()));
}

fn beacon(last: u8, ie_len: usize, signal: i16) -> RawBeacon {
    let mut b = RawBeacon::default();
    b.bssid = [0, 1, 2, 3, 4, last];
    b.ie_data = vec![0u8; ie_len];
    b.signal_dbm = signal;
    b
}

#[test]
fn test_keep_beacon_keeps_richest() {
    let mut kept: Vec<RawBeacon> = Vec::new();
    keep_beacon(&mut kept, beacon(1, 10, -50));
    keep_beacon(&mut kept, beacon(2, 5, -60));
    assert_eq!(kept.len(), 2);
    // Less IE data: the earlier beacon stays.
    keep_beacon(&mut kept, beacon(1, 4, -40));
    assert_eq!(kept[0].signal_dbm, -50);
    // Equal IE data: the earlier beacon stays.
    keep_beacon(&mut kept, beacon(1, 10, -45));
    assert_eq!(kept[0].signal_dbm, -50);
    // More IE data: replaced in place.
    keep_beacon(&mut kept, beacon(1, 20, -70));
    assert_eq!(kept.len(), 2);
    assert_eq!(kept[0].signal_dbm, -70);
    assert_eq!(kept[0].ie_data.len(), 20);
    assert_eq!(kept[1].bssid, [0, 1, 2, 3, 4, 2]);
}

#[test]
fn test_pick_linux_interface() {
    let names: Vec<String> = ["lo", "eth0", "wlp3s0", "wlan0"].iter().map(|s| s.to_string()).collect();
    assert_eq!(pick_linux_interface(&names), Some("wlp3s0".to_string()));
    let wired: Vec<String> = ["lo", "eth0"].iter().map(|s| s.to_string()).collect();
    assert_eq!(pick_linux_interface(&wired), None);
    assert_eq!(pick_linux_interface(&Vec::new()), None);
}

#[test]
fn test_is_wifi_port() {
    let listing = "\nHardware Port: Ethernet\nDevice: en0\nEthernet Address: 00:11:22:33:44:55\n\nHardware Port: Wi-Fi\nDevice: en1\nEthernet Address: 66:77:88:99:aa:bb\n";
    assert!(is_wifi_port(listing, "en1"));
    assert!(!is_wifi_port(listing, "en2"));
    // Not found: only en0 counts as WiFi.
    assert!(is_wifi_port("", "en0"));
    assert!(!is_wifi_port("", "en5"));
    // The device line closes the WiFi port.
    let two = "Hardware Port: Wi-Fi\nDevice: en3\nHardware Port: Thunderbolt\nDevice: en4\n";
    assert!(!is_wifi_port(two, "en4"));
    assert!(is_wifi_port(two, "en3"));
}
