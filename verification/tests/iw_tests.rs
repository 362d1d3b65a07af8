use unifi::scanner::iw::{freq_to_channel, parse_bssid, parse_iw_link, parse_iw_scan};
use unifi::types::{Band, ScanError};

const SCAN: &str = "BSS 80:2d:1a:4b:8c:07(on wlan0)\n\
\tlast seen: 123 ms ago\n\
\tfreq: 5240.0\n\
\tbeacon interval: 100 TUs\n\
\tsignal: -62.00 dBm\n\
\tSSID: HomeNet\n\
\tSupported rates: 6.0* 9.0 12.0* 18.0 24.0* 36.0 48.0 54.0 \n\
\tHT capabilities:\n\
\t\tHT TX/RX MCS rate indexes supported: 0-15\n\
\tHT operation:\n\
\t\t * primary channel: 48\n\
\tVHT capabilities:\n\
\tBSS Load:\n\
BSS 2c:70:4f:63:cf:db(on wlan0) -- associated\n\
\tfreq: 2437\n\
\tsignal: -70.50 dBm\n\
\tSSID: Cafe\n";

#[test]
fn iw_scan_reads_two_networks() {
    let beacons = parse_iw_scan(SCAN, 42).expect("ok");
    assert_eq!(beacons.len(), 2);
    let a = &beacons[0];
    assert_eq!(a.bssid, [0x80, 0x2d, 0x1a, 0x4b, 0x8c, 0x07]);
    assert_eq!(a.ssid, Some(b"HomeNet".to_vec()));
    assert_eq!(a.channel, 48);
    assert_eq!(a.band, Band::Ghz5);
    assert_eq!(a.signal_dbm, -62);
    assert_eq!(a.beacon_interval, 100);
    assert!(a.has_ht && a.has_vht && !a.has_he);
    assert_eq!(a.spatial_streams, Some(2));
    assert_eq!(a.timestamp, 42);
    let mut ie = vec![3, 1, 48];
    ie.extend_from_slice(&[0, 7]);
    ie.extend_from_slice(b"HomeNet");
    ie.extend_from_slice(&[1, 8, 12 | 0x80, 18, 24 | 0x80, 36, 48 | 0x80, 72, 96, 108]);
    assert_eq!(a.ie_data, ie);
    let b = &beacons[1];
    assert_eq!(b.bssid, [0x2c, 0x70, 0x4f, 0x63, 0xcf, 0xdb]);
    assert_eq!(b.channel, 6);
    assert_eq!(b.band, Band::Ghz2_4);
    assert_eq!(b.signal_dbm, -70);
    assert_eq!(b.ie_data, vec![3, 1, 6, 0, 4, b'C', b'a', b'f', b'e']);
}

#[test]
fn iw_scan_of_nothing_is_empty() {
    assert!(parse_iw_scan("", 0).unwrap().is_empty());
    assert!(parse_iw_scan("BSS Load: 3\nfreq: 2412\n", 0).unwrap().is_empty());
}

#[test]
fn iw_link_reads_connection() {
    let out = "Connected to 80:2d:1a:4b:8c:07 (on wlan0)\n\tSSID: HomeNet\n\tfreq: 5180.0\n\tsignal: -59 dBm\n\ttx bitrate: 866.7 MBit/s VHT-MCS 9\n";
    let b = parse_iw_link(out, 7).expect("connected");
    assert!(b.connected);
    assert_eq!(b.bssid, [0x80, 0x2d, 0x1a, 0x4b, 0x8c, 0x07]);
    assert_eq!(b.ssid, Some(b"HomeNet".to_vec()));
    assert_eq!(b.channel, 36);
    assert_eq!(b.signal_dbm, -59);
    assert!(b.ie_data.is_empty());
    let rates = b.link_rates.expect("rates");
    assert_eq!(rates.rx_rate_tenths, None);
    // "866.7 VHT-MCS 9" does not read as a number
    assert_eq!(rates.tx_rate_tenths, Some(0));
    let plain = parse_iw_link("Connected to 00:11:22:33:44:55\n\ttx bitrate: 292.5 MBit/s\n", 0).unwrap();
    assert_eq!(plain.link_rates.unwrap().tx_rate_tenths, Some(2925));
    assert!(parse_iw_link("Not connected.\n", 0).is_none());
}

#[test]
fn bssid_and_channel_helpers() {
    assert_eq!(parse_bssid("80:2d:1a:4b:8c:07"), Ok([0x80, 0x2d, 0x1a, 0x4b, 0x8c, 0x07]));
    assert_eq!(parse_bssid("80:2d:1a"), Err(ScanError::ParseError("Invalid BSSID".to_string())));
    assert_eq!(
        parse_bssid("80:2d:1a:4b:8c:zz"),
        Err(ScanError::ParseError("Invalid BSSID byte".to_string()))
    );
    assert_eq!(freq_to_channel(2412), 1);
    assert_eq!(freq_to_channel(2484), 15);
    assert_eq!(freq_to_channel(5180), 36);
    assert_eq!(freq_to_channel(5955), 0);
}

#[test]
fn iw_scan_bss_color_line_stays_in_entry() {
    let out = "BSS 80:2d:1a:4b:8c:07(on wlan0)\n\tSSID: Home\n\tBSS Color: 5\n";
    let beacons = parse_iw_scan(out, 1).expect("ok");
    assert_eq!(beacons.len(), 1);
    assert_eq!(beacons[0].ssid, Some(b"Home".to_vec()));
    // A short or malformed address opens no entry.
    let bad = "BSS 80:2d:1a(on wlan0)\n\tSSID: X\n";
    assert_eq!(parse_iw_scan(bad, 1).expect("ok").len(), 0);
}
