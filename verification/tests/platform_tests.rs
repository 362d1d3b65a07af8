use unifi::plugins::{CoreWlanScanner, WlanApiScanner};
use unifi::scanner::corewlan::{cw_current_beacon, cw_network_beacon, CwNetwork};
use unifi::scanner::wlanapi::{
    band_from_frequency, beacon_from_bss, channel_from_frequency, check_wlan_status,
    connected_beacon, interfaces_found, scan_outcome, signal_quality_to_dbm, ssid_bytes,
};
use unifi::types::{Band, ScanError};

fn field(name: &[u8]) -> [u8; 32] {
    let mut f = [0u8; 32];
    f[..name.len()].copy_from_slice(name);
    f
}

#[test]
fn test_windows_frequencies() {
    assert_eq!(channel_from_frequency(2_412_000), 1);
    assert_eq!(channel_from_frequency(2_484_000), 15);
    assert_eq!(channel_from_frequency(5_180_000), 36);
    assert_eq!(channel_from_frequency(5_955_000), 1);
    assert_eq!(channel_from_frequency(900_000), 0);
    assert_eq!(band_from_frequency(2_437_000), Band::Ghz2_4);
    assert_eq!(band_from_frequency(5_745_000), Band::Ghz5);
    assert_eq!(band_from_frequency(6_115_000), Band::Ghz6);
}

#[test]
fn test_windows_quality_and_ssid() {
    assert_eq!(signal_quality_to_dbm(0), -100);
    assert_eq!(signal_quality_to_dbm(81), -60);
    assert_eq!(signal_quality_to_dbm(100), -50);
    assert_eq!(signal_quality_to_dbm(250), -50);
    assert_eq!(ssid_bytes(&field(b"Cafe"), 4), Some(b"Cafe".to_vec()));
    assert_eq!(ssid_bytes(&field(b"Cafe"), 0), None);
    assert_eq!(ssid_bytes(&field(b"Cafe"), 33), None);
}

#[test]
fn test_windows_status_and_outcome() {
    assert_eq!(check_wlan_status(0, "WlanOpenHandle"), Ok(()));
    assert_eq!(
        check_wlan_status(1168, "WlanEnumInterfaces"),
        Err(ScanError::CommandFailed("WlanEnumInterfaces failed with Win32 error 1168".to_string()))
    );
    let errs = vec!["a failed".to_string(), "b failed".to_string()];
    assert_eq!(
        scan_outcome(vec![], errs.clone(), 2).err(),
        Some(ScanError::CommandFailed("a failed; b failed".to_string()))
    );
    assert!(scan_outcome(vec![], errs, 3).unwrap().is_empty());
    assert!(scan_outcome(vec![], vec![], 0).unwrap().is_empty());
}

#[test]
fn test_windows_bss_entry() {
    let b = beacon_from_bss(&field(b"Office"), 6, [1, 2, 3, 4, 5, 6], 5_180_000, -61, vec![0, 0], 100, 5_000_000, 42);
    assert_eq!(b.ssid, Some(b"Office".to_vec()));
    assert_eq!(b.channel, 36);
    assert_eq!(b.band, Band::Ghz5);
    assert_eq!(b.signal_dbm, -61);
    assert_eq!(b.noise_dbm, -100);
    assert_eq!(b.uptime_ms, Some(5000));
    assert_eq!(b.timestamp, 42);
    assert!(!b.connected);
}

#[test]
fn test_windows_connected_beacon() {
    let scanned = vec![
        beacon_from_bss(&field(b"A"), 1, [1; 6], 2_412_000, -70, vec![], 100, 0, 1),
        beacon_from_bss(&field(b"B"), 1, [2; 6], 5_180_000, -60, vec![1, 2], 100, 0, 1),
    ];
    let b = connected_beacon(scanned.clone(), [2; 6], &field(b"X"), 1, 80, 9);
    assert_eq!(b.ssid, Some(b"B".to_vec()));
    assert_eq!(b.channel, 36);
    assert!(b.connected);
    assert_eq!(b.signal_dbm, -60);
    assert_eq!(b.timestamp, 9);
    let b = connected_beacon(scanned, [3; 6], &field(b"X"), 1, 50, 9);
    assert_eq!(b.ssid, Some(b"X".to_vec()));
    assert_eq!(b.bssid, [3; 6]);
    assert_eq!(b.channel, 0);
    assert_eq!(b.signal_dbm, -75);
    assert_eq!(b.beacon_interval, 100);
}

#[test]
fn test_corewlan_network() {
    let n = CwNetwork {
        ssid: Some("Lab".to_string()),
        bssid: Some("aa:bb:cc:dd:ee:ff".to_string()),
        rssi: -58,
        noise: -95,
        channel: Some(149),
        beacon_interval: 102_400,
    };
    let b = cw_network_beacon(&n, 3);
    assert_eq!(b.ssid, Some(b"Lab".to_vec()));
    assert_eq!(b.bssid, [0xaa, 0xbb, 0xcc, 0xdd, 0xee, 0xff]);
    assert_eq!(b.channel, 149);
    assert_eq!(b.band, Band::Ghz5);
    assert_eq!(b.noise_dbm, -95);
    assert_eq!(b.beacon_interval, 100);
    let hidden = CwNetwork { ssid: Some(String::new()), bssid: None, rssi: -70, noise: 0, channel: None, beacon_interval: 0 };
    let b = cw_network_beacon(&hidden, 3);
    assert_eq!(b.ssid, None);
    assert_eq!(b.bssid, [0; 6]);
    assert_eq!(b.channel, 0);
    assert_eq!(b.beacon_interval, 100);
}

#[test]
fn test_corewlan_current() {
    assert!(cw_current_beacon("", -50, Some(6), 0).is_none());
    let b = cw_current_beacon("Home", -50, Some(6), 7).unwrap();
    assert_eq!(b.ssid, Some(b"Home".to_vec()));
    assert_eq!(b.channel, 6);
    assert_eq!(b.band, Band::Ghz2_4);
    assert_eq!(b.noise_dbm, -90);
    assert!(b.connected);
}

#[test]
fn test_plugin_network_beacons() {
    let cw = CoreWlanScanner::new();
    let b = cw.network_beacon(Some("Lab".to_string()), None, -40, Some((36, 2)));
    assert_eq!(b.channel, Some(36));
    assert_eq!(b.frequency, Some(5180));
    assert_eq!(b.signal, Some(-40));
    let b = cw.network_beacon(None, None, -40, Some((5, 1)));
    assert_eq!(b.frequency, Some(2432));
    let b = cw.network_beacon(None, None, -40, Some((5, 3)));
    assert_eq!(b.frequency, Some(5975));
    let b = cw.network_beacon(None, None, -40, Some((5, 0)));
    assert_eq!(b.frequency, None);

    let w = WlanApiScanner::new();
    let b = w.network_beacon(&field(b"Cafe"), 4, 80, true);
    assert_eq!(b.ssid, Some("Cafe".to_string()));
    assert_eq!(b.signal, Some(-60));
    assert!(b.is_secured);
    let b = w.network_beacon(&field(&[0xff, 0xfe]), 2, 0, false);
    assert_eq!(b.ssid, Some(String::new()));
    let b = w.network_beacon(&field(b""), 0, 0, false);
    assert_eq!(b.ssid, None);
}

#[test]
fn test_interfaces_found() {
    assert!(interfaces_found(2).is_ok());
    assert!(matches!(interfaces_found(0), Err(ScanError::NoInterface)));
}
