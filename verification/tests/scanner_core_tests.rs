use unifi::scanner_core::{Band, RawBeacon, ScanError, VendorIE, WiFiStandard};

#[test]
fn test_error_display() {
    let err = ScanError::PermissionDenied("libpcap requires root".to_string());
    assert!(err.message().contains("Permission denied"));

    let err = ScanError::Timeout(5000);
    assert!(err.message().contains("5000ms"));
}

#[test]
fn test_error_checks() {
    let err = ScanError::PermissionDenied("test".to_string());
    assert!(err.is_permission_denied());
    assert!(!err.is_timeout());

    let err = ScanError::Timeout(1000);
    assert!(err.is_timeout());
    assert!(!err.is_permission_denied());

    let err = ScanError::NotAvailable("test".to_string());
    assert!(err.is_not_available());
}

#[test]
fn test_platform_error() {
    let err = ScanError::platform("macOS", "airport not found");
    assert!(err.message().contains("macOS"));
    assert!(err.message().contains("airport not found"));
}

#[test]
fn error_messages_are_exact() {
    assert_eq!(ScanError::Timeout(5000).message(), "Scan timed out after 5000ms");
    assert_eq!(ScanError::platform("macOS", "x").message(), "macOS: x");
    assert_eq!(
        ScanError::NotAvailable("airport".to_string()).message(),
        "Scanner 'airport' is not available on this platform"
    );
    assert_eq!(ScanError::NoNetworks.message(), "No networks found");
}

#[test]
fn test_raw_beacon_band() {
    let mut beacon = RawBeacon::new();

    beacon.frequency = Some(2412);
    assert_eq!(beacon.band(), Some(Band::Band24));

    beacon.frequency = Some(5180);
    assert_eq!(beacon.band(), Some(Band::Band5));

    beacon.frequency = Some(6100);
    assert_eq!(beacon.band(), Some(Band::Band6));
}

#[test]
fn test_raw_beacon_band_edges() {
    let mut beacon = RawBeacon::new();
    beacon.frequency = Some(5955);
    assert_eq!(beacon.band(), Some(Band::Band6));
    beacon.frequency = Some(5925);
    assert_eq!(beacon.band(), Some(Band::Band6));
    beacon.frequency = Some(7125);
    assert_eq!(beacon.band(), Some(Band::Band6));
    beacon.frequency = Some(5924);
    assert_eq!(beacon.band(), Some(Band::Band5));
    beacon.frequency = Some(7126);
    assert_eq!(beacon.band(), None);
}

#[test]
fn test_signal_quality() {
    let mut beacon = RawBeacon::new();

    beacon.signal = Some(-30);
    assert_eq!(beacon.signal_quality(), Some(100));

    beacon.signal = Some(-60);
    assert_eq!(beacon.signal_quality(), Some(50));

    beacon.signal = Some(-90);
    assert_eq!(beacon.signal_quality(), Some(0));

    beacon.signal = Some(-100);
    assert_eq!(beacon.signal_quality(), Some(0));
}

#[test]
fn signal_quality_matches_float_formula() {
    let mut beacon = RawBeacon::new();
    for s in -200i32..=50 {
        beacon.signal = Some(s);
        let expected = ((s + 90) as f32 / 60.0 * 100.0).clamp(0.0, 100.0) as u8;
        assert_eq!(beacon.signal_quality(), Some(expected), "signal {}", s);
    }
}

#[test]
fn test_hidden_ssid() {
    let mut beacon = RawBeacon::new();
    assert!(beacon.is_hidden());

    beacon.ssid = Some("".to_string());
    assert!(beacon.is_hidden());

    beacon.ssid = Some("MyNetwork".to_string());
    assert!(!beacon.is_hidden());
}

#[test]
fn test_wifi_standard_generation() {
    assert_eq!(WiFiStandard::N.generation(), 4);
    assert_eq!(WiFiStandard::AC.generation(), 5);
    assert_eq!(WiFiStandard::AX.generation(), 6);
    assert_eq!(WiFiStandard::BE.generation(), 7);
}

#[test]
fn vendor_ie_names_vendors() {
    let apple = VendorIE { oui: [0x00, 0x17, 0xf2], vendor_type: 1, data: vec![] };
    assert!(apple.is_apple());
    assert_eq!(apple.vendor_name(), "Apple");
    let shared = VendorIE { oui: [0x00, 0x0c, 0xe5], vendor_type: 1, data: vec![] };
    assert!(shared.is_broadcom() && shared.is_qualcomm());
    assert_eq!(shared.vendor_name(), "Broadcom");
    let atheros = VendorIE { oui: [0x00, 0x03, 0x7f], vendor_type: 1, data: vec![] };
    assert_eq!(atheros.vendor_name(), "Qualcomm");
    let other = VendorIE { oui: [0x12, 0x34, 0x56], vendor_type: 1, data: vec![] };
    assert_eq!(other.vendor_name(), "Unknown");
}
