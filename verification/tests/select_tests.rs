use unifi::scanner::select::{airport_available, airport_tool_path, is_channel_control_supported, scanner_choice, ScannerKind};
use unifi::scanner::iw::interface_from_iw_dev;
use unifi::scanner::select::{
    list_scanners, macos_26_or_later_from, parse_scanner_mode, scanner_infos, ScannerMode,
};
use unifi::scanner_core::Platform;

#[test]
fn test_scanner_list_corewlan_available() {
    let scanners = list_scanners(Platform::MacOS, true, false, false, true);
    let corewlan = scanners.iter().find(|(name, _, _)| *name == "CoreWLAN");
    assert!(corewlan.is_some(), "CoreWLAN should be in scanner list");
    let (_, available, _) = corewlan.unwrap();
    assert!(*available, "CoreWLAN should be marked as available");
}

#[test]
fn test_scanner_list_includes_all() {
    let scanners = list_scanners(Platform::MacOS, false, true, false, true);
    assert!(scanners.iter().any(|(n, _, _)| *n == "CoreWLAN"));
    assert!(scanners.iter().any(|(n, _, _)| *n == "Airport"));
    assert!(scanners.iter().any(|(n, _, _)| *n == "Libpcap"));
}

#[test]
fn test_scanner_list_not_empty() {
    for platform in [Platform::Linux, Platform::Windows] {
        for built in [false, true] {
            let scanners = list_scanners(platform, false, false, false, built);
            assert!(!scanners.is_empty(), "Scanner list should not be empty");
        }
    }
}

#[test]
fn test_scanner_list_macos_details() {
    let s = list_scanners(Platform::MacOS, true, true, false, true);
    assert_eq!(s, vec![("CoreWLAN", true, false), ("Airport", false, false), ("Libpcap", false, true)]);
    let s = list_scanners(Platform::MacOS, false, true, true, true);
    assert_eq!(s, vec![("CoreWLAN", true, false), ("Airport", true, false), ("Libpcap", true, true)]);
    let s = list_scanners(Platform::Linux, false, false, true, true);
    assert_eq!(s, vec![("nl80211", true, false), ("Libpcap", true, true)]);
    let s = list_scanners(Platform::Linux, false, false, true, false);
    assert_eq!(s, vec![("nl80211", true, false)]);
}

#[test]
fn test_scanner_infos() {
    let list = list_scanners(Platform::MacOS, false, true, false, true);
    let infos = scanner_infos(&list);
    assert_eq!(infos.len(), 3);
    assert_eq!(infos[0].name, "CoreWLAN");
    assert!(infos[0].available && !infos[0].requires_root);
    assert_eq!(infos[2].name, "Libpcap");
    assert!(!infos[2].available && infos[2].requires_root);
}

#[test]
fn test_parse_scanner_mode_platforms() {
    assert_eq!(parse_scanner_mode("  CoreWLAN ", Platform::MacOS, false), ScannerMode::CoreWLAN);
    assert_eq!(parse_scanner_mode("airport", Platform::MacOS, false), ScannerMode::Airport);
    assert_eq!(parse_scanner_mode("LIBPCAP", Platform::MacOS, false), ScannerMode::Libpcap);
    assert_eq!(parse_scanner_mode("corewlan", Platform::Linux, true), ScannerMode::Default);
    assert_eq!(parse_scanner_mode("libpcap", Platform::Linux, true), ScannerMode::Libpcap);
    assert_eq!(parse_scanner_mode("libpcap", Platform::Linux, false), ScannerMode::Default);
    assert_eq!(parse_scanner_mode("libpcap", Platform::Windows, true), ScannerMode::Default);
    assert_eq!(parse_scanner_mode("nonsense", Platform::MacOS, true), ScannerMode::Default);
}

#[test]
fn test_macos_version() {
    assert!(macos_26_or_later_from(b"26.0.1\n"));
    assert!(macos_26_or_later_from(b"  27\n"));
    assert!(!macos_26_or_later_from(b"15.6.1\n"));
    assert!(!macos_26_or_later_from(b""));
    assert!(!macos_26_or_later_from(b"x.1"));
}

#[test]
fn test_interface_from_iw_dev() {
    let out = "phy#0\n\tInterface wlp2s0\n\t\tifindex 3\n\t\ttype managed\n";
    assert_eq!(interface_from_iw_dev(out), Some(Some("wlp2s0".to_string())));
    assert_eq!(interface_from_iw_dev("phy#0\n"), None);
    assert_eq!(interface_from_iw_dev(""), None);
}

#[test]
fn test_scanner_choice() {
    assert_eq!(scanner_choice(Platform::MacOS, ScannerMode::Default, false, true), ScannerKind::Airport);
    assert_eq!(scanner_choice(Platform::MacOS, ScannerMode::Default, true, true), ScannerKind::CoreWlan);
    assert_eq!(scanner_choice(Platform::MacOS, ScannerMode::Default, false, false), ScannerKind::CoreWlan);
    assert_eq!(scanner_choice(Platform::MacOS, ScannerMode::Airport, true, false), ScannerKind::Airport);
    assert_eq!(scanner_choice(Platform::MacOS, ScannerMode::Libpcap, true, false), ScannerKind::Libpcap);
    assert_eq!(scanner_choice(Platform::Windows, ScannerMode::Libpcap, false, false), ScannerKind::WlanApi);
    assert_eq!(scanner_choice(Platform::Linux, ScannerMode::Libpcap, false, false), ScannerKind::Libpcap);
    assert_eq!(scanner_choice(Platform::Linux, ScannerMode::Default, false, false), ScannerKind::Nl80211);
}

#[test]
fn test_channel_control_platforms() {
    assert!(is_channel_control_supported(Platform::MacOS));
    assert!(is_channel_control_supported(Platform::Linux));
    assert!(!is_channel_control_supported(Platform::Windows));
}

#[test]
fn test_airport_tool_only_on_macos() {
    assert!(!airport_available(Platform::Linux, true));
    assert!(!airport_available(Platform::Windows, true));
    assert!(airport_available(Platform::MacOS, true));
    assert!(!airport_available(Platform::MacOS, false));
    assert!(airport_tool_path().ends_with("/Resources/airport"));
}

#[test]
fn test_scanner_mode_by_normalized_name() {
    assert_eq!(
        parse_scanner_mode("  CoreWLAN \t", Platform::MacOS, false),
        parse_scanner_mode("corewlan", Platform::MacOS, false)
    );
    assert_eq!(parse_scanner_mode(" AIRPORT", Platform::MacOS, false), ScannerMode::Airport);
    assert_eq!(parse_scanner_mode("LibPcap ", Platform::MacOS, false), ScannerMode::Libpcap);
    assert_eq!(parse_scanner_mode("corewlan", Platform::Windows, true), ScannerMode::Default);
    assert_eq!(parse_scanner_mode("nl80211", Platform::MacOS, true), ScannerMode::Default);
}
