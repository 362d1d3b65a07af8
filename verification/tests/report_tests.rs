use unifi::parser::details::ie_details_from_hex;
use unifi::report::{band_matches, center_frequency_mhz, find_beacon, truncate};
use unifi::text::{decode_hex_data, HexError};
use unifi::types::{Band, RawBeacon};

#[test]
fn test_truncate_short_names_stay() {
    assert_eq!(truncate("Office", 32), "Office");
    assert_eq!(truncate("", 3), "");
    assert_eq!(truncate("12345678", 8), "12345678");
}

#[test]
fn test_truncate_long_names() {
    assert_eq!(truncate("abcdefghij", 8), "abcde...");
    assert_eq!(
        truncate("A very long network name that goes on", 32),
        "A very long network name that..."
    );
    assert_eq!(truncate("abcd", 3), "...");
}

#[test]
fn test_truncate_counts_bytes() {
    // "é" takes two bytes: "héllo" is six bytes long.
    assert_eq!(truncate("héllo", 6), "héllo");
    assert_eq!(truncate("héllo", 5), "hé...");
}

#[test]
fn test_band_filter() {
    assert!(band_matches(Band::Ghz2_4, "all"));
    assert!(band_matches(Band::Ghz6, "all"));
    assert!(band_matches(Band::Ghz2_4, "2.4"));
    assert!(band_matches(Band::Ghz5, "5"));
    assert!(!band_matches(Band::Ghz5, "2.4"));
    assert!(!band_matches(Band::Ghz6, "5"));
    assert!(!band_matches(Band::Ghz5, "ALL"));
}

fn beacon(bssid: [u8; 6]) -> RawBeacon {
    let mut b = RawBeacon::default();
    b.bssid = bssid;
    b
}

#[test]
fn test_find_beacon_by_bssid() {
    let beacons = vec![
        beacon([0x80, 0x2d, 0x1a, 0x4b, 0x8c, 0x07]),
        beacon([0xaa, 0xbb, 0xcc, 0xdd, 0xee, 0xff]),
        beacon([0xaa, 0xbb, 0xcc, 0xdd, 0xee, 0xff]),
    ];
    assert_eq!(find_beacon(&beacons, "80:2D:1A:4B:8C:07"), Some(0));
    assert_eq!(find_beacon(&beacons, "aa:bb:cc:dd:ee:ff"), Some(1));
    assert_eq!(find_beacon(&beacons, "aabbccddeeff"), None);
    assert_eq!(find_beacon(&Vec::<RawBeacon>::new(), "aa:bb:cc:dd:ee:ff"), None);
}

#[test]
fn test_decode_hex_data() {
    assert_eq!(decode_hex_data("dd05"), Ok(vec![0xdd, 0x05]));
    assert_eq!(decode_hex_data("DD05aB"), Ok(vec![0xdd, 0x05, 0xab]));
    assert_eq!(decode_hex_data(""), Ok(vec![]));
    assert_eq!(decode_hex_data("abc"), Err(HexError::OddLength));
    assert_eq!(decode_hex_data("zz"), Err(HexError::InvalidHexCharacter { c: 'z', index: 0 }));
    assert_eq!(decode_hex_data("0g"), Err(HexError::InvalidHexCharacter { c: 'g', index: 1 }));
}

#[test]
fn test_ie_details_from_hex() {
    let d = ie_details_from_hex("000474657374").unwrap();
    assert_eq!(d.total_length, 6);
    assert_eq!(d.raw_hex, "000474657374");
    assert_eq!(d.elements.len(), 1);
    assert_eq!(d.elements[0].element_id, 0);
    assert!(matches!(ie_details_from_hex("0004747"), Err(HexError::OddLength)));
}

#[test]
fn test_hex_round_trip() {
    let bytes: Vec<u8> = (0u8..=255).collect();
    let text: String = bytes.iter().map(|b| format!("{:02x}", b)).collect();
    assert_eq!(decode_hex_data(&text), Ok(bytes));
}

#[test]
fn test_center_frequency_mhz() {
    assert_eq!(center_frequency_mhz(42), 5210);
    assert_eq!(center_frequency_mhz(0), 5000);
    assert_eq!(center_frequency_mhz(155), 5775);
}
