use unifi::parser::beacon::{intersect_standards, normalize_standards_for_band, normalize_width_for_band};
use unifi::scanner::iw::{freq_to_channel, parse_bssid};
use unifi::scanner_core::RawBeacon as CoreBeacon;
use unifi::types::{Band, RawBeacon};
use unifi::vendor::lookup_vendor;

fn strings(v: &[&str]) -> Vec<String> {
    v.iter().map(|s| s.to_string()).collect()
}

#[test]
fn test_bssid_text_reads_back() {
    for bssid in [[0u8; 6], [0xff; 6], [0x80, 0x2d, 0x1a, 0x4b, 0x8c, 0x07], [1, 2, 3, 4, 5, 0xab]] {
        let mut b = RawBeacon::default();
        b.bssid = bssid;
        assert_eq!(parse_bssid(&b.bssid_string()), Ok(bssid));
    }
}

#[test]
fn test_channel_frequency_round_trip() {
    for ch in 1u8..=13 {
        let f = 2407 + 5 * ch as u32;
        assert_eq!(freq_to_channel(f), ch);
        assert_eq!(Band::from_frequency(f), Band::Ghz2_4);
        assert_eq!(Band::from_channel(ch), Band::Ghz2_4);
    }
    for ch in 34u8..=165 {
        let f = 5000 + 5 * ch as u32;
        assert_eq!(freq_to_channel(f), ch);
        assert_eq!(Band::from_frequency(f), Band::Ghz5);
        assert_eq!(Band::from_channel(ch), Band::Ghz5);
    }
    // Channel 14 sits at 2484 MHz, which reads back as 15.
    assert_eq!(freq_to_channel(2484), 15);
}

#[test]
fn test_signal_quality_monotone() {
    let mut last = 0u8;
    for s in -120i32..=10 {
        let mut b = CoreBeacon::new();
        b.signal = Some(s);
        let q = b.signal_quality().unwrap();
        assert!(q <= 100);
        assert!(q >= last);
        last = q;
    }
    assert_eq!(last, 100);
}

#[test]
fn test_vendor_by_digits() {
    assert_eq!(lookup_vendor("80:2d:1a:4b:8c:07"), lookup_vendor("802D1A4B8C07"));
    assert_eq!(lookup_vendor("6a-dd-b7-78-7f-ff"), lookup_vendor("6ADDB7787FFF"));
}

#[test]
fn test_width_for_band_settles() {
    for band in [Band::Ghz2_4, Band::Ghz5, Band::Ghz6] {
        for w in [0u16, 20, 40, 80, 160, 320, 1000] {
            let once = normalize_width_for_band(w, band);
            assert!(once > 0);
            assert_eq!(normalize_width_for_band(once, band), once);
        }
    }
    assert_eq!(normalize_width_for_band(0, Band::Ghz5), 20);
    assert_eq!(normalize_width_for_band(160, Band::Ghz2_4), 40);
    assert_eq!(normalize_width_for_band(320, Band::Ghz6), 320);
}

#[test]
fn test_standards_for_band_settle() {
    for band in [Band::Ghz2_4, Band::Ghz5, Band::Ghz6] {
        for list in [vec![], strings(&["a", "ac"]), strings(&["b", "g", "n", "ax", "be"]), strings(&["x"])] {
            let once = normalize_standards_for_band(list, band);
            assert!(!once.is_empty());
            assert_eq!(normalize_standards_for_band(once.clone(), band), once);
        }
    }
    assert_eq!(normalize_standards_for_band(strings(&["a", "ac"]), Band::Ghz2_4), strings(&["g"]));
    assert_eq!(normalize_standards_for_band(strings(&["n", "ac"]), Band::Ghz6), strings(&["ax"]));
}

#[test]
fn test_common_standards_symmetric() {
    let ap = strings(&["n", "ac", "ax"]);
    let adapter = strings(&["a", "n", "ax", "be"]);
    assert_eq!(intersect_standards(&ap, &adapter), strings(&["ax", "n"]));
    assert_eq!(intersect_standards(&adapter, &ap), intersect_standards(&ap, &adapter));
    assert!(intersect_standards(&ap, &[]).is_empty());
}
