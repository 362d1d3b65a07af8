//! The scanner plugins: what each reports about itself, and the beacon
//! parsing of the libpcap plugin.
use vstd::prelude::*;
use vstd::utf8::{decode_utf8, valid_utf8};
use crate::parser::elements::{
    elements, lemma_elements_start, lemma_elements_step, lemma_elements_stop, Element,
};
use crate::parser::phy::le16;
use crate::scanner::frames::le32;
use crate::scanner_core::{
    empty_beacon_model, text_of, CoreBeaconModel, Platform, RawBeacon, ScannerCapabilities, SecurityType, VendorIE,
    VendorIEModel,
};
use crate::text::{chars_of, push_str, decode_lossy, decode_utf8_exact, same_text, hex_digit_lower, spec_trim, string_of_chars, utf8_lossy};
use crate::textscan::{
    field_of, has_prefix, has_text_in, nth_field, occurs_in, parse_signed, parse_signed_within, split_chars,
    parse_unsigned, parse_unsigned_upto, split_lines, split_on, split_words, starts_with,
    text_lines, trim_chars, words,
};

verus! {

/// Capabilities with every flag given.
pub open spec fn caps(ie: bool, bssid: bool, signal: bool, security: bool, store: bool) -> ScannerCapabilities {
    ScannerCapabilities {
        has_ie_data: ie,
        has_bssid: bssid,
        has_signal: signal,
        has_security: security,
        app_store_compatible: store,
    }
}

// ============================================================================
// Airport
// ============================================================================

/// Where macOS keeps the airport utility.
pub open spec fn default_airport_path() -> Seq<char> {
    "/System/Library/PrivateFrameworks/Apple80211.framework/Versions/Current/Resources/airport"@
}

/// Scanner driving the macOS airport utility.
pub struct AirportScanner {
    /// Path to the airport utility
    pub airport_path: String,
}

impl AirportScanner {
    /// A scanner using the utility at its default path.
    pub fn new() -> (s: AirportScanner)
        ensures
            s.airport_path@ == default_airport_path(),
    {
        AirportScanner {
            airport_path: "/System/Library/PrivateFrameworks/Apple80211.framework/Versions/Current/Resources/airport".to_owned(),
        }
    }

    /// A scanner using the utility at the given path.
    pub fn with_path(path: &str) -> (s: AirportScanner)
        ensures
            s.airport_path@ == path@,
    {
        AirportScanner { airport_path: path.to_owned() }
    }

    /// The path of the utility, for the caller to look for it.
    pub fn airport_path(&self) -> (p: &str)
        ensures
            p@ == self.airport_path@,
    {
        self.airport_path.as_str()
    }

    /// Scanner name.
    pub fn name(&self) -> (n: &'static str)
        ensures
            n@ == "airport"@,
    {
        "airport"
    }

    /// Human-readable description.
    pub fn description(&self) -> (d: &'static str)
        ensures
            d@ == "macOS Airport CLI scanner (may not work on macOS 26+)"@,
    {
        "macOS Airport CLI scanner (may not work on macOS 26+)"
    }

    /// Supported platforms.
    pub fn platforms(&self) -> (p: Vec<Platform>)
        ensures
            p@ == seq![Platform::MacOS],
    {
        let p = vec![Platform::MacOS];
        assert(p@ =~= seq![Platform::MacOS]);
        p
    }

    /// What the scanner reports: everything, App Store compatible.
    pub fn capabilities(&self) -> (c: ScannerCapabilities)
        ensures
            c == caps(true, true, true, true, true),
    {
        ScannerCapabilities {
            has_ie_data: true,
            has_bssid: true,
            has_signal: true,
            has_security: true,
            app_store_compatible: true,
        }
    }

    /// Whether the scanner needs elevated privileges.
    pub fn requires_privilege(&self) -> (b: bool)
        ensures
            !b,
    {
        false
    }
}

/// An integer entry read as an unsigned 64-bit integer, when it is one.
pub open spec fn unsigned_entry(v: Option<i128>) -> Option<u64> {
    match v {
        Some(x) => if 0 <= x <= u64::MAX {
            Some(x as u64)
        } else {
            None
        },
        None => None,
    }
}

/// The centre frequency the plugin gives a channel: 2407 + 5 * channel up
/// to channel 14, else 5000 + 5 * channel.
pub open spec fn plugin_frequency(ch: u32) -> int {
    if ch <= 14 {
        2407 + ch * 5
    } else {
        5000 + ch * 5
    }
}

/// The channel the plugin reads from a network of the listing.
pub open spec fn plugin_channel(e: crate::scanner::airport::PlistNetwork) -> Option<u32> {
    match unsigned_entry(e.channel) {
        Some(v) => Some(v as u32),
        None => None,
    }
}

/// The plugin beacon a network of the listing describes: its texts, its
/// signal and channel cut to their width, the frequency of the channel and
/// its element data.
pub open spec fn spec_listing_entry(e: crate::scanner::airport::PlistNetwork) -> CoreBeaconModel {
    CoreBeaconModel {
        ssid: text_of(e.ssid),
        bssid: text_of(e.bssid),
        signal: match crate::scanner::airport::signed_entry(e.rssi) {
            Some(v) => Some(v as i32),
            None => None,
        },
        channel: plugin_channel(e),
        frequency: match plugin_channel(e) {
            Some(ch) => Some(plugin_frequency(ch) as u32),
            None => None,
        },
        ie_data: match e.ie {
            Some(d) => Some(d@),
            None => None,
        },
        ..empty_beacon_model()
    }
}

/// The plugin beacons of the networks of the listing, one per dictionary
/// (`Some` entry), in order.
pub open spec fn spec_listing_entries(
    entries: Seq<Option<crate::scanner::airport::PlistNetwork>>,
) -> Seq<CoreBeaconModel>
    decreases entries.len(),
{
    if entries.len() == 0 {
        seq![]
    } else {
        let rest = spec_listing_entries(entries.drop_last());
        match entries.last() {
            Some(e) => rest.push(spec_listing_entry(e)),
            None => rest,
        }
    }
}

/// The listing's channels give frequencies that fit in 32 bits.
pub open spec fn listing_in_range(entries: Seq<Option<crate::scanner::airport::PlistNetwork>>) -> bool {
    forall|i: int|
        0 <= i < entries.len() ==> (#[trigger] entries[i] matches Some(e) ==> (plugin_channel(e)
            matches Some(ch) ==> plugin_frequency(ch) <= u32::MAX))
}

impl AirportScanner {
    /// The beacons of the scan listing's network list, one per dictionary,
    /// in order; no list gives no beacons.
    pub fn beacons_from_listing(
        &self,
        entries: Option<Vec<Option<crate::scanner::airport::PlistNetwork>>>,
    ) -> (r: Vec<RawBeacon>)
        requires
            entries matches Some(v) ==> listing_in_range(v@),
        ensures
            entries is None ==> r.len() == 0,
            entries matches Some(v) ==> r@.map_values(|b: RawBeacon| b@) == spec_listing_entries(
                v@,
            ),
    {
        let mut out: Vec<RawBeacon> = Vec::new();
        let v = match entries {
            Some(v) => v,
            None => {
                return out;
            },
        };
        let ghost all = v@;
        let mut i: usize = 0;
        assert(all.take(0) =~= Seq::<Option<crate::scanner::airport::PlistNetwork>>::empty());
        assert(out@.map_values(|b: RawBeacon| b@) =~= Seq::<CoreBeaconModel>::empty());
        while i < v.len()
            invariant
                all == v@,
                listing_in_range(all),
                i <= v.len(),
                out@.map_values(|b: RawBeacon| b@) == spec_listing_entries(all.take(i as int)),
            decreases v.len() - i,
        {
            let ghost before = out@;
            assert(all.take(i + 1).drop_last() =~= all.take(i as int));
            assert(all[i as int] == v@[i as int]);
            match &v[i] {
                Some(e) => {
                    let b = listing_beacon(e);
                    out.push(b);
                    assert(out@.map_values(|b: RawBeacon| b@) =~= before.map_values(
                        |b: RawBeacon| b@,
                    ).push(b@));
                },
                None => {},
            }
            i += 1;
        }
        assert(all.take(all.len() as int) =~= all);
        out
    }
}

/// The network list of a scan listing's top dictionary: its
/// "DYNAMIC_PLIST" entry, when that is an array.
pub open spec fn dynamic_listing(
    d: Seq<(String, crate::scanner::airport::PlistItem)>,
) -> Option<Seq<Option<crate::scanner::airport::PlistNetwork>>> {
    match crate::scanner::airport::dict_get(d, "DYNAMIC_PLIST"@) {
        Some(crate::scanner::airport::PlistItem::Array(items)) => Some(
            crate::scanner::airport::spec_entries(items@),
        ),
        _ => None,
    }
}

/// The listing that a text holds gives frequencies that fit in 32 bits.
pub open spec fn xml_listing_in_range(xml: Seq<char>) -> bool {
    match crate::scanner::airport::plist_dict_of_xml(xml) {
        Ok(d) => match dynamic_listing(d) {
            Some(es) => listing_in_range(es),
            None => true,
        },
        Err(_) => true,
    }
}

/// The value of the first entry of a dictionary under `key`, taken out.
fn take_entry(d: Vec<(String, crate::scanner::airport::PlistItem)>, key: &str) -> (r: Option<
    crate::scanner::airport::PlistItem,
>)
    ensures
        r == crate::scanner::airport::dict_get(d@, key@),
{
    let ghost all = d@;
    let mut d = d;
    let mut found: Option<crate::scanner::airport::PlistItem> = None;
    assert(all.subrange(all.len() as int, all.len() as int) =~= Seq::<
        (String, crate::scanner::airport::PlistItem),
    >::empty());
    while d.len() > 0
        invariant
            d@ == all.subrange(0, d.len() as int),
            d.len() <= all.len(),
            found == crate::scanner::airport::dict_get(
                all.subrange(d.len() as int, all.len() as int),
                key@,
            ),
        decreases d.len(),
    {
        let ghost i = d.len() - 1;
        let ghost sub = all.subrange(i, all.len() as int);
        assert(sub[0] == all[i]);
        assert(sub.drop_first() =~= all.subrange(i + 1, all.len() as int));
        let (k, v) = d.pop().unwrap();
        assert((k, v) == all[i]);
        assert(d@ =~= all.subrange(0, d.len() as int));
        if same_text(k.as_str(), key) {
            found = Some(v);
        }
    }
    assert(all.subrange(0, all.len() as int) =~= all);
    found
}

/// Whether every listed channel gives a frequency that fits in 32 bits.
fn listing_fits(v: &Vec<Option<crate::scanner::airport::PlistNetwork>>) -> (ok: bool)
    ensures
        ok == listing_in_range(v@),
{
    let mut i: usize = 0;
    while i < v.len()
        invariant
            i <= v.len(),
            forall|j: int|
                0 <= j < i ==> (#[trigger] v@[j] matches Some(e) ==> (plugin_channel(e) matches Some(
                    ch,
                ) ==> plugin_frequency(ch) <= u32::MAX)),
        decreases v.len() - i,
    {
        match &v[i] {
            Some(e) => match e.channel {
                Some(x) => {
                    if 0 <= x && x <= 0xffff_ffff_ffff_ffff {
                        let ch = (x as u64) as u32;
                        if ch > 14 && ch > 858_992_459 {
                            return false;
                        }
                    }
                },
                None => {},
            },
            None => {},
        }
        i += 1;
    }
    true
}

/// The network list of a scan listing's top dictionary.
fn listing_of(d: Vec<(String, crate::scanner::airport::PlistItem)>) -> (r: Option<
    Vec<Option<crate::scanner::airport::PlistNetwork>>,
>)
    ensures
        match r {
            Some(v) => dynamic_listing(d@) == Some(v@),
            None => dynamic_listing(d@) is None,
        },
{
    proof {
        reveal_strlit("DYNAMIC_PLIST");
    }
    match take_entry(d, "DYNAMIC_PLIST") {
        Some(crate::scanner::airport::PlistItem::Array(items)) => Some(
            crate::scanner::airport::entries_of(items),
        ),
        _ => None,
    }
}

/// The text of a listing that does not read.
pub open spec fn plist_failure(m: Seq<char>) -> Seq<char> {
    "Failed to parse plist: "@ + m
}

impl AirportScanner {
    /// The beacons of a scan listing (`--scan --xml`): its top dictionary's
    /// "DYNAMIC_PLIST" array, one beacon per dictionary, in order; no such
    /// array gives no beacons.
    pub fn parse_xml(&self, xml: &str) -> (r: Result<Vec<RawBeacon>, crate::scanner_core::ScanError>)
        requires
            xml_listing_in_range(xml@),
        ensures
            match crate::scanner::airport::plist_dict_of_xml(xml@) {
                Err(m) => r matches Err(crate::scanner_core::ScanError::Parse(t)) && t@
                    == plist_failure(m),
                Ok(d) => r matches Ok(v) && v@.map_values(|b: RawBeacon| b@) == match dynamic_listing(
                    d,
                ) {
                    Some(es) => spec_listing_entries(es),
                    None => Seq::<CoreBeaconModel>::empty(),
                },
            },
    {
        match crate::scanner::airport::read_plist_dict(xml) {
            Err(m) => {
                let mut v: Vec<char> = Vec::new();
                push_str(&mut v, "Failed to parse plist: ");
                push_str(&mut v, m.as_str());
                proof {
                    reveal_strlit("Failed to parse plist: ");
                }
                Err(crate::scanner_core::ScanError::Parse(string_of_chars(v.as_slice())))
            },
            Ok(d) => {
                let entries = listing_of(d);
                let out = self.beacons_from_listing(entries);
                Ok(out)
            },
        }
    }

    /// The beacons of a scan listing, where its channels give frequencies
    /// that fit in 32 bits (`None` where they do not).
    pub fn parse_xml_checked(&self, xml: &str) -> (r: Option<
        Result<Vec<RawBeacon>, crate::scanner_core::ScanError>,
    >)
        ensures
            r is None <==> !xml_listing_in_range(xml@),
            r matches Some(x) ==> match crate::scanner::airport::plist_dict_of_xml(xml@) {
                Err(m) => x matches Err(crate::scanner_core::ScanError::Parse(t)) && t@
                    == plist_failure(m),
                Ok(d) => x matches Ok(v) && v@.map_values(|b: RawBeacon| b@) == match dynamic_listing(
                    d,
                ) {
                    Some(es) => spec_listing_entries(es),
                    None => Seq::<CoreBeaconModel>::empty(),
                },
            },
    {
        let fits = match crate::scanner::airport::read_plist_dict(xml) {
            Err(_) => true,
            Ok(d) => match listing_of(d) {
                Some(v) => listing_fits(&v),
                None => true,
            },
        };
        if fits {
            Some(self.parse_xml(xml))
        } else {
            None
        }
    }
}

/// The plugin beacon of one network of the listing.
fn listing_beacon(e: &crate::scanner::airport::PlistNetwork) -> (b: RawBeacon)
    requires
        plugin_channel(*e) matches Some(ch) ==> plugin_frequency(ch) <= u32::MAX,
    ensures
        b@ == spec_listing_entry(*e),
{
    let mut b = RawBeacon::new();
    match &e.ssid {
        Some(s) => {
            b.ssid = Some(s.as_str().to_owned());
        },
        None => {},
    }
    match &e.bssid {
        Some(s) => {
            b.bssid = Some(s.as_str().to_owned());
        },
        None => {},
    }
    let rssi = match e.rssi {
        Some(x) => if i64::MIN as i128 <= x && x <= i64::MAX as i128 {
            Some(x as i64)
        } else {
            None
        },
        None => None,
    };
    match rssi {
        Some(v) => {
            b.signal = Some(v as i32);
        },
        None => {},
    }
    let channel = match e.channel {
        Some(x) => if 0 <= x && x <= u64::MAX as i128 {
            Some(x as u64)
        } else {
            None
        },
        None => None,
    };
    match channel {
        Some(v) => {
            let ch = v as u32;
            b.channel = Some(ch);
            b.frequency = Some(
                if ch <= 14 {
                    2407 + ch * 5
                } else {
                    5000 + ch * 5
                },
            );
        },
        None => {},
    }
    match &e.ie {
        Some(d) => {
            b.ie_data = Some(d.clone());
        },
        None => {},
    }
    b
}

impl Default for AirportScanner {
    fn default() -> (s: AirportScanner)
        ensures
            s.airport_path@ == default_airport_path(),
    {
        AirportScanner::new()
    }
}

// ============================================================================
// CoreWLAN
// ============================================================================

/// Scanner using Apple's CoreWLAN framework.
pub struct CoreWlanScanner {}

impl CoreWlanScanner {
    /// A CoreWLAN scanner.
    pub fn new() -> (s: CoreWlanScanner) {
        CoreWlanScanner {  }
    }

    /// Scanner name.
    pub fn name(&self) -> (n: &'static str)
        ensures
            n@ == "corewlan"@,
    {
        "corewlan"
    }

    /// Human-readable description.
    pub fn description(&self) -> (d: &'static str)
        ensures
            d@ == "macOS CoreWLAN framework scanner (App Store compatible)"@,
    {
        "macOS CoreWLAN framework scanner (App Store compatible)"
    }

    /// Supported platforms.
    pub fn platforms(&self) -> (p: Vec<Platform>)
        ensures
            p@ == seq![Platform::MacOS],
    {
        let p = vec![Platform::MacOS];
        assert(p@ =~= seq![Platform::MacOS]);
        p
    }

    /// What the scanner reports: no element data, App Store compatible.
    pub fn capabilities(&self) -> (c: ScannerCapabilities)
        ensures
            c == caps(false, true, true, true, true),
    {
        ScannerCapabilities {
            has_ie_data: false,
            has_bssid: true,
            has_signal: true,
            has_security: true,
            app_store_compatible: true,
        }
    }

    /// Whether the scanner needs elevated privileges.
    pub fn requires_privilege(&self) -> (b: bool)
        ensures
            !b,
    {
        false
    }
}

impl Default for CoreWlanScanner {
    fn default() -> (s: CoreWlanScanner) {
        CoreWlanScanner::new()
    }
}

// ============================================================================
// WLAN API
// ============================================================================

/// Scanner using the Windows Native WiFi API.
pub struct WlanApiScanner {}

impl WlanApiScanner {
    /// A WLAN API scanner.
    pub fn new() -> (s: WlanApiScanner) {
        WlanApiScanner {  }
    }

    /// Scanner name.
    pub fn name(&self) -> (n: &'static str)
        ensures
            n@ == "wlanapi"@,
    {
        "wlanapi"
    }

    /// Human-readable description.
    pub fn description(&self) -> (d: &'static str)
        ensures
            d@ == "Windows Native WiFi API scanner"@,
    {
        "Windows Native WiFi API scanner"
    }

    /// Supported platforms.
    pub fn platforms(&self) -> (p: Vec<Platform>)
        ensures
            p@ == seq![Platform::Windows],
    {
        let p = vec![Platform::Windows];
        assert(p@ =~= seq![Platform::Windows]);
        p
    }

    /// What the scanner reports: no element data, App Store compatible.
    pub fn capabilities(&self) -> (c: ScannerCapabilities)
        ensures
            c == caps(false, true, true, true, true),
    {
        ScannerCapabilities {
            has_ie_data: false,
            has_bssid: true,
            has_signal: true,
            has_security: true,
            app_store_compatible: true,
        }
    }

    /// Whether the scanner needs elevated privileges.
    pub fn requires_privilege(&self) -> (b: bool)
        ensures
            !b,
    {
        false
    }
}

impl Default for WlanApiScanner {
    fn default() -> (s: WlanApiScanner) {
        WlanApiScanner::new()
    }
}

// ============================================================================
// nl80211
// ============================================================================

/// Linux nl80211 scanner.
pub struct Nl80211Scanner {
    /// Interface to scan on
    pub interface: Option<String>,
}

impl Nl80211Scanner {
    /// A scanner without an interface.
    pub fn new() -> (s: Nl80211Scanner)
        ensures
            s.interface is None,
    {
        Nl80211Scanner { interface: None }
    }

    /// The scanner set to an interface.
    pub fn with_interface(self, interface: &str) -> (s: Nl80211Scanner)
        ensures
            text_of(s.interface) == Some(interface@),
    {
        let mut s = self;
        s.interface = Some(interface.to_owned());
        s
    }

    /// Scanner name.
    pub fn name(&self) -> (n: &'static str)
        ensures
            n@ == "nl80211"@,
    {
        "nl80211"
    }

    /// Human-readable description.
    pub fn description(&self) -> (d: &'static str)
        ensures
            d@ == "Linux nl80211 netlink scanner"@,
    {
        "Linux nl80211 netlink scanner"
    }

    /// Supported platforms.
    pub fn platforms(&self) -> (p: Vec<Platform>)
        ensures
            p@ == seq![Platform::Linux],
    {
        let p = vec![Platform::Linux];
        assert(p@ =~= seq![Platform::Linux]);
        p
    }

    /// What the scanner reports: everything.
    pub fn capabilities(&self) -> (c: ScannerCapabilities)
        ensures
            c == caps(true, true, true, true, true),
    {
        ScannerCapabilities {
            has_ie_data: true,
            has_bssid: true,
            has_signal: true,
            has_security: true,
            app_store_compatible: true,
        }
    }

    /// Whether the scanner needs elevated privileges.
    pub fn requires_privilege(&self) -> (b: bool)
        ensures
            !b,
    {
        false
    }
}

impl Default for Nl80211Scanner {
    fn default() -> (s: Nl80211Scanner)
        ensures
            s.interface is None,
    {
        Nl80211Scanner::new()
    }
}

// ============================================================================
// libpcap
// ============================================================================

/// Libpcap beacon scanner.
pub struct LibpcapScanner {
    /// Interface to capture on
    pub interface: Option<String>,
    /// Capture timeout in milliseconds
    pub timeout_ms: i32,
}

impl LibpcapScanner {
    /// A scanner without an interface and a five second timeout.
    pub fn new() -> (s: LibpcapScanner)
        ensures
            s.interface is None,
            s.timeout_ms == 5000,
    {
        LibpcapScanner { interface: None, timeout_ms: 5000 }
    }

    /// The scanner set to an interface.
    pub fn with_interface(self, interface: &str) -> (s: LibpcapScanner)
        ensures
            text_of(s.interface) == Some(interface@),
            s.timeout_ms == self.timeout_ms,
    {
        let mut s = self;
        s.interface = Some(interface.to_owned());
        s
    }

    /// The scanner set to a timeout, capped at `i32::MAX` milliseconds.
    pub fn with_timeout(self, timeout_ms: u64) -> (s: LibpcapScanner)
        ensures
            s.timeout_ms == (if timeout_ms < i32::MAX {
                timeout_ms as i32
            } else {
                i32::MAX
            }),
            text_of(s.interface) == text_of(self.interface),
    {
        let mut s = self;
        s.timeout_ms = if timeout_ms < i32::MAX as u64 {
            timeout_ms as i32
        } else {
            i32::MAX
        };
        s
    }

    /// Scanner name.
    pub fn name(&self) -> (n: &'static str)
        ensures
            n@ == "libpcap"@,
    {
        "libpcap"
    }

    /// Human-readable description.
    pub fn description(&self) -> (d: &'static str)
        ensures
            d@ == "Libpcap beacon capture (requires monitor mode and root)"@,
    {
        "Libpcap beacon capture (requires monitor mode and root)"
    }

    /// Supported platforms.
    pub fn platforms(&self) -> (p: Vec<Platform>)
        ensures
            p@ == seq![Platform::MacOS, Platform::Linux],
    {
        let p = vec![Platform::MacOS, Platform::Linux];
        assert(p@ =~= seq![Platform::MacOS, Platform::Linux]);
        p
    }

    /// What the scanner reports: everything, not App Store compatible.
    pub fn capabilities(&self) -> (c: ScannerCapabilities)
        ensures
            c == caps(true, true, true, true, false),
    {
        ScannerCapabilities {
            has_ie_data: true,
            has_bssid: true,
            has_signal: true,
            has_security: true,
            app_store_compatible: false,
        }
    }

    /// Whether the scanner needs elevated privileges.
    pub fn requires_privilege(&self) -> (b: bool)
        ensures
            b,
    {
        true
    }
}

impl Default for LibpcapScanner {
    fn default() -> (s: LibpcapScanner)
        ensures
            s.interface is None,
            s.timeout_ms == 5000,
    {
        LibpcapScanner::new()
    }
}

/// Size of the radiotap field of a present bit, as the libpcap plugin
/// counts it (without alignment; bits past 12 count nothing).
pub open spec fn pcap_field_size(bit: u32) -> int {
    if bit == 0 {
        8
    } else if bit == 3 {
        4
    } else if bit == 4 || bit == 7 || bit == 8 || bit == 9 {
        2
    } else if bit == 1 || bit == 2 || bit == 5 || bit == 6 || bit == 10 || bit == 11 || bit
        == 12 {
        1
    } else {
        0
    }
}

/// Offset of the signal field: the sizes of the present fields before it,
/// from offset 8; when the signal is present, counting stops at bit 5.
pub open spec fn pcap_offset_walk(present: u32, bit: u32, offset: int, has_signal: bool) -> int
    decreases 32 - bit,
{
    if bit >= 32 {
        offset
    } else if bit >= 5 && has_signal {
        offset
    } else if present & (1u32 << bit) != 0 {
        pcap_offset_walk(present, (bit + 1) as u32, offset + pcap_field_size(bit), has_signal)
    } else {
        pcap_offset_walk(present, (bit + 1) as u32, offset, has_signal)
    }
}

/// The libpcap plugin's reading of a radiotap header: the length byte and
/// the dBm antenna signal when the present bitmap has bit 5 and the data
/// reaches it.
pub open spec fn spec_pcap_radiotap(d: Seq<u8>) -> (u8, Option<i32>) {
    if d.len() < 4 {
        (0, None)
    } else {
        let present = le32(d[4], d[5], d[6], d[7]);
        let has_signal = present & 0x20u32 != 0;
        let off = pcap_offset_walk(present, 0, 8, has_signal);
        (
            le16(d[2], d[3]) as u8,
            if has_signal && off < d.len() {
                Some(d[off] as i8 as i32)
            } else {
                None
            },
        )
    }
}

/// Effect of one element on a plugin beacon: SSID (0) decoded lossily,
/// channel (3) with its frequency, RSN (48) marks WPA2, vendor-specific
/// (221, at least 4 bytes) adds a vendor element.
pub open spec fn pcap_ie_step(b: CoreBeaconModel, e: Element) -> CoreBeaconModel {
    let (id, d) = e;
    if id == 0 {
        CoreBeaconModel { ssid: Some(utf8_lossy(d)), ..b }
    } else if id == 3 && d.len() > 0 {
        CoreBeaconModel {
            channel: Some(d[0] as u32),
            frequency: Some(
                if d[0] <= 14 {
                    (2407 + d[0] * 5) as u32
                } else {
                    (5000 + d[0] * 5) as u32
                },
            ),
            ..b
        }
    } else if id == 48 {
        CoreBeaconModel { is_secured: true, security: Some(SecurityType::WPA2), ..b }
    } else if id == 221 && d.len() >= 4 {
        CoreBeaconModel {
            vendor_ies: b.vendor_ies.push(
                VendorIEModel {
                    oui: d.subrange(0, 3),
                    vendor_type: d[3],
                    data: d.subrange(4, d.len() as int),
                },
            ),
            ..b
        }
    } else {
        b
    }
}

/// A plugin beacon after walking `els`.
pub open spec fn pcap_ie_walk(b: CoreBeaconModel, els: Seq<Element>) -> CoreBeaconModel
    decreases els.len(),
{
    if els.len() == 0 {
        b
    } else {
        pcap_ie_walk(pcap_ie_step(b, els[0]), els.drop_first())
    }
}

/// A BSSID in lower-case hexadecimal pairs separated by colons.
pub open spec fn lower_bssid_text(b: Seq<u8>) -> Seq<char> {
    Seq::new(
        17,
        |i: int|
            if i % 3 == 2 {
                ':'
            } else if i % 3 == 0 {
                hex_digit_lower(b[i / 3] / 16)
            } else {
                hex_digit_lower(b[i / 3] % 16)
            },
    )
}

/// What the libpcap plugin reads from a captured packet: nothing under 50
/// bytes or when the frame after the radiotap header is not a beacon
/// (first byte 0x80, at least 36 bytes); else the signal, the BSSID (bytes
/// 16-21), the elements (from byte 36) and what they say.
pub open spec fn spec_pcap_beacon(d: Seq<u8>, empty: CoreBeaconModel) -> Option<CoreBeaconModel> {
    if d.len() < 50 {
        None
    } else {
        let (rlen, signal) = spec_pcap_radiotap(d);
        let frame = d.subrange(rlen as int, d.len() as int);
        if frame.len() == 0 || frame[0] != 0x80 || frame.len() < 36 {
            None
        } else {
            let ie = frame.subrange(36, frame.len() as int);
            Some(
                pcap_ie_walk(
                    CoreBeaconModel {
                        signal,
                        bssid: Some(lower_bssid_text(frame.subrange(16, 22))),
                        ie_data: Some(ie),
                        ..empty
                    },
                    elements(ie),
                ),
            )
        }
    }
}

impl LibpcapScanner {
    /// Read the radiotap header's length byte and antenna signal.
    pub fn parse_radiotap(&self, data: &[u8]) -> (r: (u8, Option<i32>))
        requires
            data.len() < 4 || data.len() >= 8,
        ensures
            r == spec_pcap_radiotap(data@),
    {
        if data.len() < 4 {
            return (0, None);
        }
        let radiotap_len = ((data[2] as u16) | ((data[3] as u16) << 8u16)) as u8;
        let present_flags: u32 = (data[4] as u32) | ((data[5] as u32) << 8u32) | ((data[6] as u32)
            << 16u32) | ((data[7] as u32) << 24u32);
        let has_signal = (present_flags & (1u32 << 5u32)) != 0;
        assert(1u32 << 5u32 == 0x20u32) by (bit_vector);
        let mut offset: i32 = 8;
        let mut bit: u32 = 0;
        while bit < 32
            invariant
                bit <= 32,
                8 <= offset <= 8 + 8 * bit,
                pcap_offset_walk(present_flags, bit, offset as int, has_signal) == pcap_offset_walk(
                    present_flags,
                    0,
                    8,
                    has_signal,
                ),
            ensures
                pcap_offset_walk(present_flags, bit, offset as int, has_signal) == offset,
            decreases 32 - bit,
        {
            if bit >= 5 && has_signal {
                break;
            }
            if (present_flags & (1u32 << bit)) != 0 {
                let size: i32 = if bit == 0 {
                    8
                } else if bit == 3 {
                    4
                } else if bit == 4 || bit == 7 || bit == 8 || bit == 9 {
                    2
                } else if bit == 1 || bit == 2 || bit == 5 || bit == 6 || bit == 10 || bit == 11
                    || bit == 12 {
                    1
                } else {
                    0
                };
                offset = offset + size;
            }
            bit += 1;
        }
        let signal = if has_signal && (offset as usize) < data.len() {
            Some(data[offset as usize] as i8 as i32)
        } else {
            None
        };
        (radiotap_len, signal)
    }

    /// Fold a beacon's elements into a plugin beacon.
    pub fn parse_ies(&self, data: &[u8], beacon: &mut RawBeacon)
        ensures
            final(beacon)@ == pcap_ie_walk(old(beacon)@, elements(data@)),
    {
        let ghost all = data@;
        let mut pos: usize = 0;
        proof {
            lemma_elements_start(all);
        }
        while data.len() - pos >= 2
            invariant
                all == data@,
                pos <= data.len(),
                pcap_ie_walk(beacon@, elements(all.subrange(pos as int, all.len() as int)))
                    == pcap_ie_walk(old(beacon)@, elements(all)),
            ensures
                elements(all.subrange(pos as int, all.len() as int)) == Seq::<Element>::empty(),
            decreases data.len() - pos,
        {
            let ie_type = data[pos];
            let ie_len = data[pos + 1] as usize;
            if ie_len > data.len() - pos - 2 {
                proof {
                    lemma_elements_stop(all, pos as int);
                }
                break;
            }
            let ie_data = &data[pos + 2..pos + 2 + ie_len];
            let ghost rest = elements(all.subrange(pos + 2 + ie_len, all.len() as int));
            let ghost before = beacon@;
            proof {
                lemma_elements_step(all, pos as int);
                assert(ie_data@ == all.subrange(pos + 2, pos + 2 + ie_len));
                let l = seq![(ie_type, ie_data@)] + rest;
                assert(l[0] == (ie_type, ie_data@));
                assert(l.drop_first() =~= rest);
            }
            if ie_type == 0 {
                beacon.ssid = Some(decode_lossy(ie_data));
            } else if ie_type == 3 {
                if ie_data.len() > 0 {
                    let ch = ie_data[0];
                    beacon.channel = Some(ch as u32);
                    beacon.frequency = if ch <= 14 {
                        Some(2407 + ch as u32 * 5)
                    } else {
                        Some(5000 + ch as u32 * 5)
                    };
                }
            } else if ie_type == 48 {
                beacon.is_secured = true;
                beacon.security = Some(SecurityType::WPA2);
            } else if ie_type == 221 {
                if ie_len >= 4 {
                    let oui: [u8; 3] = [ie_data[0], ie_data[1], ie_data[2]];
                    let vendor_type = ie_data[3];
                    let v = VendorIE {
                        oui,
                        vendor_type,
                        data: vstd::slice::slice_to_vec(&ie_data[4..ie_len]),
                    };
                    assert(v@.oui =~= ie_data@.subrange(0, 3));
                    beacon.vendor_ies.push(v);
                    assert(beacon@.vendor_ies =~= before.vendor_ies.push(v@));
                }
            }
            assert(beacon@ == pcap_ie_step(before, (ie_type, ie_data@)));
            pos = pos + 2 + ie_len;
        }
    }

    /// Read a plugin beacon from a captured packet.
    pub fn parse_beacon(&self, data: &[u8]) -> (r: Option<RawBeacon>)
        requires
            data.len() >= 50 ==> spec_pcap_radiotap(data@).0 <= data.len(),
        ensures
            (match r {
                Some(b) => Some(b@),
                None => None,
            }) == spec_pcap_beacon(data@, empty_beacon_model()),
    {
        if data.len() < 50 {
            return None;
        }
        let mut beacon = RawBeacon::new();
        let ghost empty = beacon@;
        let (radiotap_len, signal) = self.parse_radiotap(data);
        beacon.signal = signal;
        let frame_data = &data[radiotap_len as usize..data.len()];
        if frame_data.len() == 0 || frame_data[0] != 0x80 {
            return None;
        }
        if frame_data.len() < 24 {
            return None;
        }
        let mut cs: Vec<char> = Vec::new();
        let mut i: usize = 16;
        while i < 22
            invariant
                16 <= i <= 22,
                frame_data.len() >= 24,
                cs@.len() == (if i == 16 {
                    0
                } else {
                    3 * (i - 16) - 1
                }),
                forall|k: int|
                    0 <= k < i - 16 ==> cs@[3 * k] == hex_digit_lower(
                        #[trigger] frame_data@[16 + k] / 16,
                    ) && cs@[3 * k + 1] == hex_digit_lower(frame_data@[16 + k] % 16),
                forall|k: int| 0 <= k < i - 17 ==> #[trigger] cs@[3 * k + 2] == ':',
            decreases 22 - i,
        {
            let b = frame_data[i];
            if i > 16 {
                cs.push(':');
            }
            let hi = b / 16;
            let lo = b % 16;
            cs.push(if hi < 10 {
                (hi + 0x30) as char
            } else {
                (hi + 0x57) as char
            });
            cs.push(if lo < 10 {
                (lo + 0x30) as char
            } else {
                (lo + 0x57) as char
            });
            i += 1;
        }
        assert forall|j: int| 0 <= j < 17 implies #[trigger] cs@[j] == lower_bssid_text(
            frame_data@.subrange(16, 22),
        )[j] by {
            let k = j / 3;
            assert(frame_data@.subrange(16, 22)[k] == frame_data@[16 + k]);
            if j % 3 == 2 {
                assert(j == 3 * k + 2);
            } else if j % 3 == 0 {
                assert(j == 3 * k);
            } else {
                assert(j == 3 * k + 1);
            }
        }
        assert(cs@ =~= lower_bssid_text(frame_data@.subrange(16, 22)));
        beacon.bssid = Some(string_of_chars(cs.as_slice()));
        if frame_data.len() < 36 {
            return None;
        }
        let ie_data = &frame_data[36..frame_data.len()];
        beacon.ie_data = Some(vstd::slice::slice_to_vec(ie_data));
        self.parse_ies(ie_data, &mut beacon);
        Some(beacon)
    }
}

// ============================================================================
// nl80211 scan output
// ============================================================================

/// The first word of a text, when it has one.
pub open spec fn first_word(s: Seq<char>) -> Option<Seq<char>> {
    if words(s).len() > 0 {
        Some(words(s)[0])
    } else {
        None
    }
}

/// A number read by `str::parse::<u32>`.
pub open spec fn read_u32(s: Seq<char>) -> Option<u32> {
    match parse_unsigned(s, u32::MAX as int) {
        Some(v) => Some(v as u32),
        None => None,
    }
}

/// A number read by `str::parse::<i32>`.
pub open spec fn read_i32(s: Seq<char>) -> Option<i32> {
    match parse_signed(s, i32::MIN as int, i32::MAX as int) {
        Some(v) => Some(v as i32),
        None => None,
    }
}

/// The channel a "DS Parameter set:" line names.
pub open spec fn ds_channel(t: Seq<char>) -> Option<u32> {
    match first_word(spec_trim(t.subrange(17, t.len() as int))) {
        Some(w) => read_u32(w),
        None => None,
    }
}

/// Effect of a (trimmed) line inside a BSS block on a plugin beacon.
pub open spec fn nl_field(b: CoreBeaconModel, t: Seq<char>) -> CoreBeaconModel {
    if starts_with(t, "SSID:"@) {
        CoreBeaconModel { ssid: Some(spec_trim(t.subrange(5, t.len() as int))), ..b }
    } else if starts_with(t, "signal:"@) {
        CoreBeaconModel {
            signal: match first_word(spec_trim(t.subrange(7, t.len() as int))) {
                Some(w) => read_i32(w),
                None => None,
            },
            ..b
        }
    } else if starts_with(t, "DS Parameter set:"@) {
        let ch = ds_channel(t);
        CoreBeaconModel {
            channel: ch,
            frequency: match ch {
                Some(c) => Some(
                    if c <= 14 {
                        (2407 + c * 5) as u32
                    } else {
                        (5000 + c * 5) as u32
                    },
                ),
                None => b.frequency,
            },
            ..b
        }
    } else if occurs_in(t, "primary channel:"@) {
        CoreBeaconModel {
            channel: match field_of(t, ':', 1) {
                Some(f) => read_u32(spec_trim(f)),
                None => None,
            },
            ..b
        }
    } else {
        b
    }
}

/// The BSSID text of a "BSS " line: before any "(", trimmed.
pub open spec fn nl_bssid(t: Seq<char>) -> Seq<char> {
    spec_trim(split_on(t.subrange(4, t.len() as int), '(')[0])
}

/// Reading state: finished beacons and the current one.
pub struct NlScan {
    pub done: Seq<CoreBeaconModel>,
    pub current: Option<CoreBeaconModel>,
}

/// Effect of a line: "BSS " opens a new beacon.
pub open spec fn nl_step(st: NlScan, line: Seq<char>) -> NlScan {
    let t = spec_trim(line);
    if starts_with(t, "BSS "@) {
        NlScan {
            done: match st.current {
                Some(b) => st.done.push(b),
                None => st.done,
            },
            current: Some(CoreBeaconModel { bssid: Some(nl_bssid(t)), ..empty_beacon_model() }),
        }
    } else {
        match st.current {
            Some(b) => NlScan { current: Some(nl_field(b, t)), ..st },
            None => st,
        }
    }
}

/// The reading after the lines `ls`.
pub open spec fn nl_walk(st: NlScan, ls: Seq<Seq<char>>) -> NlScan
    decreases ls.len(),
{
    if ls.len() == 0 {
        st
    } else {
        nl_walk(nl_step(st, ls[0]), ls.drop_first())
    }
}

/// The plugin beacons of `iw` scan output.
pub open spec fn spec_nl_scan(output: Seq<char>) -> Seq<CoreBeaconModel> {
    let st = nl_walk(NlScan { done: seq![], current: None }, text_lines(output));
    match st.current {
        Some(b) => st.done.push(b),
        None => st.done,
    }
}

/// Every "DS Parameter set:" line names a channel whose frequency fits in
/// 32 bits.
pub open spec fn nl_in_range(output: Seq<char>) -> bool {
    forall|i: int|
        0 <= i < text_lines(output).len() && starts_with(
            spec_trim(#[trigger] text_lines(output)[i]),
            "DS Parameter set:"@,
        ) ==> match ds_channel(spec_trim(text_lines(output)[i])) {
            Some(c) => 5000 + c * 5 <= u32::MAX,
            None => true,
        }
}

fn tail_from(t: &Vec<char>, k: usize) -> (r: Vec<char>)
    requires
        k <= t.len(),
    ensures
        r@ == t@.subrange(k as int, t.len() as int),
{
    let mut out: Vec<char> = Vec::new();
    let mut i: usize = k;
    while i < t.len()
        invariant
            k <= i <= t.len(),
            out@ == t@.subrange(k as int, i as int),
        decreases t.len() - i,
    {
        out.push(t[i]);
        assert(out@ =~= t@.subrange(k as int, i + 1));
        i += 1;
    }
    out
}

fn first_word_of(s: &Vec<char>) -> (r: Option<Vec<char>>)
    ensures
        (match r {
            Some(w) => Some(w@),
            None => None,
        }) == first_word(s@),
{
    let ws = split_words(s);
    if ws.len() > 0 {
        assert(ws@.map_values(|w: Vec<char>| w@)[0] == ws@[0]@);
        Some(ws[0].clone())
    } else {
        None
    }
}

fn read_u32_exec(s: &Vec<char>) -> (r: Option<u32>)
    ensures
        r == read_u32(s@),
{
    match parse_unsigned_upto(s, 0xFFFF_FFFF) {
        Some(v) => Some(v as u32),
        None => None,
    }
}

fn nl_field_exec(b: &mut RawBeacon, t: &Vec<char>)
    requires
        starts_with(t@, "DS Parameter set:"@) ==> match ds_channel(t@) {
            Some(c) => 5000 + c * 5 <= u32::MAX,
            None => true,
        },
    ensures
        final(b)@ == nl_field(old(b)@, t@),
{
    if has_prefix(t, "SSID:") {
        assert("SSID:"@.len() == 5) by {
            reveal_strlit("SSID:");
        }
        let rest = tail_from(t, 5);
        let trimmed = trim_chars(&rest);
        b.ssid = Some(string_of_chars(trimmed.as_slice()));
    } else if has_prefix(t, "signal:") {
        assert("signal:"@.len() == 7) by {
            reveal_strlit("signal:");
        }
        let rest = tail_from(t, 7);
        let trimmed = trim_chars(&rest);
        b.signal = match first_word_of(&trimmed) {
            Some(w) => match parse_signed_within(&w, -2147483648, 2147483647) {
                Some(v) => Some(v as i32),
                None => None,
            },
            None => None,
        };
    } else if has_prefix(t, "DS Parameter set:") {
        assert("DS Parameter set:"@.len() == 17) by {
            reveal_strlit("DS Parameter set:");
        }
        let rest = tail_from(t, 17);
        let trimmed = trim_chars(&rest);
        let ch = match first_word_of(&trimmed) {
            Some(w) => read_u32_exec(&w),
            None => None,
        };
        b.channel = ch;
        match ch {
            Some(c) => {
                b.frequency = if c <= 14 {
                    Some(2407 + c * 5)
                } else {
                    Some(5000 + c * 5)
                };
            },
            None => {},
        }
    } else if has_text_in(t, "primary channel:") {
        b.channel = match nth_field(t, ':', 1) {
            Some(f) => {
                let trimmed = trim_chars(&f);
                read_u32_exec(&trimmed)
            },
            None => None,
        };
    }
}

/// An optional plugin beacon by its values.
pub open spec fn core_option(o: Option<RawBeacon>) -> Option<CoreBeaconModel> {
    match o {
        Some(b) => Some(b@),
        None => None,
    }
}

/// Plugin beacons by their values.
pub open spec fn core_beacons(v: Seq<RawBeacon>) -> Seq<CoreBeaconModel> {
    v.map_values(|b: RawBeacon| b@)
}

/// Whether `iw` scan output can be read: every "DS Parameter set:" line
/// names a channel whose frequency fits in 32 bits.
pub fn nl_output_in_range(output: &str) -> (ok: bool)
    ensures
        ok == nl_in_range(output@),
{
    let text = chars_of(output);
    let lines = split_lines(&text);
    let ghost ls = lines@.map_values(|l: Vec<char>| l@);
    assert("DS Parameter set:"@.len() == 17) by {
        reveal_strlit("DS Parameter set:");
    }
    let mut i: usize = 0;
    while i < lines.len()
        invariant
            ls == lines@.map_values(|l: Vec<char>| l@),
            ls == text_lines(output@),
            "DS Parameter set:"@.len() == 17,
            i <= lines.len(),
            forall|j: int|
                0 <= j < i && starts_with(spec_trim(#[trigger] ls[j]), "DS Parameter set:"@)
                    ==> match ds_channel(spec_trim(ls[j])) {
                    Some(c) => 5000 + c * 5 <= u32::MAX,
                    None => true,
                },
        decreases lines.len() - i,
    {
        assert(ls[i as int] == lines@[i as int]@);
        let t = trim_chars(&lines[i]);
        if has_prefix(&t, "DS Parameter set:") {
            let rest = tail_from(&t, 17);
            let trimmed = trim_chars(&rest);
            let ch = match first_word_of(&trimmed) {
                Some(w) => read_u32_exec(&w),
                None => None,
            };
            match ch {
                Some(c) => {
                    if 5000 + (c as u64) * 5 > 0xFFFF_FFFF {
                        return false;
                    }
                },
                None => {},
            }
        }
        i += 1;
    }
    true
}

/// Keep a captured plugin beacon: one without a BSSID is dropped; for a
/// BSSID already kept, the first beacon stays.
pub fn keep_first_beacon(kept: &mut Vec<RawBeacon>, beacon: RawBeacon)
    ensures
        beacon.bssid is None ==> final(kept)@ == old(kept)@,
        beacon.bssid is Some && (exists|i: int|
            0 <= i < old(kept)@.len() && text_of(old(kept)@[i].bssid) == text_of(beacon.bssid))
            ==> final(kept)@ == old(kept)@,
        beacon.bssid is Some && !(exists|i: int|
            0 <= i < old(kept)@.len() && text_of(old(kept)@[i].bssid) == text_of(beacon.bssid))
            ==> final(kept)@ == old(kept)@.push(beacon),
{
    let b = match &beacon.bssid {
        Some(b) => b.as_str(),
        None => {
            return;
        },
    };
    let mut i: usize = 0;
    while i < kept.len()
        invariant
            i <= kept.len(),
            text_of(beacon.bssid) == Some(b@),
            forall|j: int| 0 <= j < i ==> text_of(kept@[j].bssid) != Some(b@),
        decreases kept.len() - i,
    {
        match &kept[i].bssid {
            Some(k) => {
                if same_text(k.as_str(), b) {
                    assert(text_of(kept@[i as int].bssid) == text_of(beacon.bssid));
                    return;
                }
            },
            None => {},
        }
        i += 1;
    }
    kept.push(beacon);
}

impl Nl80211Scanner {
    /// Read `iw` scan output into plugin beacons.
    pub fn parse_iw_output(&self, output: &str) -> (r: Result<Vec<RawBeacon>, crate::scanner_core::ScanError>)
        requires
            nl_in_range(output@),
        ensures
            r matches Ok(v) && core_beacons(v@) == spec_nl_scan(output@),
    {
        let chars = chars_of(output);
        let lines = split_lines(&chars);
        let ghost ls = lines@.map_values(|l: Vec<char>| l@);
        let mut beacons: Vec<RawBeacon> = Vec::new();
        let mut current: Option<RawBeacon> = None;
        let mut i: usize = 0;
        assert(ls.subrange(0, ls.len() as int) =~= ls);
        assert(core_beacons(beacons@) =~= Seq::<CoreBeaconModel>::empty());
        while i < lines.len()
            invariant
                i <= lines.len(),
                ls == lines@.map_values(|l: Vec<char>| l@),
                ls == text_lines(output@),
                nl_in_range(output@),
                nl_walk(
                    NlScan { done: core_beacons(beacons@), current: core_option(current) },
                    ls.subrange(i as int, ls.len() as int),
                ) == nl_walk(NlScan { done: seq![], current: None }, ls),
            decreases lines.len() - i,
        {
            let ghost rest = ls.subrange(i as int, ls.len() as int);
            assert(rest[0] == lines@[i as int]@);
            assert(rest.drop_first() =~= ls.subrange(i + 1, ls.len() as int));
            let t = trim_chars(&lines[i]);
            if has_prefix(&t, "BSS ") {
                let taken = current;
                current = None;
                match taken {
                    Some(b) => {
                        let ghost before = core_beacons(beacons@);
                        let ghost bv = b@;
                        beacons.push(b);
                        assert(core_beacons(beacons@) =~= before.push(bv));
                    },
                    None => {},
                }
                assert("BSS "@.len() == 4) by {
                    reveal_strlit("BSS ");
                }
                let rest_chars = tail_from(&t, 4);
                let parts = split_chars(&rest_chars, '(');
                proof {
                    crate::textscan::lemma_split_on_nonempty_pub(rest_chars@, '(');
                    assert(parts@.map_values(|f: Vec<char>| f@)[0] == parts@[0]@);
                }
                let bssid = trim_chars(&parts[0]);
                let mut nb = RawBeacon::new();
                nb.bssid = Some(string_of_chars(bssid.as_slice()));
                current = Some(nb);
            } else {
                let taken = current;
                current = None;
                match taken {
                    Some(mut b) => {
                        proof {
                            assert(text_lines(output@)[i as int] == ls[i as int]);
                        }
                        nl_field_exec(&mut b, &t);
                        current = Some(b);
                    },
                    None => {},
                }
            }
            i += 1;
        }
        assert(ls.subrange(i as int, ls.len() as int) =~= Seq::<Seq<char>>::empty());
        match current {
            Some(b) => {
                let ghost before = core_beacons(beacons@);
                let ghost bv = b@;
                beacons.push(b);
                assert(core_beacons(beacons@) =~= before.push(bv));
            },
            None => {},
        }
        Ok(beacons)
    }
}

// ============================================================================
// Network objects of CoreWLAN and the WLAN API
// ============================================================================

/// The centre frequency of a CoreWLAN channel by its band code (1: 2.4
/// GHz, 2: 5 GHz, 3: 6 GHz; other codes give none).
pub open spec fn cw_band_frequency(number: u32, band: i32) -> Option<int> {
    if band == 1 {
        Some(2407 + number * 5)
    } else if band == 2 {
        Some(5000 + number * 5)
    } else if band == 3 {
        Some(5950 + number * 5)
    } else {
        None
    }
}

/// The plugin beacon of a scanned CoreWLAN network: its SSID and BSSID
/// texts, its signal, and, when it has a channel (number and band code),
/// the channel and its frequency.
pub open spec fn spec_cw_plugin_beacon(
    ssid: Option<String>,
    bssid: Option<String>,
    rssi: i32,
    channel: Option<(i32, i32)>,
) -> CoreBeaconModel {
    CoreBeaconModel {
        ssid: text_of(ssid),
        bssid: text_of(bssid),
        signal: Some(rssi),
        channel: match channel {
            Some(c) => Some(c.0 as u32),
            None => None,
        },
        frequency: match channel {
            Some(c) => match cw_band_frequency(c.0 as u32, c.1) {
                Some(f) => Some(f as u32),
                None => None,
            },
            None => None,
        },
        ..empty_beacon_model()
    }
}

impl CoreWlanScanner {
    /// The beacon of a scanned network object.
    pub fn network_beacon(
        &self,
        ssid: Option<String>,
        bssid: Option<String>,
        rssi: i32,
        channel: Option<(i32, i32)>,
    ) -> (b: RawBeacon)
        requires
            channel matches Some(c) ==> (cw_band_frequency(c.0 as u32, c.1) matches Some(f)
                ==> f <= u32::MAX),
        ensures
            b@ == spec_cw_plugin_beacon(ssid, bssid, rssi, channel),
    {
        let mut b = RawBeacon::new();
        b.ssid = ssid;
        b.bssid = bssid;
        b.signal = Some(rssi);
        match channel {
            Some((number, band)) => {
                let n = number as u32;
                b.channel = Some(n);
                b.frequency = if band == 1 {
                    Some(2407 + n * 5)
                } else if band == 2 {
                    Some(5000 + n * 5)
                } else if band == 3 {
                    Some(5950 + n * 5)
                } else {
                    None
                };
            },
            None => {},
        }
        b
    }
}

/// The SSID of a WLAN API network: the bytes of its 32-byte field up to
/// its length (1 to 32) as UTF-8, or empty text when they are not UTF-8.
pub open spec fn wlan_ssid(ssid: Seq<u8>, len: u32) -> Option<Seq<char>> {
    if len > 0 && len <= 32 {
        let b = ssid.take(len as int);
        Some(
            if valid_utf8(b) {
                decode_utf8(b)
            } else {
                seq![]
            },
        )
    } else {
        None
    }
}

/// Half of an integer, rounded toward zero.
pub open spec fn half_toward_zero(q: int) -> int {
    if q >= 0 {
        q / 2
    } else {
        -((-q) / 2)
    }
}

/// The plugin beacon of a WLAN API network: its SSID, a signal of -100 dBm
/// plus half its quality (read as a signed 32-bit number), and whether it
/// is secured.
pub open spec fn spec_wlan_plugin_beacon(ssid: Seq<u8>, len: u32, quality: u32, secured: bool) -> CoreBeaconModel {
    CoreBeaconModel {
        ssid: wlan_ssid(ssid, len),
        signal: Some((-100 + half_toward_zero((quality as i32) as int)) as i32),
        is_secured: secured,
        ..empty_beacon_model()
    }
}

impl WlanApiScanner {
    /// The beacon of an available network.
    pub fn network_beacon(&self, ssid: &[u8; 32], len: u32, quality: u32, secured: bool) -> (b: RawBeacon)
        ensures
            b@ == spec_wlan_plugin_beacon(ssid@, len, quality, secured),
    {
        let mut b = RawBeacon::new();
        if len > 0 && len <= 32 {
            let n = len as usize;
            let mut bytes: Vec<u8> = Vec::new();
            let mut i: usize = 0;
            while i < n
                invariant
                    n == len,
                    n <= 32,
                    ssid@.len() == 32,
                    i <= n,
                    bytes@ == ssid@.take(i as int),
                decreases n - i,
            {
                bytes.push(ssid[i]);
                assert(bytes@ =~= ssid@.take(i + 1));
                i += 1;
            }
            let text = match decode_utf8_exact(bytes.as_slice()) {
                Some(t) => t,
                None => String::new(),
            };
            assert(text@ == wlan_ssid(ssid@, len)->0);
            b.ssid = Some(text);
        }
        let q = quality as i32;
        b.signal = Some(-100 + q / 2);
        b.is_secured = secured;
        assert(b@.ssid == wlan_ssid(ssid@, len));
        b
    }
}

} // verus!
