//! The plugin interface's data: platforms, scanner capabilities, scanner
//! errors and the raw beacon record that scanner plugins produce.
use vstd::prelude::*;
use crate::text::{push_decimal, push_str, spec_decimal, string_of_chars};

verus! {

// ============================================================================
// Platforms and capabilities
// ============================================================================

/// Platform identifiers.
#[derive(Clone, Copy, Debug, PartialEq, Eq, Structural, Hash)]
pub enum Platform {
    MacOS,
    Windows,
    Linux,
}

/// What a scanner can report.
#[derive(Clone, Copy, Debug, PartialEq, Eq, Structural)]
pub struct ScannerCapabilities {
    /// Can extract IE (Information Element) data
    pub has_ie_data: bool,
    /// Can get BSSID
    pub has_bssid: bool,
    /// Can get signal strength
    pub has_signal: bool,
    /// Can get security info
    pub has_security: bool,
    /// Compatible with App Store
    pub app_store_compatible: bool,
}

impl Default for ScannerCapabilities {
    fn default() -> (c: ScannerCapabilities)
        ensures
            !c.has_ie_data && !c.has_bssid && !c.has_signal && !c.has_security
                && !c.app_store_compatible,
    {
        ScannerCapabilities {
            has_ie_data: false,
            has_bssid: false,
            has_signal: false,
            has_security: false,
            app_store_compatible: false,
        }
    }
}

/// Scanner information.
#[derive(Clone, Debug)]
pub struct ScannerInfo {
    /// Unique scanner name
    pub name: String,
    /// Human-readable description
    pub description: String,
    /// Supported platforms
    pub platforms: Vec<Platform>,
    /// Scanner capabilities
    pub capabilities: ScannerCapabilities,
    /// Requires elevated privileges
    pub requires_privilege: bool,
    /// Is available on current system
    pub available: bool,
}

// ============================================================================
// Errors
// ============================================================================

/// Scanner error type.
#[derive(Clone, Debug, PartialEq, Eq)]
pub enum ScanError {
    /// Scanner not available on this platform
    NotAvailable(String),
    /// Permission denied (requires root/admin)
    PermissionDenied(String),
    /// Interface not found
    InterfaceNotFound(String),
    /// Interface not in monitor mode
    NotMonitorMode(String),
    /// Scan timeout (milliseconds)
    Timeout(u64),
    /// No networks found
    NoNetworks,
    /// I/O error, by its message
    Io(String),
    /// Parse error
    Parse(String),
    /// System error
    System(String),
    /// Platform-specific error: platform and message
    Platform(String, String),
    /// Invalid configuration
    Config(String),
    /// Generic error
    Other(String),
}

/// The message an error displays.
pub open spec fn spec_error_message(e: ScanError) -> Seq<char> {
    match e {
        ScanError::NotAvailable(s) => "Scanner '"@ + s@ + "' is not available on this platform"@,
        ScanError::PermissionDenied(s) => "Permission denied: "@ + s@
            + ". This scanner requires elevated privileges."@,
        ScanError::InterfaceNotFound(s) => "Network interface not found: "@ + s@,
        ScanError::NotMonitorMode(s) => "Interface '"@ + s@ + "' is not in monitor mode"@,
        ScanError::Timeout(ms) => "Scan timed out after "@ + spec_decimal(ms) + "ms"@,
        ScanError::NoNetworks => "No networks found"@,
        ScanError::Io(s) => "IO error: "@ + s@,
        ScanError::Parse(s) => "Parse error: "@ + s@,
        ScanError::System(s) => "System error: "@ + s@,
        ScanError::Platform(p, m) => p@ + ": "@ + m@,
        ScanError::Config(s) => "Invalid configuration: "@ + s@,
        ScanError::Other(s) => s@,
    }
}

impl ScanError {
    /// Create a platform-specific error.
    pub fn platform(platform: &str, msg: &str) -> (e: ScanError)
        ensures
            e matches ScanError::Platform(p, m) && p@ == platform@ && m@ == msg@,
    {
        ScanError::Platform(platform.to_owned(), msg.to_owned())
    }

    /// Whether the error is due to permissions.
    pub fn is_permission_denied(&self) -> (b: bool)
        ensures
            b == (self is PermissionDenied),
    {
        match self {
            ScanError::PermissionDenied(_) => true,
            _ => false,
        }
    }

    /// Whether the error is due to a timeout.
    pub fn is_timeout(&self) -> (b: bool)
        ensures
            b == (self is Timeout),
    {
        match self {
            ScanError::Timeout(_) => true,
            _ => false,
        }
    }

    /// Whether the scanner is not available.
    pub fn is_not_available(&self) -> (b: bool)
        ensures
            b == (self is NotAvailable),
    {
        match self {
            ScanError::NotAvailable(_) => true,
            _ => false,
        }
    }

    /// The message the error displays.
    pub fn message(&self) -> (m: String)
        ensures
            m@ == spec_error_message(*self),
    {
        let mut v: Vec<char> = Vec::new();
        match self {
            ScanError::NotAvailable(s) => {
                push_str(&mut v, "Scanner '");
                push_str(&mut v, s.as_str());
                push_str(&mut v, "' is not available on this platform");
            },
            ScanError::PermissionDenied(s) => {
                push_str(&mut v, "Permission denied: ");
                push_str(&mut v, s.as_str());
                push_str(&mut v, ". This scanner requires elevated privileges.");
            },
            ScanError::InterfaceNotFound(s) => {
                push_str(&mut v, "Network interface not found: ");
                push_str(&mut v, s.as_str());
            },
            ScanError::NotMonitorMode(s) => {
                push_str(&mut v, "Interface '");
                push_str(&mut v, s.as_str());
                push_str(&mut v, "' is not in monitor mode");
            },
            ScanError::Timeout(ms) => {
                push_str(&mut v, "Scan timed out after ");
                push_decimal(&mut v, *ms);
                push_str(&mut v, "ms");
            },
            ScanError::NoNetworks => {
                push_str(&mut v, "No networks found");
            },
            ScanError::Io(s) => {
                push_str(&mut v, "IO error: ");
                push_str(&mut v, s.as_str());
            },
            ScanError::Parse(s) => {
                push_str(&mut v, "Parse error: ");
                push_str(&mut v, s.as_str());
            },
            ScanError::System(s) => {
                push_str(&mut v, "System error: ");
                push_str(&mut v, s.as_str());
            },
            ScanError::Platform(p, m) => {
                push_str(&mut v, p.as_str());
                push_str(&mut v, ": ");
                push_str(&mut v, m.as_str());
            },
            ScanError::Config(s) => {
                push_str(&mut v, "Invalid configuration: ");
                push_str(&mut v, s.as_str());
            },
            ScanError::Other(s) => {
                push_str(&mut v, s.as_str());
            },
        }
        assert(v@ =~= spec_error_message(*self));
        string_of_chars(v.as_slice())
    }
}

// ============================================================================
// Beacon records of the plugins
// ============================================================================

/// WiFi frequency band.
#[derive(Clone, Copy, Debug, PartialEq, Eq, Structural, Hash)]
pub enum Band {
    /// 2.4 GHz band (2401-2495 MHz)
    Band24,
    /// 5 GHz band (5150-5895 MHz)
    Band5,
    /// 6 GHz band (5925-7125 MHz)
    Band6,
}

/// The name a band displays.
pub open spec fn spec_band_name(b: Band) -> Seq<char> {
    match b {
        Band::Band24 => "2.4 GHz"@,
        Band::Band5 => "5 GHz"@,
        Band::Band6 => "6 GHz"@,
    }
}

impl Band {
    /// The name the band displays.
    pub fn name(&self) -> (s: &'static str)
        ensures
            s@ == spec_band_name(*self),
    {
        match self {
            Band::Band24 => "2.4 GHz",
            Band::Band5 => "5 GHz",
            Band::Band6 => "6 GHz",
        }
    }
}

/// Security type.
#[derive(Clone, Copy, Debug, PartialEq, Eq, Structural, Hash)]
pub enum SecurityType {
    /// Open network (no security)
    Open,
    /// WEP (deprecated)
    WEP,
    /// WPA Personal (TKIP)
    WPA,
    /// WPA2 Personal (AES)
    WPA2,
    /// WPA2/WPA3 Transition mode
    WPA2WPA3,
    /// WPA3 Personal
    WPA3,
    /// WPA Enterprise (802.1X)
    WPAEnterprise,
    /// WPA2 Enterprise
    WPA2Enterprise,
    /// WPA3 Enterprise
    WPA3Enterprise,
}

/// The name a security type displays.
pub open spec fn spec_security_name(s: SecurityType) -> Seq<char> {
    match s {
        SecurityType::Open => "Open"@,
        SecurityType::WEP => "WEP"@,
        SecurityType::WPA => "WPA"@,
        SecurityType::WPA2 => "WPA2"@,
        SecurityType::WPA2WPA3 => "WPA2/WPA3"@,
        SecurityType::WPA3 => "WPA3"@,
        SecurityType::WPAEnterprise => "WPA-Enterprise"@,
        SecurityType::WPA2Enterprise => "WPA2-Enterprise"@,
        SecurityType::WPA3Enterprise => "WPA3-Enterprise"@,
    }
}

impl SecurityType {
    /// The name the security type displays.
    pub fn name(&self) -> (s: &'static str)
        ensures
            s@ == spec_security_name(*self),
    {
        match self {
            SecurityType::Open => "Open",
            SecurityType::WEP => "WEP",
            SecurityType::WPA => "WPA",
            SecurityType::WPA2 => "WPA2",
            SecurityType::WPA2WPA3 => "WPA2/WPA3",
            SecurityType::WPA3 => "WPA3",
            SecurityType::WPAEnterprise => "WPA-Enterprise",
            SecurityType::WPA2Enterprise => "WPA2-Enterprise",
            SecurityType::WPA3Enterprise => "WPA3-Enterprise",
        }
    }
}

/// Vendor-specific information element.
#[derive(Clone, Debug)]
pub struct VendorIE {
    /// OUI (Organizationally Unique Identifier)
    pub oui: [u8; 3],
    /// Vendor-specific type
    pub vendor_type: u8,
    /// Vendor data
    pub data: Vec<u8>,
}

/// Apple's OUIs.
pub open spec fn apple_ouis() -> Seq<Seq<u8>> {
    seq![
        seq![0x00u8, 0x17, 0xf2],
        seq![0x00u8, 0x03, 0x93],
        seq![0x00u8, 0x05, 0xca],
        seq![0x00u8, 0x0a, 0x27],
        seq![0x00u8, 0x0d, 0x93],
        seq![0x00u8, 0x11, 0x24],
        seq![0x00u8, 0x14, 0x51],
        seq![0x00u8, 0x16, 0xcb],
        seq![0x00u8, 0x19, 0xe3],
        seq![0x00u8, 0x1b, 0x63],
        seq![0xdcu8, 0xa9, 0x04],
        seq![0xdcu8, 0xa6, 0x32],
    ]
}

/// Broadcom's OUIs.
pub open spec fn broadcom_ouis() -> Seq<Seq<u8>> {
    seq![
        seq![0x00u8, 0x10, 0x18],
        seq![0x00u8, 0x0c, 0xe5],
        seq![0x00u8, 0x0d, 0xbd],
        seq![0x00u8, 0x11, 0x93],
        seq![0x00u8, 0x12, 0x17],
        seq![0x00u8, 0x13, 0x37],
    ]
}

/// Qualcomm/Atheros's OUIs.
pub open spec fn qualcomm_ouis() -> Seq<Seq<u8>> {
    seq![
        seq![0x00u8, 0x03, 0x7f],
        seq![0x00u8, 0x0c, 0xe5],
        seq![0x00u8, 0x12, 0xbf],
        seq![0x00u8, 0x13, 0xe8],
        seq![0x00u8, 0x14, 0x6c],
        seq![0x00u8, 0x15, 0xe9],
    ]
}

/// Whether an OUI is in a table of OUIs.
fn oui_in(oui: &[u8; 3], table: &[[u8; 3]]) -> (b: bool)
    ensures
        b == exists|i: int| 0 <= i < table@.len() && #[trigger] table@[i]@ == oui@,
{
    let mut i: usize = 0;
    while i < table.len()
        invariant
            i <= table.len(),
            forall|j: int| 0 <= j < i ==> #[trigger] table@[j]@ != oui@,
        decreases table.len() - i,
    {
        let t = table[i];
        if t[0] == oui[0] && t[1] == oui[1] && t[2] == oui[2] {
            assert(t@ =~= oui@);
            return true;
        }
        assert(t@ != oui@) by {
            if t[0] != oui[0] {
                assert(t@[0] != oui@[0]);
            } else if t[1] != oui[1] {
                assert(t@[1] != oui@[1]);
            } else {
                assert(t@[2] != oui@[2]);
            }
        }
        i += 1;
    }
    false
}

/// Whether a table of OUIs lists exactly these entries.
pub open spec fn table_lists(table: Seq<[u8; 3]>, entries: Seq<Seq<u8>>) -> bool {
    table.len() == entries.len() && forall|i: int| 0 <= i < table.len() ==> (#[trigger] table[i])@
        == entries[i]
}

impl VendorIE {
    /// Whether this is one of Apple's OUIs.
    pub fn is_apple(&self) -> (b: bool)
        ensures
            b == apple_ouis().contains(self.oui@),
    {
        let table: [[u8; 3]; 12] = [
            [0x00, 0x17, 0xf2],
            [0x00, 0x03, 0x93],
            [0x00, 0x05, 0xca],
            [0x00, 0x0a, 0x27],
            [0x00, 0x0d, 0x93],
            [0x00, 0x11, 0x24],
            [0x00, 0x14, 0x51],
            [0x00, 0x16, 0xcb],
            [0x00, 0x19, 0xe3],
            [0x00, 0x1b, 0x63],
            [0xdc, 0xa9, 0x04],
            [0xdc, 0xa6, 0x32],
        ];
        assert(table_lists(table@, apple_ouis())) by {
            assert forall|i: int| 0 <= i < 12 implies (#[trigger] table@[i])@ == apple_ouis()[i] by {
                assert(table@[i]@ =~= apple_ouis()[i]);
            }
        }
        let b = oui_in(&self.oui, &table);
        proof {
            if apple_ouis().contains(self.oui@) {
                let k = choose|k: int| 0 <= k < 12 && apple_ouis()[k] == self.oui@;
                assert(table@[k]@ == self.oui@);
            }
        }
        b
    }

    /// Whether this is one of Broadcom's OUIs.
    pub fn is_broadcom(&self) -> (b: bool)
        ensures
            b == broadcom_ouis().contains(self.oui@),
    {
        let table: [[u8; 3]; 6] = [
            [0x00, 0x10, 0x18],
            [0x00, 0x0c, 0xe5],
            [0x00, 0x0d, 0xbd],
            [0x00, 0x11, 0x93],
            [0x00, 0x12, 0x17],
            [0x00, 0x13, 0x37],
        ];
        assert(table_lists(table@, broadcom_ouis())) by {
            assert forall|i: int| 0 <= i < 6 implies (#[trigger] table@[i])@ == broadcom_ouis()[i] by {
                assert(table@[i]@ =~= broadcom_ouis()[i]);
            }
        }
        let b = oui_in(&self.oui, &table);
        proof {
            if broadcom_ouis().contains(self.oui@) {
                let k = choose|k: int| 0 <= k < 6 && broadcom_ouis()[k] == self.oui@;
                assert(table@[k]@ == self.oui@);
            }
        }
        b
    }

    /// Whether this is one of Qualcomm/Atheros's OUIs.
    pub fn is_qualcomm(&self) -> (b: bool)
        ensures
            b == qualcomm_ouis().contains(self.oui@),
    {
        let table: [[u8; 3]; 6] = [
            [0x00, 0x03, 0x7f],
            [0x00, 0x0c, 0xe5],
            [0x00, 0x12, 0xbf],
            [0x00, 0x13, 0xe8],
            [0x00, 0x14, 0x6c],
            [0x00, 0x15, 0xe9],
        ];
        assert(table_lists(table@, qualcomm_ouis())) by {
            assert forall|i: int| 0 <= i < 6 implies (#[trigger] table@[i])@ == qualcomm_ouis()[i] by {
                assert(table@[i]@ =~= qualcomm_ouis()[i]);
            }
        }
        let b = oui_in(&self.oui, &table);
        proof {
            if qualcomm_ouis().contains(self.oui@) {
                let k = choose|k: int| 0 <= k < 6 && qualcomm_ouis()[k] == self.oui@;
                assert(table@[k]@ == self.oui@);
            }
        }
        b
    }

    /// The vendor an OUI names: Apple, Broadcom, Qualcomm (in that order of
    /// precedence) or Unknown.
    pub fn vendor_name(&self) -> (s: &'static str)
        ensures
            s@ == (if apple_ouis().contains(self.oui@) {
                "Apple"@
            } else if broadcom_ouis().contains(self.oui@) {
                "Broadcom"@
            } else if qualcomm_ouis().contains(self.oui@) {
                "Qualcomm"@
            } else {
                "Unknown"@
            }),
    {
        if self.is_apple() {
            "Apple"
        } else if self.is_broadcom() {
            "Broadcom"
        } else if self.is_qualcomm() {
            "Qualcomm"
        } else {
            "Unknown"
        }
    }
}

/// WiFi standard.
#[derive(Clone, Copy, Debug, PartialEq, Eq, Structural, Hash)]
pub enum WiFiStandard {
    /// 802.11a (5 GHz, up to 54 Mbps)
    A,
    /// 802.11b (2.4 GHz, up to 11 Mbps)
    B,
    /// 802.11g (2.4 GHz, up to 54 Mbps)
    G,
    /// 802.11n (WiFi 4, 2.4/5 GHz, up to 600 Mbps)
    N,
    /// 802.11ac (WiFi 5, 5 GHz, up to 6.9 Gbps)
    AC,
    /// 802.11ax (WiFi 6/6E, 2.4/5/6 GHz)
    AX,
    /// 802.11be (WiFi 7, 2.4/5/6 GHz)
    BE,
}

/// WiFi generation of a standard (0 before 802.11n).
pub open spec fn spec_generation(s: WiFiStandard) -> u8 {
    match s {
        WiFiStandard::A => 0,
        WiFiStandard::B => 0,
        WiFiStandard::G => 0,
        WiFiStandard::N => 4,
        WiFiStandard::AC => 5,
        WiFiStandard::AX => 6,
        WiFiStandard::BE => 7,
    }
}

/// The name a standard displays.
pub open spec fn spec_standard_name(s: WiFiStandard) -> Seq<char> {
    match s {
        WiFiStandard::A => "802.11a"@,
        WiFiStandard::B => "802.11b"@,
        WiFiStandard::G => "802.11g"@,
        WiFiStandard::N => "WiFi 4 (802.11n)"@,
        WiFiStandard::AC => "WiFi 5 (802.11ac)"@,
        WiFiStandard::AX => "WiFi 6 (802.11ax)"@,
        WiFiStandard::BE => "WiFi 7 (802.11be)"@,
    }
}

impl WiFiStandard {
    /// The WiFi generation number.
    pub fn generation(&self) -> (g: u8)
        ensures
            g == spec_generation(*self),
    {
        match self {
            WiFiStandard::A => 0,
            WiFiStandard::B => 0,
            WiFiStandard::G => 0,
            WiFiStandard::N => 4,
            WiFiStandard::AC => 5,
            WiFiStandard::AX => 6,
            WiFiStandard::BE => 7,
        }
    }

    /// The name the standard displays.
    pub fn name(&self) -> (s: &'static str)
        ensures
            s@ == spec_standard_name(*self),
    {
        match self {
            WiFiStandard::A => "802.11a",
            WiFiStandard::B => "802.11b",
            WiFiStandard::G => "802.11g",
            WiFiStandard::N => "WiFi 4 (802.11n)",
            WiFiStandard::AC => "WiFi 5 (802.11ac)",
            WiFiStandard::AX => "WiFi 6 (802.11ax)",
            WiFiStandard::BE => "WiFi 7 (802.11be)",
        }
    }
}

/// Raw beacon data from a WiFi network, as a scanner plugin reports it.
/// The maximum data rate is in tenths of a megabit per second.
#[derive(Clone, Debug)]
pub struct RawBeacon {
    /// Network SSID (may be hidden/empty)
    pub ssid: Option<String>,
    /// BSSID (MAC address of the AP)
    pub bssid: Option<String>,
    /// Signal strength in dBm (usually negative)
    pub signal: Option<i32>,
    /// Channel number
    pub channel: Option<u32>,
    /// Frequency in MHz
    pub frequency: Option<u32>,
    /// WiFi standard (4, 5, 6, 7)
    pub wifi_standard: Option<u8>,
    /// Maximum data rate in tenths of Mbps
    pub max_rate_tenths: Option<u32>,
    /// Security type
    pub security: Option<SecurityType>,
    /// Raw IE (Information Elements) data
    pub ie_data: Option<Vec<u8>>,
    /// Vendor-specific IEs
    pub vendor_ies: Vec<VendorIE>,
    /// Supported MCS indices for 802.11n/ac/ax
    pub mcs_indices: Vec<u8>,
    /// Channel width in MHz (20, 40, 80, 160, 320)
    pub channel_width: Option<u32>,
    /// Guard interval in nanoseconds (400, 800, 1600, 3200)
    pub guard_interval: Option<u32>,
    /// Is the network secured
    pub is_secured: bool,
    /// Additional metadata
    pub metadata: std::collections::HashMap<String, String>,
}

/// The band of a frequency: 2400-2499 MHz is 2.4 GHz, 5000-5924 MHz is
/// 5 GHz, and the 6 GHz band runs from 5925 to 7125 MHz.
pub open spec fn spec_core_band(frequency: Option<u32>) -> Option<Band> {
    match frequency {
        Some(f) => if 2400 <= f < 2500 {
            Some(Band::Band24)
        } else if 5000 <= f < 5925 {
            Some(Band::Band5)
        } else if 5925 <= f <= 7125 {
            Some(Band::Band6)
        } else {
            None
        },
        None => None,
    }
}

/// Signal quality in percent: -90 dBm and below is 0, -30 dBm and above is
/// 100, linear (rounded down) in between.
pub open spec fn spec_signal_quality(s: i32) -> u8 {
    let k = s + 90;
    if k <= 0 {
        0
    } else if k >= 60 {
        100
    } else {
        (k * 100 / 60) as u8
    }
}

/// A beacon with nothing known.
pub open spec fn empty_core_beacon(b: RawBeacon) -> bool {
    &&& b.ssid is None
    &&& b.bssid is None
    &&& b.signal is None
    &&& b.channel is None
    &&& b.frequency is None
    &&& b.wifi_standard is None
    &&& b.max_rate_tenths is None
    &&& b.security is None
    &&& b.ie_data is None
    &&& b.vendor_ies@.len() == 0
    &&& b.mcs_indices@.len() == 0
    &&& b.channel_width is None
    &&& b.guard_interval is None
    &&& !b.is_secured
    &&& b.metadata@ == Map::<String, String>::empty()
}

impl RawBeacon {
    /// A new beacon with nothing known.
    pub fn new() -> (b: RawBeacon)
        ensures
            empty_core_beacon(b),
            b@ == empty_beacon_model(),
    {
        let b = RawBeacon {
            ssid: None,
            bssid: None,
            signal: None,
            channel: None,
            frequency: None,
            wifi_standard: None,
            max_rate_tenths: None,
            security: None,
            ie_data: None,
            vendor_ies: Vec::new(),
            mcs_indices: Vec::new(),
            channel_width: None,
            guard_interval: None,
            is_secured: false,
            metadata: std::collections::HashMap::new(),
        };
        assert(b@.vendor_ies =~= Seq::<VendorIEModel>::empty());
        assert(b@.mcs_indices =~= Seq::<u8>::empty());
        b
    }

    /// Whether the SSID is hidden (absent or empty).
    pub fn is_hidden(&self) -> (b: bool)
        ensures
            b == match self.ssid {
                Some(s) => s@.len() == 0,
                None => true,
            },
    {
        match &self.ssid {
            Some(s) => s.as_str().is_empty(),
            None => true,
        }
    }

    /// The band of the beacon's frequency.
    pub fn band(&self) -> (b: Option<Band>)
        ensures
            b == spec_core_band(self.frequency),
    {
        match self.frequency {
            Some(f) => if 2400 <= f && f < 2500 {
                Some(Band::Band24)
            } else if 5000 <= f && f < 5925 {
                Some(Band::Band5)
            } else if 5925 <= f && f <= 7125 {
                Some(Band::Band6)
            } else {
                None
            },
            None => None,
        }
    }

    /// Signal quality in percent (0-100).
    pub fn signal_quality(&self) -> (q: Option<u8>)
        requires
            self.signal matches Some(s) ==> s + 90 <= i32::MAX,
        ensures
            q == match self.signal {
                Some(s) => Some(spec_signal_quality(s)),
                None => None,
            },
    {
        match self.signal {
            Some(s) => {
                let k = s + 90;
                let q: u8 = if k <= 0 {
                    0
                } else if k >= 60 {
                    100
                } else {
                    (k * 100 / 60) as u8
                };
                Some(q)
            },
            None => None,
        }
    }
}

impl Default for RawBeacon {
    fn default() -> (b: RawBeacon)
        ensures
            empty_core_beacon(b),
    {
        RawBeacon::new()
    }
}

/// A vendor-specific element by its values.
pub struct VendorIEModel {
    pub oui: Seq<u8>,
    pub vendor_type: u8,
    pub data: Seq<u8>,
}

impl View for VendorIE {
    type V = VendorIEModel;

    open spec fn view(&self) -> VendorIEModel {
        VendorIEModel { oui: self.oui@, vendor_type: self.vendor_type, data: self.data@ }
    }
}

/// A plugin beacon by its values.
pub struct CoreBeaconModel {
    pub ssid: Option<Seq<char>>,
    pub bssid: Option<Seq<char>>,
    pub signal: Option<i32>,
    pub channel: Option<u32>,
    pub frequency: Option<u32>,
    pub wifi_standard: Option<u8>,
    pub max_rate_tenths: Option<u32>,
    pub security: Option<SecurityType>,
    pub ie_data: Option<Seq<u8>>,
    pub vendor_ies: Seq<VendorIEModel>,
    pub mcs_indices: Seq<u8>,
    pub channel_width: Option<u32>,
    pub guard_interval: Option<u32>,
    pub is_secured: bool,
    pub metadata: Map<String, String>,
}

/// An optional string by its characters.
pub open spec fn text_of(o: Option<String>) -> Option<Seq<char>> {
    match o {
        Some(s) => Some(s@),
        None => None,
    }
}

impl View for RawBeacon {
    type V = CoreBeaconModel;

    open spec fn view(&self) -> CoreBeaconModel {
        CoreBeaconModel {
            ssid: text_of(self.ssid),
            bssid: text_of(self.bssid),
            signal: self.signal,
            channel: self.channel,
            frequency: self.frequency,
            wifi_standard: self.wifi_standard,
            max_rate_tenths: self.max_rate_tenths,
            security: self.security,
            ie_data: match self.ie_data {
                Some(d) => Some(d@),
                None => None,
            },
            vendor_ies: self.vendor_ies@.map_values(|v: VendorIE| v@),
            mcs_indices: self.mcs_indices@,
            channel_width: self.channel_width,
            guard_interval: self.guard_interval,
            is_secured: self.is_secured,
            metadata: self.metadata@,
        }
    }
}

/// A plugin beacon with nothing known.
pub open spec fn empty_beacon_model() -> CoreBeaconModel {
    CoreBeaconModel {
        ssid: None,
        bssid: None,
        signal: None,
        channel: None,
        frequency: None,
        wifi_standard: None,
        max_rate_tenths: None,
        security: None,
        ie_data: None,
        vendor_ies: seq![],
        mcs_indices: seq![],
        channel_width: None,
        guard_interval: None,
        is_secured: false,
        metadata: Map::empty(),
    }
}

} // verus!
