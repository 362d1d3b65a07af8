//! Core data types: raw scanner output, parsed capabilities and the final
//! per-network description.
use vstd::prelude::*;
use vstd::utf8::{decode_utf8, valid_utf8};
use crate::text::{decode_utf8_exact, hex_digit, hex_digit_exec, push_str, string_of_chars};

verus! {

// ============================================================================
// Band
// ============================================================================

/// Frequency band of a network.
#[derive(Clone, Copy, Debug, PartialEq, Eq, Structural)]
pub enum Band {
    Ghz2_4,
    Ghz5,
    Ghz6,
}

/// Band assumed for a channel number: channels above 14 are 5 GHz.
pub open spec fn spec_band_from_channel(ch: u8) -> Band {
    if ch > 14 {
        Band::Ghz5
    } else {
        Band::Ghz2_4
    }
}

/// Band of a frequency in MHz; frequencies outside every band count as 2.4 GHz.
pub open spec fn spec_band_from_frequency(freq_mhz: u32) -> Band {
    if 2400 <= freq_mhz <= 2499 {
        Band::Ghz2_4
    } else if 5000 <= freq_mhz <= 5899 {
        Band::Ghz5
    } else if 5900 <= freq_mhz <= 7125 {
        Band::Ghz6
    } else {
        Band::Ghz2_4
    }
}

/// Short label of a band.
pub open spec fn spec_band_str(b: Band) -> &'static str {
    match b {
        Band::Ghz2_4 => "2.4",
        Band::Ghz5 => "5",
        Band::Ghz6 => "6",
    }
}

impl Band {
    pub fn from_channel(ch: u8) -> (b: Band)
        ensures
            b == spec_band_from_channel(ch),
    {
        if ch > 14 {
            Band::Ghz5
        } else {
            Band::Ghz2_4
        }
    }

    pub fn from_frequency(freq_mhz: u32) -> (b: Band)
        ensures
            b == spec_band_from_frequency(freq_mhz),
    {
        if 2400 <= freq_mhz && freq_mhz <= 2499 {
            Band::Ghz2_4
        } else if 5000 <= freq_mhz && freq_mhz <= 5899 {
            Band::Ghz5
        } else if 5900 <= freq_mhz && freq_mhz <= 7125 {
            Band::Ghz6
        } else {
            Band::Ghz2_4
        }
    }

    pub fn as_str(&self) -> (s: &'static str)
        ensures
            s == spec_band_str(*self),
    {
        match self {
            Band::Ghz2_4 => "2.4",
            Band::Ghz5 => "5",
            Band::Ghz6 => "6",
        }
    }
}

impl Default for Band {
    fn default() -> (b: Band)
        ensures
            b == Band::Ghz2_4,
    {
        Band::Ghz2_4
    }
}

// ============================================================================
// Channel information
// ============================================================================

/// Channel bandwidth modes.
#[derive(Clone, Copy, Debug, PartialEq, Eq, Structural)]
pub enum ChannelBandwidth {
    MHz20,
    MHz40,
    MHz80,
    MHz160,
    /// 80+80 non-contiguous (WiFi 5)
    MHz80Plus80,
    /// WiFi 7
    MHz320,
}

/// Total width in MHz of a bandwidth mode (80+80 counts as 160).
pub open spec fn spec_bandwidth_mhz(bw: ChannelBandwidth) -> u16 {
    match bw {
        ChannelBandwidth::MHz20 => 20,
        ChannelBandwidth::MHz40 => 40,
        ChannelBandwidth::MHz80 => 80,
        ChannelBandwidth::MHz160 => 160,
        ChannelBandwidth::MHz80Plus80 => 160,
        ChannelBandwidth::MHz320 => 320,
    }
}

impl ChannelBandwidth {
    pub fn as_mhz(&self) -> (mhz: u16)
        ensures
            mhz == spec_bandwidth_mhz(*self),
    {
        match self {
            ChannelBandwidth::MHz20 => 20,
            ChannelBandwidth::MHz40 => 40,
            ChannelBandwidth::MHz80 => 80,
            ChannelBandwidth::MHz160 => 160,
            ChannelBandwidth::MHz80Plus80 => 160,
            ChannelBandwidth::MHz320 => 320,
        }
    }
}

impl Default for ChannelBandwidth {
    fn default() -> (bw: ChannelBandwidth)
        ensures
            bw == ChannelBandwidth::MHz20,
    {
        ChannelBandwidth::MHz20
    }
}

/// Position of the secondary 20 MHz channel.
#[derive(Clone, Copy, Debug, PartialEq, Eq, Structural)]
pub enum SecondaryChannelOffset {
    Above,
    Below,
}

/// Detailed channel information.
#[derive(Clone, Copy, Debug, PartialEq, Eq)]
pub struct ChannelInfo {
    pub primary: u8,
    pub bandwidth: ChannelBandwidth,
    pub secondary: Option<u8>,
    pub secondary_offset: Option<SecondaryChannelOffset>,
    /// Center frequency segment 0 (channel index)
    pub center_freq_0: Option<u16>,
    /// Center frequency segment 1 (for 80+80)
    pub center_freq_1: Option<u16>,
    pub frequency: Option<u32>,
}

impl Default for ChannelInfo {
    fn default() -> (c: ChannelInfo)
        ensures
            c == (ChannelInfo {
                primary: 0,
                bandwidth: ChannelBandwidth::MHz20,
                secondary: None,
                secondary_offset: None,
                center_freq_0: None,
                center_freq_1: None,
                frequency: None,
            }),
    {
        ChannelInfo {
            primary: 0,
            bandwidth: ChannelBandwidth::MHz20,
            secondary: None,
            secondary_offset: None,
            center_freq_0: None,
            center_freq_1: None,
            frequency: None,
        }
    }
}

// ============================================================================
// Spatial streams, OFDMA, TWT, WiFi 7, MCS
// ============================================================================

/// Spatial stream information for MIMO.
#[derive(Clone, Copy, Debug, PartialEq, Eq)]
pub struct SpatialStreamInfo {
    pub tx_streams: Option<u8>,
    pub rx_streams: Option<u8>,
    pub client_tx: Option<u8>,
    pub client_rx: Option<u8>,
    pub effective_streams: Option<u8>,
}

/// Resource unit sizes for OFDMA.
#[derive(Clone, Copy, Debug, PartialEq, Eq, Structural)]
pub enum RuSize {
    R26,
    R52,
    R106,
    R242,
    R484,
    R996,
    R996x2,
}

/// OFDMA capabilities (WiFi 6+).
#[derive(Clone, Debug)]
pub struct OfdmaInfo {
    pub dl_ofdma: bool,
    pub ul_ofdma: bool,
    pub ru_sizes: Vec<RuSize>,
}

/// Mathematical content of an [`OfdmaInfo`].
pub struct OfdmaModel {
    pub dl_ofdma: bool,
    pub ul_ofdma: bool,
    pub ru_sizes: Seq<RuSize>,
}

impl View for OfdmaInfo {
    type V = OfdmaModel;

    open spec fn view(&self) -> OfdmaModel {
        OfdmaModel { dl_ofdma: self.dl_ofdma, ul_ofdma: self.ul_ofdma, ru_sizes: self.ru_sizes@ }
    }
}

/// TWT power saving capabilities.
#[derive(Clone, Copy, Debug, PartialEq, Eq)]
pub struct TwtInfo {
    pub broadcast_twt: bool,
    pub individual_twt: bool,
    pub twt_requester: bool,
    pub twt_responder: bool,
}

/// One link of a multi-link setup.
#[derive(Clone, Debug)]
pub struct MloLink {
    pub band: String,
    pub channel: u16,
    pub frequency: u32,
}

/// Multi-Link Operation (WiFi 7).
#[derive(Clone, Debug)]
pub struct MloInfo {
    pub enabled: bool,
    pub num_links: u8,
    pub links: Vec<MloLink>,
}

/// Mathematical content of an [`MloInfo`] (links by their count).
pub struct MloModel {
    pub enabled: bool,
    pub num_links: u8,
    pub link_count: nat,
}

impl View for MloInfo {
    type V = MloModel;

    open spec fn view(&self) -> MloModel {
        MloModel { enabled: self.enabled, num_links: self.num_links, link_count: self.links@.len() }
    }
}

/// WiFi 7 enhanced features.
#[derive(Clone, Debug)]
pub struct Wifi7Features {
    pub mlo: Option<MloInfo>,
    pub punctured_preamble: bool,
    pub multi_ru: bool,
}

/// Mathematical content of a [`Wifi7Features`].
pub struct Wifi7Model {
    pub mlo: Option<MloModel>,
    pub punctured_preamble: bool,
    pub multi_ru: bool,
}

impl View for Wifi7Features {
    type V = Wifi7Model;

    open spec fn view(&self) -> Wifi7Model {
        Wifi7Model {
            mlo: match self.mlo {
                Some(m) => Some(m@),
                None => None,
            },
            punctured_preamble: self.punctured_preamble,
            multi_ru: self.multi_ru,
        }
    }
}

/// Modulation type.
#[derive(Clone, Copy, Debug, PartialEq, Eq, Structural)]
pub enum Modulation {
    BPSK,
    QPSK,
    QAM16,
    QAM64,
    QAM256,
    QAM1024,
    QAM4096,
}

/// MCS and modulation details.
#[derive(Clone, Copy, Debug, PartialEq, Eq)]
pub struct McsInfo {
    pub max_mcs: Option<u8>,
    pub current_mcs: Option<u8>,
    pub max_modulation: Option<Modulation>,
}

// ============================================================================
// Security
// ============================================================================

#[derive(Clone, Debug)]
pub struct SecurityDetails {
    pub security_type: String,
    pub auth_method: String,
    pub cipher: String,
    pub key_mgmt: Vec<String>,
    pub is_enterprise: bool,
    pub is_wpa3_transition: bool,
    pub pmf_required: bool,
    pub pmf_capable: bool,
    /// Group (multicast) cipher
    pub group_cipher: Option<String>,
    /// Supported pairwise ciphers
    pub pairwise_ciphers: Vec<String>,
    /// SAE (WPA3 authentication)
    pub sae: bool,
    /// OWE (Opportunistic Wireless Encryption)
    pub owe: bool,
}

/// Mathematical content of a [`SecurityDetails`]: every string by its characters.
pub struct SecurityModel {
    pub security_type: Seq<char>,
    pub auth_method: Seq<char>,
    pub cipher: Seq<char>,
    pub key_mgmt: Seq<Seq<char>>,
    pub is_enterprise: bool,
    pub is_wpa3_transition: bool,
    pub pmf_required: bool,
    pub pmf_capable: bool,
    pub group_cipher: Option<Seq<char>>,
    pub pairwise_ciphers: Seq<Seq<char>>,
    pub sae: bool,
    pub owe: bool,
}

impl View for SecurityDetails {
    type V = SecurityModel;

    open spec fn view(&self) -> SecurityModel {
        SecurityModel {
            security_type: self.security_type@,
            auth_method: self.auth_method@,
            cipher: self.cipher@,
            key_mgmt: self.key_mgmt.deep_view(),
            is_enterprise: self.is_enterprise,
            is_wpa3_transition: self.is_wpa3_transition,
            pmf_required: self.pmf_required,
            pmf_capable: self.pmf_capable,
            group_cipher: match self.group_cipher {
                Some(g) => Some(g@),
                None => None,
            },
            pairwise_ciphers: self.pairwise_ciphers.deep_view(),
            sae: self.sae,
            owe: self.owe,
        }
    }
}

/// The security description of an open network.
pub open spec fn open_security() -> SecurityModel {
    SecurityModel {
        security_type: "open"@,
        auth_method: "open"@,
        cipher: "none"@,
        key_mgmt: seq![],
        is_enterprise: false,
        is_wpa3_transition: false,
        pmf_required: false,
        pmf_capable: false,
        group_cipher: None,
        pairwise_ciphers: seq![],
        sae: false,
        owe: false,
    }
}

impl Default for SecurityDetails {
    fn default() -> (d: SecurityDetails)
        ensures
            d@ == open_security(),
    {
        let d = SecurityDetails {
            security_type: "open".to_owned(),
            auth_method: "open".to_owned(),
            cipher: "none".to_owned(),
            key_mgmt: Vec::new(),
            is_enterprise: false,
            is_wpa3_transition: false,
            pmf_required: false,
            pmf_capable: false,
            group_cipher: None,
            pairwise_ciphers: Vec::new(),
            sae: false,
            owe: false,
        };
        assert(d.key_mgmt.deep_view() =~= Seq::<Seq<char>>::empty());
        assert(d.pairwise_ciphers.deep_view() =~= Seq::<Seq<char>>::empty());
        d
    }
}

// ============================================================================
// Roaming & protocols
// ============================================================================

#[derive(Clone, Copy, Debug, PartialEq, Eq)]
pub struct RoamingInfo {
    /// 802.11k - Radio Resource Measurement
    pub rrm: bool,
    pub neighbor_report: bool,
    pub beacon_report: bool,
    /// 802.11r - Fast BSS Transition
    pub ft: bool,
    pub ft_over_ds: bool,
    pub ft_resource_request: bool,
    /// 802.11v - BSS Transition Management
    pub bss_transition: bool,
    pub wnm_sleep: bool,
    /// 802.11w - Protected Management Frames
    pub pmf: bool,
    /// WMM/QoS
    pub wmm: bool,
    pub wmm_uapsd: bool,
}

/// Name kept for callers that speak of protocol extensions.
pub type ProtocolExtensions = RoamingInfo;

/// Roaming support that nothing has been advertised for.
pub open spec fn no_roaming() -> RoamingInfo {
    RoamingInfo {
        rrm: false,
        neighbor_report: false,
        beacon_report: false,
        ft: false,
        ft_over_ds: false,
        ft_resource_request: false,
        bss_transition: false,
        wnm_sleep: false,
        pmf: false,
        wmm: false,
        wmm_uapsd: false,
    }
}

impl Default for RoamingInfo {
    fn default() -> (r: RoamingInfo)
        ensures
            r == no_roaming(),
    {
        RoamingInfo {
            rrm: false,
            neighbor_report: false,
            beacon_report: false,
            ft: false,
            ft_over_ds: false,
            ft_resource_request: false,
            bss_transition: false,
            wnm_sleep: false,
            pmf: false,
            wmm: false,
            wmm_uapsd: false,
        }
    }
}

// ============================================================================
// Performance features
// ============================================================================

#[derive(Clone, Debug)]
pub struct PerformanceFeatures {
    pub su_mimo: bool,
    pub mu_mimo: bool,
    pub ul_mu_mimo: bool,
    pub su_beamformer: bool,
    pub su_beamformee: bool,
    pub mu_beamformer: bool,
    pub spatial_streams: u8,
    pub spatial_stream_info: Option<SpatialStreamInfo>,
    pub ofdma: bool,
    pub ofdma_info: Option<OfdmaInfo>,
    pub twt: bool,
    pub twt_info: Option<TwtInfo>,
    pub max_supported_width: u16,
    pub channel_info: Option<ChannelInfo>,
    pub max_qam: u16,
    pub mcs_info: Option<McsInfo>,
    pub bss_coloring: bool,
    pub ampdu_length: u8,
    pub guard_interval: u16,
    pub mcs_index: Option<u8>,
    pub mlo: bool,
    pub wifi7_features: Option<Wifi7Features>,
    pub max_data_rate: u32,
}

/// Mathematical content of a [`PerformanceFeatures`].
pub struct FeaturesModel {
    pub su_mimo: bool,
    pub mu_mimo: bool,
    pub ul_mu_mimo: bool,
    pub su_beamformer: bool,
    pub su_beamformee: bool,
    pub mu_beamformer: bool,
    pub spatial_streams: u8,
    pub spatial_stream_info: Option<SpatialStreamInfo>,
    pub ofdma: bool,
    pub ofdma_info: Option<OfdmaModel>,
    pub twt: bool,
    pub twt_info: Option<TwtInfo>,
    pub max_supported_width: u16,
    pub channel_info: Option<ChannelInfo>,
    pub max_qam: u16,
    pub mcs_info: Option<McsInfo>,
    pub bss_coloring: bool,
    pub ampdu_length: u8,
    pub guard_interval: u16,
    pub mcs_index: Option<u8>,
    pub mlo: bool,
    pub wifi7_features: Option<Wifi7Model>,
    pub max_data_rate: u32,
}

impl View for PerformanceFeatures {
    type V = FeaturesModel;

    open spec fn view(&self) -> FeaturesModel {
        FeaturesModel {
            su_mimo: self.su_mimo,
            mu_mimo: self.mu_mimo,
            ul_mu_mimo: self.ul_mu_mimo,
            su_beamformer: self.su_beamformer,
            su_beamformee: self.su_beamformee,
            mu_beamformer: self.mu_beamformer,
            spatial_streams: self.spatial_streams,
            spatial_stream_info: self.spatial_stream_info,
            ofdma: self.ofdma,
            ofdma_info: match self.ofdma_info {
                Some(o) => Some(o@),
                None => None,
            },
            twt: self.twt,
            twt_info: self.twt_info,
            max_supported_width: self.max_supported_width,
            channel_info: self.channel_info,
            max_qam: self.max_qam,
            mcs_info: self.mcs_info,
            bss_coloring: self.bss_coloring,
            ampdu_length: self.ampdu_length,
            guard_interval: self.guard_interval,
            mcs_index: self.mcs_index,
            mlo: self.mlo,
            wifi7_features: match self.wifi7_features {
                Some(w) => Some(w@),
                None => None,
            },
            max_data_rate: self.max_data_rate,
        }
    }
}

/// Features of a network that advertises nothing.
pub open spec fn no_features() -> FeaturesModel {
    FeaturesModel {
        su_mimo: false,
        mu_mimo: false,
        ul_mu_mimo: false,
        su_beamformer: false,
        su_beamformee: false,
        mu_beamformer: false,
        spatial_streams: 0,
        spatial_stream_info: None,
        ofdma: false,
        ofdma_info: None,
        twt: false,
        twt_info: None,
        max_supported_width: 0,
        channel_info: None,
        max_qam: 0,
        mcs_info: None,
        bss_coloring: false,
        ampdu_length: 0,
        guard_interval: 0,
        mcs_index: None,
        mlo: false,
        wifi7_features: None,
        max_data_rate: 0,
    }
}

impl Default for PerformanceFeatures {
    fn default() -> (f: PerformanceFeatures)
        ensures
            f@ == no_features(),
    {
        PerformanceFeatures {
            su_mimo: false,
            mu_mimo: false,
            ul_mu_mimo: false,
            su_beamformer: false,
            su_beamformee: false,
            mu_beamformer: false,
            spatial_streams: 0,
            spatial_stream_info: None,
            ofdma: false,
            ofdma_info: None,
            twt: false,
            twt_info: None,
            max_supported_width: 0,
            channel_info: None,
            max_qam: 0,
            mcs_info: None,
            bss_coloring: false,
            ampdu_length: 0,
            guard_interval: 0,
            mcs_index: None,
            mlo: false,
            wifi7_features: None,
            max_data_rate: 0,
        }
    }
}

// ============================================================================
// BSS load, adapter
// ============================================================================

#[derive(Clone, Copy, Debug, PartialEq, Eq)]
pub struct BssLoad {
    pub channel_utilization: u8,
    pub station_count: u16,
    pub available_capacity: u16,
}

/// Capabilities of the local WiFi adapter.
#[derive(Clone, Debug)]
pub struct LocalAdapterCapabilities {
    pub driver_name: String,
    pub supported_standards: Vec<String>,
    pub tx_spatial_streams: u8,
    pub rx_spatial_streams: u8,
    pub max_supported_width: u16,
}


// ============================================================================
// Link rates
// ============================================================================

/// Current link rates of a connection, in tenths of a megabit per second.
#[derive(Clone, Copy, Debug, PartialEq, Eq)]
pub struct LinkRates {
    pub rx_rate_tenths: Option<u32>,
    pub tx_rate_tenths: Option<u32>,
}

// ============================================================================
// Raw beacon
// ============================================================================

/// Raw beacon frame data from a scanner: the minimal common data all
/// platforms can provide.
#[derive(Clone, Debug)]
pub struct RawBeacon {
    pub ssid: Option<Vec<u8>>,
    pub bssid: [u8; 6],
    pub channel: u8,
    pub band: Band,
    pub signal_dbm: i16,
    pub noise_dbm: i16,
    pub ie_data: Vec<u8>,
    pub beacon_interval: u16,
    pub timestamp: u64,
    pub uptime_ms: Option<u64>,
    pub connected: bool,
    pub link_rates: Option<LinkRates>,
    pub local_adapter: Option<LocalAdapterCapabilities>,
    /// WiFi 4 (802.11n) seen in the scanner's own output.
    pub has_ht: bool,
    /// WiFi 5 (802.11ac) seen in the scanner's own output.
    pub has_vht: bool,
    /// WiFi 6 (802.11ax) seen in the scanner's own output.
    pub has_he: bool,
    /// WiFi 7 (802.11be) seen in the scanner's own output.
    pub has_eht: bool,
    pub spatial_streams: Option<u8>,
}

/// A BSSID written as six colon-separated pairs of upper-case hexadecimal
/// digits.
pub open spec fn spec_bssid_string(b: Seq<u8>) -> Seq<char> {
    Seq::new(
        17,
        |i: int|
            if i % 3 == 2 {
                ':'
            } else if i % 3 == 0 {
                hex_digit(b[i / 3] / 16)
            } else {
                hex_digit(b[i / 3] % 16)
            },
    )
}

/// Bytes as text, when they are valid UTF-8.
pub open spec fn utf8_text(b: Seq<u8>) -> Option<Seq<char>> {
    if valid_utf8(b) {
        Some(decode_utf8(b))
    } else {
        None
    }
}

/// Centre frequency in MHz of a channel in a band.
pub open spec fn spec_channel_frequency(band: Band, channel: u8) -> u32 {
    match band {
        Band::Ghz2_4 => (2407 + channel * 5) as u32,
        Band::Ghz5 => (5000 + channel * 5) as u32,
        Band::Ghz6 => (5950 + channel * 5) as u32,
    }
}

/// A string option by its characters.
pub open spec fn string_option(o: Option<String>) -> Option<Seq<char>> {
    match o {
        Some(s) => Some(s@),
        None => None,
    }
}

impl RawBeacon {
    /// The BSSID as "AA:BB:CC:DD:EE:FF".
    pub fn bssid_string(&self) -> (s: String)
        ensures
            s@ == spec_bssid_string(self.bssid@),
    {
        let mut cs: Vec<char> = Vec::new();
        let mut i: usize = 0;
        while i < 6
            invariant
                i <= 6,
                self.bssid@.len() == 6,
                i > 0 ==> cs@.len() == 3 * i - 1,
                i == 0 ==> cs@.len() == 0,
                forall|k: int|
                    0 <= k < i ==> cs@[3 * k] == hex_digit(#[trigger] self.bssid@[k] / 16)
                        && cs@[3 * k + 1] == hex_digit(self.bssid@[k] % 16),
                forall|k: int| 0 <= k < i - 1 ==> #[trigger] cs@[3 * k + 2] == ':',
            decreases 6 - i,
        {
            let b = self.bssid[i];
            if i > 0 {
                cs.push(':');
            }
            cs.push(hex_digit_exec(b / 16));
            cs.push(hex_digit_exec(b % 16));
            i += 1;
        }
        let s = string_of_chars(cs.as_slice());
        assert forall|j: int| 0 <= j < 17 implies #[trigger] cs@[j] == spec_bssid_string(
            self.bssid@,
        )[j] by {
            let k = j / 3;
            assert(0 <= k < 6);
            if j % 3 == 2 {
                assert(j == 3 * k + 2);
            } else if j % 3 == 0 {
                assert(j == 3 * k);
            } else {
                assert(j == 3 * k + 1);
            }
        }
        assert(cs@ =~= spec_bssid_string(self.bssid@));
        s
    }

    /// The SSID as text, when it is present and valid UTF-8.
    pub fn ssid_string(&self) -> (s: Option<String>)
        ensures
            string_option(s) == match self.ssid {
                Some(b) => utf8_text(b@),
                None => None,
            },
    {
        match &self.ssid {
            Some(b) => decode_utf8_exact(b.as_slice()),
            None => None,
        }
    }

    /// Centre frequency in MHz of the beacon's channel.
    pub fn frequency(&self) -> (f: u32)
        ensures
            f == spec_channel_frequency(self.band, self.channel),
    {
        match self.band {
            Band::Ghz2_4 => 2407 + self.channel as u32 * 5,
            Band::Ghz5 => 5000 + self.channel as u32 * 5,
            Band::Ghz6 => 5950 + self.channel as u32 * 5,
        }
    }

    /// Signal to noise ratio in dB, zero when the signal is below the noise.
    pub fn snr(&self) -> (r: u16)
        requires
            i16::MIN <= self.signal_dbm - self.noise_dbm <= i16::MAX,
        ensures
            r == if self.signal_dbm - self.noise_dbm > 0 {
                (self.signal_dbm - self.noise_dbm) as u16
            } else {
                0
            },
    {
        let d = self.signal_dbm - self.noise_dbm;
        if d > 0 {
            d as u16
        } else {
            0
        }
    }
}

impl Default for RawBeacon {
    fn default() -> (b: RawBeacon)
        ensures
            b.ssid is None,
            b.bssid@ == seq![0u8, 0, 0, 0, 0, 0],
            b.channel == 0,
            b.band == Band::Ghz2_4,
            b.signal_dbm == 0,
            b.noise_dbm == 0,
            b.ie_data@ == Seq::<u8>::empty(),
            b.beacon_interval == 0,
            b.timestamp == 0,
            b.uptime_ms is None,
            !b.connected,
            b.link_rates is None,
            b.local_adapter is None,
            !b.has_ht && !b.has_vht && !b.has_he && !b.has_eht,
            b.spatial_streams is None,
    {
        let b = RawBeacon {
            ssid: None,
            bssid: [0u8; 6],
            channel: 0,
            band: Band::Ghz2_4,
            signal_dbm: 0,
            noise_dbm: 0,
            ie_data: Vec::new(),
            beacon_interval: 0,
            timestamp: 0,
            uptime_ms: None,
            connected: false,
            link_rates: None,
            local_adapter: None,
            has_ht: false,
            has_vht: false,
            has_he: false,
            has_eht: false,
            spatial_streams: None,
        };
        assert(b.bssid@ =~= seq![0u8, 0, 0, 0, 0, 0]);
        b
    }
}

// ============================================================================
// Network
// ============================================================================

/// Strings by their characters.
pub open spec fn texts(s: Seq<String>) -> Seq<Seq<char>> {
    s.map_values(|x: String| x@)
}

/// A vector of strings by their characters is its deep view.
pub proof fn lemma_texts_deep_view(v: Vec<String>)
    ensures
        v.deep_view() == texts(v@),
{
    assert(v.deep_view() =~= texts(v@));
}

/// A fully described network.  Data rates are in tenths of a megabit per
/// second.
#[derive(Clone, Debug)]
pub struct Network {
    pub ssid: Option<String>,
    pub bssid: String,
    pub signal: i16,
    pub noise: i16,
    pub snr: u16,
    pub channel: u16,
    pub frequency: u32,
    pub band: String,
    pub connected: bool,
    pub standards: Vec<String>,
    pub wifi_generation: u8,
    pub channel_width: u16,
    pub center_channel: Option<u16>,
    pub secondary_channel: Option<u16>,
    pub features: PerformanceFeatures,
    pub min_rate_tenths: u64,
    pub max_rate_tenths: u64,
    pub ap_peak_rate_tenths: u64,
    pub security: String,
    pub security_details: SecurityDetails,
    pub protocols: ProtocolExtensions,
    pub bss_load: Option<BssLoad>,
    pub is_hidden: bool,
    pub network_group_id: Option<String>,
    pub vendor: String,
    pub country_code: Option<String>,
    pub supported_rates: Vec<u32>,
    pub wps_enabled: bool,
    pub ap_mode: u16,
    pub capabilities: u16,
    pub beacon_interval: u16,
    pub first_seen: u64,
    pub last_seen: u64,
    pub seen_age_secs: u64,
    pub ap_uptime_secs: Option<u64>,
    pub link_rates: Option<LinkRates>,
    pub local_adapter: Option<LocalAdapterCapabilities>,
    pub client_peak_rate_tenths: Option<u64>,
    pub client_spatial_streams: Option<u8>,
}

impl Default for Network {
    fn default() -> (n: Network)
        ensures
            n.ssid is None,
            n.bssid@ == Seq::<char>::empty(),
            n.signal == 0,
            n.noise == 0,
            n.snr == 0,
            n.channel == 0,
            n.frequency == 0,
            n.band@ == Seq::<char>::empty(),
            !n.connected,
            n.standards@ == Seq::<String>::empty(),
            n.wifi_generation == 0,
            n.channel_width == 0,
            n.features@ == no_features(),
            n.min_rate_tenths == 0,
            n.max_rate_tenths == 0,
            n.ap_peak_rate_tenths == 0,
            n.security@ == Seq::<char>::empty(),
            n.security_details@ == open_security(),
            n.protocols == no_roaming(),
            n.bss_load is None,
            !n.is_hidden,
            n.vendor@ == Seq::<char>::empty(),
            n.country_code is None,
            n.supported_rates@ == Seq::<u32>::empty(),
            !n.wps_enabled,
            n.link_rates is None,
            n.local_adapter is None,
            n.client_peak_rate_tenths is None,
            n.client_spatial_streams is None,
    {
        Network {
            ssid: None,
            bssid: String::new(),
            signal: 0,
            noise: 0,
            snr: 0,
            channel: 0,
            frequency: 0,
            band: String::new(),
            connected: false,
            standards: Vec::new(),
            wifi_generation: 0,
            channel_width: 0,
            center_channel: None,
            secondary_channel: None,
            features: PerformanceFeatures::default(),
            min_rate_tenths: 0,
            max_rate_tenths: 0,
            ap_peak_rate_tenths: 0,
            security: String::new(),
            security_details: SecurityDetails::default(),
            protocols: RoamingInfo::default(),
            bss_load: None,
            is_hidden: false,
            network_group_id: None,
            vendor: String::new(),
            country_code: None,
            supported_rates: Vec::new(),
            wps_enabled: false,
            ap_mode: 0,
            capabilities: 0,
            beacon_interval: 0,
            first_seen: 0,
            last_seen: 0,
            seen_age_secs: 0,
            ap_uptime_secs: None,
            link_rates: None,
            local_adapter: None,
            client_peak_rate_tenths: None,
            client_spatial_streams: None,
        }
    }
}

// ============================================================================
// Errors
// ============================================================================

/// Why a scan failed.
#[derive(Clone, Debug, PartialEq, Eq)]
pub enum ScanError {
    CommandFailed(String),
    ParseError(String),
    PermissionDenied,
    NotSupported,
    NoInterface,
}

/// The message an error displays.
pub open spec fn spec_scan_error_message(e: ScanError) -> Seq<char> {
    match e {
        ScanError::CommandFailed(s) => "Command failed: "@ + s@,
        ScanError::ParseError(s) => "Parse error: "@ + s@,
        ScanError::PermissionDenied => "Permission denied (try with sudo/admin)"@,
        ScanError::NotSupported => "Not supported on this platform"@,
        ScanError::NoInterface => "No WiFi interface found"@,
    }
}

impl ScanError {
    /// The message the error displays.
    pub fn message(&self) -> (m: String)
        ensures
            m@ == spec_scan_error_message(*self),
    {
        let mut v: Vec<char> = Vec::new();
        match self {
            ScanError::CommandFailed(s) => {
                push_str(&mut v, "Command failed: ");
                push_str(&mut v, s.as_str());
            },
            ScanError::ParseError(s) => {
                push_str(&mut v, "Parse error: ");
                push_str(&mut v, s.as_str());
            },
            ScanError::PermissionDenied => {
                push_str(&mut v, "Permission denied (try with sudo/admin)");
            },
            ScanError::NotSupported => {
                push_str(&mut v, "Not supported on this platform");
            },
            ScanError::NoInterface => {
                push_str(&mut v, "No WiFi interface found");
            },
        }
        assert(v@ =~= spec_scan_error_message(*self));
        string_of_chars(v.as_slice())
    }
}

// ============================================================================
// Values of a raw beacon
// ============================================================================

/// An adapter's capabilities by their values.
pub struct AdapterModel {
    pub driver_name: Seq<char>,
    pub supported_standards: Seq<Seq<char>>,
    pub tx_spatial_streams: u8,
    pub rx_spatial_streams: u8,
    pub max_supported_width: u16,
}

impl View for LocalAdapterCapabilities {
    type V = AdapterModel;

    open spec fn view(&self) -> AdapterModel {
        AdapterModel {
            driver_name: self.driver_name@,
            supported_standards: texts(self.supported_standards@),
            tx_spatial_streams: self.tx_spatial_streams,
            rx_spatial_streams: self.rx_spatial_streams,
            max_supported_width: self.max_supported_width,
        }
    }
}

/// An optional adapter by its values.
pub open spec fn adapter_of(o: Option<LocalAdapterCapabilities>) -> Option<AdapterModel> {
    match o {
        Some(a) => Some(a@),
        None => None,
    }
}

impl LocalAdapterCapabilities {
    /// A copy with the same values.
    pub fn copy(&self) -> (r: LocalAdapterCapabilities)
        ensures
            r@ == self@,
    {
        let mut standards: Vec<String> = Vec::new();
        let mut i: usize = 0;
        while i < self.supported_standards.len()
            invariant
                i <= self.supported_standards.len(),
                standards.len() == i,
                texts(standards@) == texts(self.supported_standards@.take(i as int)),
            decreases self.supported_standards.len() - i,
        {
            let t = self.supported_standards[i].clone();
            assert(t@ == self.supported_standards@[i as int]@);
            let ghost before = standards@;
            standards.push(t);
            assert(texts(standards@) =~= texts(before).push(t@));
            assert(self.supported_standards@.take(i + 1) =~= self.supported_standards@.take(
                i as int,
            ).push(self.supported_standards@[i as int]));
            assert(texts(standards@) =~= texts(self.supported_standards@.take(i + 1)));
            i += 1;
        }
        assert(self.supported_standards@.take(self.supported_standards.len() as int)
            =~= self.supported_standards@);
        LocalAdapterCapabilities {
            driver_name: self.driver_name.clone(),
            supported_standards: standards,
            tx_spatial_streams: self.tx_spatial_streams,
            rx_spatial_streams: self.rx_spatial_streams,
            max_supported_width: self.max_supported_width,
        }
    }
}

/// A raw beacon by its values.
pub struct BeaconModel {
    pub ssid: Option<Seq<u8>>,
    pub bssid: Seq<u8>,
    pub channel: u8,
    pub band: Band,
    pub signal_dbm: i16,
    pub noise_dbm: i16,
    pub ie_data: Seq<u8>,
    pub beacon_interval: u16,
    pub timestamp: u64,
    pub uptime_ms: Option<u64>,
    pub connected: bool,
    pub link_rates: Option<LinkRates>,
    pub local_adapter: Option<AdapterModel>,
    pub has_ht: bool,
    pub has_vht: bool,
    pub has_he: bool,
    pub has_eht: bool,
    pub spatial_streams: Option<u8>,
}

impl View for RawBeacon {
    type V = BeaconModel;

    open spec fn view(&self) -> BeaconModel {
        BeaconModel {
            ssid: match self.ssid {
                Some(b) => Some(b@),
                None => None,
            },
            bssid: self.bssid@,
            channel: self.channel,
            band: self.band,
            signal_dbm: self.signal_dbm,
            noise_dbm: self.noise_dbm,
            ie_data: self.ie_data@,
            beacon_interval: self.beacon_interval,
            timestamp: self.timestamp,
            uptime_ms: self.uptime_ms,
            connected: self.connected,
            link_rates: self.link_rates,
            local_adapter: match self.local_adapter {
                Some(a) => Some(a@),
                None => None,
            },
            has_ht: self.has_ht,
            has_vht: self.has_vht,
            has_he: self.has_he,
            has_eht: self.has_eht,
            spatial_streams: self.spatial_streams,
        }
    }
}

/// A beacon with nothing known but its BSSID and timestamp.
pub open spec fn blank_beacon(bssid: Seq<u8>, timestamp: u64) -> BeaconModel {
    BeaconModel {
        ssid: None,
        bssid,
        channel: 0,
        band: Band::Ghz2_4,
        signal_dbm: 0,
        noise_dbm: 0,
        ie_data: seq![],
        beacon_interval: 0,
        timestamp,
        uptime_ms: None,
        connected: false,
        link_rates: None,
        local_adapter: None,
        has_ht: false,
        has_vht: false,
        has_he: false,
        has_eht: false,
        spatial_streams: None,
    }
}

} // verus!
