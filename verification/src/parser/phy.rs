//! Capability and operation elements of the HT (WiFi 4), VHT (WiFi 5),
//! HE (WiFi 6) and EHT (WiFi 7) PHYs, and the extended capabilities element.
//!
//! Every function here takes the body of one element (for extended elements
//! the body starts with the extension id byte).  Bit positions in the doc
//! comments count from bit 0 of the little-endian capability field.
use vstd::prelude::*;
use crate::types::{
    ChannelBandwidth, ChannelInfo, FeaturesModel, McsInfo, Modulation, PerformanceFeatures,
    ProtocolExtensions, RoamingInfo, SecondaryChannelOffset, SpatialStreamInfo,
};

verus! {

/// A little-endian 16-bit field.
pub open spec fn le16(lo: u8, hi: u8) -> u16 {
    (lo as u16) | ((hi as u16) << 8u16)
}

/// Number of spatial streams that an MCS map among its first `k` two-bit
/// entries marks as supported (entry value 3 means "not supported").
pub open spec fn mcs_map_streams_upto(mcs_map: u16, k: nat) -> nat
    decreases k,
{
    if k == 0 {
        0
    } else {
        mcs_map_streams_upto(mcs_map, (k - 1) as nat) + if ((mcs_map >> (((k - 1) * 2) as u16))
            & 0x03u16) as u8 != 0x03 {
            1nat
        } else {
            0nat
        }
    }
}

/// Number of spatial streams an MCS map supports (eight two-bit entries).
pub open spec fn mcs_map_streams(mcs_map: u16) -> u8 {
    mcs_map_streams_upto(mcs_map, 8) as u8
}

proof fn lemma_mcs_map_streams_bound(mcs_map: u16, k: nat)
    ensures
        mcs_map_streams_upto(mcs_map, k) <= k,
    decreases k,
{
    if k > 0 {
        lemma_mcs_map_streams_bound(mcs_map, (k - 1) as nat);
    }
}

/// Count the spatial streams an MCS map marks as supported.
pub fn count_supported_streams_from_mcs_map(mcs_map: u16) -> (count: u8)
    ensures
        count == mcs_map_streams(mcs_map),
        count <= 8,
{
    let mut count: u8 = 0;
    let mut index: u16 = 0;
    while index < 8
        invariant
            index <= 8,
            count == mcs_map_streams_upto(mcs_map, index as nat),
        decreases 8 - index,
    {
        proof {
            lemma_mcs_map_streams_bound(mcs_map, index as nat);
        }
        let bits = ((mcs_map >> (index * 2)) & 0x03) as u8;
        if bits != 0x03 {
            count += 1;
        }
        index += 1;
    }
    proof {
        lemma_mcs_map_streams_bound(mcs_map, 8);
    }
    count
}

/// The larger of the width already recorded and a newly advertised one.
pub open spec fn widen(current: u16, width: u16) -> u16 {
    if width > current {
        width
    } else {
        current
    }
}

/// Raise the recorded maximum supported width to `width` if it is larger.
pub fn update_max_supported_width(features: &mut PerformanceFeatures, width: u16)
    ensures
        final(features)@ == (FeaturesModel {
            max_supported_width: widen(old(features).max_supported_width, width),
            ..old(features)@
        }),
{
    if width > features.max_supported_width {
        features.max_supported_width = width;
    }
}

/// Stream information that names only the AP's transmit and receive streams.
pub open spec fn ap_streams(tx: u8, rx: u8) -> SpatialStreamInfo {
    SpatialStreamInfo {
        tx_streams: Some(tx),
        rx_streams: Some(rx),
        client_tx: None,
        client_rx: None,
        effective_streams: None,
    }
}

fn new_ap_streams(tx: u8, rx: u8) -> (s: SpatialStreamInfo)
    ensures
        s == ap_streams(tx, rx),
{
    SpatialStreamInfo {
        tx_streams: Some(tx),
        rx_streams: Some(rx),
        client_tx: None,
        client_rx: None,
        effective_streams: None,
    }
}

/// MCS information with a maximum MCS index and modulation only.
pub open spec fn mcs_summary(max_mcs: Option<u8>, modulation: Modulation) -> McsInfo {
    McsInfo { max_mcs, current_mcs: None, max_modulation: Some(modulation) }
}

// ============================================================================
// HT (element 45, 61)
// ============================================================================

/// Streams of an HT capability body: one more than the index of the last
/// non-zero byte among the first four bytes of the supported MCS set (bytes
/// 3..7 of the body), zero when all four are zero.
pub open spec fn ht_stream_count(d: Seq<u8>) -> u8
    recommends
        d.len() >= 7,
{
    if d[6] != 0 {
        4
    } else if d[5] != 0 {
        3
    } else if d[4] != 0 {
        2
    } else if d[3] != 0 {
        1
    } else {
        0
    }
}

/// Index of the highest set bit of a non-zero byte.
pub open spec fn highest_set_bit(b: u8) -> u8 {
    if b >= 128 {
        7
    } else if b >= 64 {
        6
    } else if b >= 32 {
        5
    } else if b >= 16 {
        4
    } else if b >= 8 {
        3
    } else if b >= 4 {
        2
    } else if b >= 2 {
        1
    } else {
        0
    }
}

/// Stream and MCS information of an HT capabilities body (at least 26 bytes,
/// else nothing): the streams of [`ht_stream_count`], the highest MCS index
/// among MCS 0-7, and 64-QAM.
pub open spec fn spec_ht_capabilities(d: Seq<u8>) -> (Option<SpatialStreamInfo>, Option<McsInfo>) {
    if d.len() < 26 {
        (None, None)
    } else {
        let n = ht_stream_count(d);
        (
            if n > 0 {
                Some(ap_streams(n, n))
            } else {
                None
            },
            Some(
                mcs_summary(
                    if d[3] != 0 {
                        Some(highest_set_bit(d[3]))
                    } else {
                        None
                    },
                    Modulation::QAM64,
                ),
            ),
        )
    }
}

fn stream_count_ht(data: &[u8]) -> (n: u8)
    requires
        data@.len() >= 7,
    ensures
        n == ht_stream_count(data@),
{
    if data[6] != 0 {
        4
    } else if data[5] != 0 {
        3
    } else if data[4] != 0 {
        2
    } else if data[3] != 0 {
        1
    } else {
        0
    }
}

fn highest_bit(b: u8) -> (r: u8)
    ensures
        r == highest_set_bit(b),
{
    if b >= 128 {
        7
    } else if b >= 64 {
        6
    } else if b >= 32 {
        5
    } else if b >= 16 {
        4
    } else if b >= 8 {
        3
    } else if b >= 4 {
        2
    } else if b >= 2 {
        1
    } else {
        0
    }
}

/// Parse HT capabilities into stream and MCS information.
pub fn parse_ht_capabilities_detailed(data: &[u8]) -> (r: (Option<SpatialStreamInfo>, Option<McsInfo>))
    ensures
        r == spec_ht_capabilities(data@),
{
    if data.len() < 26 {
        return (None, None);
    }
    let streams = stream_count_ht(data);
    let max_mcs = if data[3] != 0 {
        Some(highest_bit(data[3]))
    } else {
        None
    };
    let ss_info = if streams > 0 {
        Some(new_ap_streams(streams, streams))
    } else {
        None
    };
    let mcs_info = McsInfo { max_mcs, current_mcs: None, max_modulation: Some(Modulation::QAM64) };
    (ss_info, Some(mcs_info))
}

/// Effect of an HT capabilities body on the feature summary.
///
/// Bit 1 of the capability info (40 MHz) widens the maximum width to 40, else
/// 20; the stream count is taken from the MCS set when it names any stream;
/// bit 12 is transmit beamforming; bits 6 and 7 are the short guard
/// intervals; the low two bits of the A-MPDU parameters give the A-MPDU
/// length exponent plus one.  Bodies under 26 bytes change nothing.
pub open spec fn spec_apply_ht(f: FeaturesModel, d: Seq<u8>) -> FeaturesModel {
    if d.len() < 26 {
        f
    } else {
        let n = ht_stream_count(d);
        let ss = if n > 0 {
            n
        } else {
            f.spatial_streams
        };
        FeaturesModel {
            max_supported_width: widen(
                f.max_supported_width,
                if d[0] & 0x02 != 0 {
                    40
                } else {
                    20
                },
            ),
            spatial_streams: ss,
            su_mimo: ss > 1,
            su_beamformer: d[1] & 0x10 != 0,
            guard_interval: if d[0] & 0x40 != 0 || d[0] & 0x80 != 0 {
                400
            } else {
                800
            },
            ampdu_length: ((d[2] & 0x03) + 1) as u8,
            ..f
        }
    }
}

/// Apply HT capabilities to the feature summary.
pub fn apply_ht_capabilities(data: &[u8], features: &mut PerformanceFeatures)
    ensures
        final(features)@ == spec_apply_ht(old(features)@, data@),
{
    if data.len() < 26 {
        return;
    }
    let width: u16 = if (data[0] & 0x02) != 0 {
        40
    } else {
        20
    };
    update_max_supported_width(features, width);
    let streams = stream_count_ht(data);
    if streams > 0 {
        features.spatial_streams = streams;
    }
    features.su_mimo = features.spatial_streams > 1;
    features.su_beamformer = (data[1] & 0x10) != 0;
    let short_gi_20 = (data[0] & 0x40) != 0;
    let short_gi_40 = (data[0] & 0x80) != 0;
    features.guard_interval = if short_gi_20 || short_gi_40 {
        400
    } else {
        800
    };
    let ampdu = data[2];
    assert(ampdu & 0x03 <= 3) by (bit_vector);
    features.ampdu_length = (ampdu & 0x03) + 1;
}

/// An HT operation body that can be parsed without leaving the range of
/// channel numbers: a secondary channel above needs a primary of at most
/// 251, one below a primary of at least 4.
pub open spec fn ht_operation_in_range(d: Seq<u8>) -> bool {
    d.len() >= 3 ==> {
        &&& (d[1] & 0x03 == 1 ==> d[0] <= 251)
        &&& (d[1] & 0x03 == 3 ==> d[0] >= 4)
    }
}

/// Channel information of an HT operation body (at least 3 bytes, else
/// none): the primary channel, the secondary channel offset from the low two
/// bits of byte 1 (1 above, 3 below), 40 MHz when a secondary channel exists.
pub open spec fn spec_ht_operation(d: Seq<u8>) -> Option<ChannelInfo> {
    if d.len() < 3 {
        None
    } else {
        let offset = if d[1] & 0x03 == 1 {
            Some(SecondaryChannelOffset::Above)
        } else if d[1] & 0x03 == 3 {
            Some(SecondaryChannelOffset::Below)
        } else {
            None
        };
        Some(
            ChannelInfo {
                primary: d[0],
                bandwidth: if offset is Some {
                    ChannelBandwidth::MHz40
                } else {
                    ChannelBandwidth::MHz20
                },
                secondary: match offset {
                    Some(SecondaryChannelOffset::Above) => Some((d[0] + 4) as u8),
                    Some(SecondaryChannelOffset::Below) => Some((d[0] - 4) as u8),
                    None => None,
                },
                secondary_offset: offset,
                center_freq_0: None,
                center_freq_1: None,
                frequency: None,
            },
        )
    }
}

/// Parse an HT operation element for channel information.
pub fn parse_ht_operation(data: &[u8]) -> (r: Option<ChannelInfo>)
    requires
        ht_operation_in_range(data@),
    ensures
        r == spec_ht_operation(data@),
{
    if data.len() < 3 {
        return None;
    }
    let primary_channel = data[0];
    let secondary_offset = match data[1] & 0x03 {
        1 => Some(SecondaryChannelOffset::Above),
        3 => Some(SecondaryChannelOffset::Below),
        _ => None,
    };
    let bandwidth = if secondary_offset.is_some() {
        ChannelBandwidth::MHz40
    } else {
        ChannelBandwidth::MHz20
    };
    let secondary = match secondary_offset {
        Some(SecondaryChannelOffset::Above) => Some(primary_channel + 4),
        Some(SecondaryChannelOffset::Below) => Some(primary_channel - 4),
        None => None,
    };
    Some(
        ChannelInfo {
            primary: primary_channel,
            bandwidth,
            secondary,
            secondary_offset,
            center_freq_0: None,
            center_freq_1: None,
            frequency: None,
        },
    )
}

// ============================================================================
// VHT (element 191, 192)
// ============================================================================

/// Stream and MCS information of a VHT capabilities body (at least 12 bytes,
/// else nothing): receive and transmit streams from the MCS maps at bytes
/// 4-5 and 6-7 (present only when some receive stream is supported), MCS 9
/// and 256-QAM.
pub open spec fn spec_vht_capabilities(d: Seq<u8>) -> (Option<SpatialStreamInfo>, Option<McsInfo>) {
    if d.len() < 12 {
        (None, None)
    } else {
        let rx = mcs_map_streams(le16(d[4], d[5]));
        let tx = mcs_map_streams(le16(d[6], d[7]));
        (
            if rx > 0 {
                Some(ap_streams(tx, rx))
            } else {
                None
            },
            Some(mcs_summary(Some(9), Modulation::QAM256)),
        )
    }
}

/// Parse VHT capabilities into stream and MCS information.
pub fn parse_vht_capabilities_detailed(data: &[u8]) -> (r: (Option<SpatialStreamInfo>, Option<McsInfo>))
    ensures
        r == spec_vht_capabilities(data@),
{
    if data.len() < 12 {
        return (None, None);
    }
    let rx_mcs = (data[4] as u16) | ((data[5] as u16) << 8u16);
    let tx_mcs = (data[6] as u16) | ((data[7] as u16) << 8u16);
    let rx_nss = count_supported_streams_from_mcs_map(rx_mcs);
    let tx_nss = count_supported_streams_from_mcs_map(tx_mcs);
    let ss_info = if rx_nss > 0 {
        Some(new_ap_streams(tx_nss, rx_nss))
    } else {
        None
    };
    let mcs_info = McsInfo { max_mcs: Some(9), current_mcs: None, max_modulation: Some(Modulation::QAM256) };
    (ss_info, Some(mcs_info))
}

/// Effect of a VHT capabilities body on the feature summary.
///
/// Bits 2 and 3 of the capability info (160 MHz widths) widen the maximum
/// width to 160, else to 80; bit 19 is SU beamformer (and, as the summary
/// reads it, MU-MIMO), bit 20 SU beamformee, bit 21 MU beamformer; bits 2-4
/// non-zero select the short guard interval; 256-QAM; the stream count
/// comes from the receive MCS map when it names any stream.  Bodies under
/// 12 bytes change nothing.
pub open spec fn spec_apply_vht(f: FeaturesModel, d: Seq<u8>) -> FeaturesModel {
    if d.len() < 12 {
        f
    } else {
        let nss = mcs_map_streams(le16(d[4], d[5]));
        let ss = if nss > 0 {
            nss
        } else {
            f.spatial_streams
        };
        FeaturesModel {
            max_supported_width: widen(
                f.max_supported_width,
                if d[0] & 0x04 != 0 || d[0] & 0x08 != 0 {
                    160
                } else {
                    80
                },
            ),
            spatial_streams: ss,
            su_mimo: ss > 1,
            mu_mimo: d[2] & 0x08 != 0,
            ul_mu_mimo: false,
            su_beamformer: d[2] & 0x08 != 0,
            su_beamformee: d[2] & 0x10 != 0,
            mu_beamformer: d[2] & 0x20 != 0,
            max_qam: 256,
            guard_interval: if (d[0] >> 2u8) & 0x07 > 0 {
                400
            } else {
                800
            },
            ..f
        }
    }
}

/// Apply VHT capabilities to the feature summary.
pub fn apply_vht_capabilities(data: &[u8], features: &mut PerformanceFeatures)
    ensures
        final(features)@ == spec_apply_vht(old(features)@, data@),
{
    if data.len() < 12 {
        return;
    }
    let supports_160 = (data[0] & 0x04) != 0 || (data[0] & 0x08) != 0;
    let width: u16 = if supports_160 {
        160
    } else {
        80
    };
    update_max_supported_width(features, width);
    features.su_mimo = features.spatial_streams > 1;
    features.mu_mimo = (data[2] & 0x08) != 0;
    features.ul_mu_mimo = false;
    features.su_beamformer = (data[2] & 0x08) != 0;
    features.su_beamformee = (data[2] & 0x10) != 0;
    features.mu_beamformer = (data[2] & 0x20) != 0;
    features.max_qam = 256;
    let gi_bits = (data[0] >> 2u8) & 0x07;
    features.guard_interval = if gi_bits > 0 {
        400
    } else {
        800
    };
    let rx_mcs = (data[4] as u16) | ((data[5] as u16) << 8u16);
    let nss = count_supported_streams_from_mcs_map(rx_mcs);
    if nss > 0 {
        features.spatial_streams = nss;
        features.su_mimo = nss > 1;
    }
}

/// Channel information of a VHT operation body (at least 3 bytes, else
/// none): width from byte 0 (1 = 80, 2 = 160, 3 = 80+80, otherwise 20/40
/// reported as 20), center segments from bytes 1 and 2 when non-zero.  The
/// primary channel is left at 0 for the caller to fill in.
pub open spec fn spec_vht_operation(d: Seq<u8>) -> Option<ChannelInfo> {
    if d.len() < 3 {
        None
    } else {
        Some(
            ChannelInfo {
                primary: 0,
                bandwidth: if d[0] == 1 {
                    ChannelBandwidth::MHz80
                } else if d[0] == 2 {
                    ChannelBandwidth::MHz160
                } else if d[0] == 3 {
                    ChannelBandwidth::MHz80Plus80
                } else {
                    ChannelBandwidth::MHz20
                },
                secondary: None,
                secondary_offset: None,
                center_freq_0: if d[1] > 0 {
                    Some(d[1] as u16)
                } else {
                    None
                },
                center_freq_1: if d[2] > 0 {
                    Some(d[2] as u16)
                } else {
                    None
                },
                frequency: None,
            },
        )
    }
}

/// Parse a VHT operation element for channel information.
pub fn parse_vht_operation(data: &[u8]) -> (r: Option<ChannelInfo>)
    ensures
        r == spec_vht_operation(data@),
{
    if data.len() < 3 {
        return None;
    }
    let bandwidth = match data[0] {
        0 => ChannelBandwidth::MHz20,
        1 => ChannelBandwidth::MHz80,
        2 => ChannelBandwidth::MHz160,
        3 => ChannelBandwidth::MHz80Plus80,
        _ => ChannelBandwidth::MHz20,
    };
    let center_freq_0 = if data[1] > 0 {
        Some(data[1] as u16)
    } else {
        None
    };
    let center_freq_1 = if data[2] > 0 {
        Some(data[2] as u16)
    } else {
        None
    };
    Some(
        ChannelInfo {
            primary: 0,
            bandwidth,
            secondary: None,
            secondary_offset: None,
            center_freq_0,
            center_freq_1,
            frequency: None,
        },
    )
}

// ============================================================================
// Extended capabilities (element 127)
// ============================================================================

/// Effect of an extended capabilities body on the roaming summary.
///
/// Byte 1: bit 4 RRM, bit 5 neighbor report, bit 7 beacon report (all false
/// when the body is shorter than 2 bytes); byte 2: bit 3 BSS transition,
/// bit 6 WNM sleep; byte 3: bit 4 FT over DS, bit 5 FT resource request;
/// byte 4: bit 6 PMF.  Fields of bytes the body does not reach keep their
/// value; FT is either FT flag.  An empty body changes nothing.
pub open spec fn spec_extended_capabilities(p: RoamingInfo, d: Seq<u8>) -> RoamingInfo {
    if d.len() == 0 {
        p
    } else {
        let ft_over_ds = if d.len() > 3 {
            d[3] & 0x10 != 0
        } else {
            p.ft_over_ds
        };
        let ft_resource_request = if d.len() > 3 {
            d[3] & 0x20 != 0
        } else {
            p.ft_resource_request
        };
        RoamingInfo {
            rrm: d.len() > 1 && d[1] & 0x10 != 0,
            neighbor_report: d.len() > 1 && d[1] & 0x20 != 0,
            beacon_report: d.len() > 1 && d[1] & 0x80 != 0,
            bss_transition: if d.len() > 2 {
                d[2] & 0x08 != 0
            } else {
                p.bss_transition
            },
            wnm_sleep: if d.len() > 2 {
                d[2] & 0x40 != 0
            } else {
                p.wnm_sleep
            },
            ft_over_ds,
            ft_resource_request,
            ft: ft_over_ds || ft_resource_request,
            pmf: if d.len() > 4 {
                d[4] & 0x40 != 0
            } else {
                p.pmf
            },
            ..p
        }
    }
}

/// Parse extended capabilities into the roaming summary.
pub fn parse_extended_capabilities_detailed(data: &[u8], protocols: &mut ProtocolExtensions)
    ensures
        *final(protocols) == spec_extended_capabilities(*old(protocols), data@),
{
    if data.len() == 0 {
        return;
    }
    protocols.rrm = data.len() > 1 && (data[1] & 0x10) != 0;
    protocols.neighbor_report = data.len() > 1 && (data[1] & 0x20) != 0;
    protocols.beacon_report = data.len() > 1 && (data[1] & 0x80) != 0;
    if data.len() > 2 {
        protocols.bss_transition = (data[2] & 0x08) != 0;
        protocols.wnm_sleep = (data[2] & 0x40) != 0;
    }
    if data.len() > 3 {
        protocols.ft_over_ds = (data[3] & 0x10) != 0;
        protocols.ft_resource_request = (data[3] & 0x20) != 0;
    }
    protocols.ft = protocols.ft_over_ds || protocols.ft_resource_request;
    if data.len() > 4 {
        protocols.pmf = (data[4] & 0x40) != 0;
    }
}

} // verus!
