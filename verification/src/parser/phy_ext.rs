//! Extended elements (element id 255) of the HE (WiFi 6) and EHT (WiFi 7)
//! PHYs.  Each body starts with its extension id byte, so the capability
//! fields start at offset 1.
use vstd::prelude::*;
use crate::types::{
    ChannelBandwidth, ChannelInfo, FeaturesModel, McsInfo, MloInfo, MloModel, Modulation,
    OfdmaInfo, OfdmaModel, PerformanceFeatures, RuSize, SpatialStreamInfo, TwtInfo,
    Wifi7Features, Wifi7Model,
};
use crate::parser::phy::{
    ap_streams, count_supported_streams_from_mcs_map, le16, mcs_map_streams, mcs_summary,
    update_max_supported_width, widen,
};

verus! {

/// The view of an optional OFDMA description.
pub open spec fn ofdma_view(o: Option<OfdmaInfo>) -> Option<OfdmaModel> {
    match o {
        Some(x) => Some(x@),
        None => None,
    }
}

/// The view of an optional WiFi 7 description.
pub open spec fn wifi7_view(w: Option<Wifi7Features>) -> Option<Wifi7Model> {
    match w {
        Some(x) => Some(x@),
        None => None,
    }
}

/// The view of an optional multi-link description.
pub open spec fn mlo_view(m: Option<MloInfo>) -> Option<MloModel> {
    match m {
        Some(x) => Some(x@),
        None => None,
    }
}

/// Resource unit sizes an HE access point with OFDMA supports.
pub open spec fn he_ru_sizes() -> Seq<RuSize> {
    seq![RuSize::R26, RuSize::R52, RuSize::R106, RuSize::R242, RuSize::R484, RuSize::R996]
}

/// HE capability bodies that can be read without leaving the body: the
/// stream maps at bytes 18-21 are read once the body has 21 bytes, so a body
/// of exactly 21 bytes is out of reach.
pub open spec fn he_capabilities_in_range(d: Seq<u8>) -> bool {
    d.len() != 21
}

/// What an HE capabilities body (at least 21 bytes, else nothing) tells.
///
/// MAC capabilities start at byte 2: bit 5 TWT requester, bit 6 TWT
/// responder, bit 8 broadcast TWT (TWT information only when requester or
/// responder).  PHY capabilities start at byte 7: byte 9 bit 7 DL OFDMA,
/// byte 10 bit 0 UL OFDMA (OFDMA information, with the six HE RU sizes,
/// only when either is set).  Streams from the MCS maps at bytes 18-19 (rx)
/// and 20-21 (tx), present when some receive stream is supported; MCS 11
/// and 1024-QAM.
pub open spec fn spec_he_capabilities(d: Seq<u8>) -> (
    Option<SpatialStreamInfo>,
    Option<OfdmaModel>,
    Option<TwtInfo>,
    Option<McsInfo>,
) {
    if d.len() < 21 {
        (None, None, None, None)
    } else {
        let twt_requester = d[2] & 0x20 != 0;
        let twt_responder = d[2] & 0x40 != 0;
        let dl = d[9] & 0x80 != 0;
        let ul = d[10] & 0x01 != 0;
        let rx = mcs_map_streams(le16(d[18], d[19]));
        let tx = mcs_map_streams(le16(d[20], d[21]));
        (
            if rx > 0 {
                Some(ap_streams(tx, rx))
            } else {
                None
            },
            if dl || ul {
                Some(OfdmaModel { dl_ofdma: dl, ul_ofdma: ul, ru_sizes: he_ru_sizes() })
            } else {
                None
            },
            if twt_requester || twt_responder {
                Some(
                    TwtInfo {
                        broadcast_twt: d[3] & 0x01 != 0,
                        individual_twt: true,
                        twt_requester,
                        twt_responder,
                    },
                )
            } else {
                None
            },
            Some(mcs_summary(Some(11), Modulation::QAM1024)),
        )
    }
}

fn he_ru_size_list() -> (v: Vec<RuSize>)
    ensures
        v@ == he_ru_sizes(),
{
    let v = vec![RuSize::R26, RuSize::R52, RuSize::R106, RuSize::R242, RuSize::R484, RuSize::R996];
    assert(v@ =~= he_ru_sizes());
    v
}

/// Parse HE capabilities into stream, OFDMA, TWT and MCS information.
pub fn parse_he_capabilities_detailed(data: &[u8]) -> (r: (
    Option<SpatialStreamInfo>,
    Option<OfdmaInfo>,
    Option<TwtInfo>,
    Option<McsInfo>,
))
    requires
        he_capabilities_in_range(data@),
    ensures
        r.0 == spec_he_capabilities(data@).0,
        ofdma_view(r.1) == spec_he_capabilities(data@).1,
        r.2 == spec_he_capabilities(data@).2,
        r.3 == spec_he_capabilities(data@).3,
{
    if data.len() < 21 {
        return (None, None, None, None);
    }
    let twt_requester = (data[2] & 0x20) != 0;
    let twt_responder = (data[2] & 0x40) != 0;
    let twt_info = if twt_requester || twt_responder {
        Some(
            TwtInfo {
                broadcast_twt: (data[3] & 0x01) != 0,
                individual_twt: true,
                twt_requester,
                twt_responder,
            },
        )
    } else {
        None
    };
    let dl_ofdma = (data[9] & 0x80) != 0;
    let ul_ofdma = (data[10] & 0x01) != 0;
    let ofdma_info = if dl_ofdma || ul_ofdma {
        Some(OfdmaInfo { dl_ofdma, ul_ofdma, ru_sizes: he_ru_size_list() })
    } else {
        None
    };
    let rx_mcs = (data[18] as u16) | ((data[19] as u16) << 8u16);
    let tx_mcs = (data[20] as u16) | ((data[21] as u16) << 8u16);
    let rx_nss = count_supported_streams_from_mcs_map(rx_mcs);
    let tx_nss = count_supported_streams_from_mcs_map(tx_mcs);
    let ss_info = if rx_nss > 0 {
        Some(
            SpatialStreamInfo {
                tx_streams: Some(tx_nss),
                rx_streams: Some(rx_nss),
                client_tx: None,
                client_rx: None,
                effective_streams: None,
            },
        )
    } else {
        None
    };
    let mcs_info = McsInfo {
        max_mcs: Some(11),
        current_mcs: None,
        max_modulation: Some(Modulation::QAM1024),
    };
    (ss_info, ofdma_info, twt_info, Some(mcs_info))
}

/// Effect of an HE capabilities body (at least 19 bytes, else nothing) on
/// the feature summary: OFDMA, BSS coloring, MU-MIMO, 1024-QAM and the long
/// guard interval; PHY byte 3 (body byte 10) bit 7 SU beamformer, bit 0 SU
/// beamformee, bit 1 MU beamformer, bit 5 UL MU-MIMO; PHY bit 3 (160 MHz)
/// widens the maximum width to 160, else to 80; with 21 or more bytes the
/// receive MCS map at bytes 18-19 gives the stream count when it names any
/// stream; a count still at zero becomes 2.
pub open spec fn spec_apply_he(f: FeaturesModel, d: Seq<u8>) -> FeaturesModel {
    if d.len() < 19 {
        f
    } else {
        let nss = if d.len() >= 21 {
            mcs_map_streams(le16(d[18], d[19]))
        } else {
            0
        };
        let ss = if nss > 0 {
            nss
        } else {
            f.spatial_streams
        };
        FeaturesModel {
            ofdma: true,
            bss_coloring: true,
            max_qam: 1024,
            su_mimo: ss > 1,
            mu_mimo: true,
            guard_interval: 800,
            su_beamformer: d[10] & 0x80 != 0,
            su_beamformee: d[10] & 0x01 != 0,
            mu_beamformer: d[10] & 0x02 != 0,
            ul_mu_mimo: d[10] & 0x20 != 0,
            max_supported_width: widen(
                f.max_supported_width,
                if d[7] & 0x08 != 0 {
                    160
                } else {
                    80
                },
            ),
            spatial_streams: if ss == 0 {
                2
            } else {
                ss
            },
            ..f
        }
    }
}

/// Apply HE capabilities to the feature summary.
pub fn apply_he_capabilities(data: &[u8], features: &mut PerformanceFeatures)
    ensures
        final(features)@ == spec_apply_he(old(features)@, data@),
{
    if data.len() < 19 {
        return;
    }
    let mut max_width: u16 = 80;
    features.ofdma = true;
    features.bss_coloring = true;
    features.max_qam = 1024;
    features.su_mimo = features.spatial_streams > 1;
    features.mu_mimo = true;
    features.guard_interval = 800;
    let phy3 = data[10];
    features.su_beamformer = (phy3 & 0x80) != 0;
    features.su_beamformee = (phy3 & 0x01) != 0;
    features.mu_beamformer = (phy3 & 0x02) != 0;
    features.ul_mu_mimo = (phy3 & 0x20) != 0;
    if (data[7] & 0x08) != 0 {
        max_width = 160;
    } else if (data[7] & 0x04) != 0 {
        max_width = 80;
    }
    update_max_supported_width(features, max_width);
    if data.len() >= 21 {
        let rx_mcs = (data[18] as u16) | ((data[19] as u16) << 8u16);
        let nss = count_supported_streams_from_mcs_map(rx_mcs);
        if nss > 0 {
            features.spatial_streams = nss;
            features.su_mimo = nss > 1;
        }
    }
    if features.spatial_streams == 0 {
        features.spatial_streams = 2;
    }
}

/// HE operation carries no channel information this parser reads.
pub fn parse_he_operation(data: &[u8]) -> (r: Option<ChannelInfo>)
    ensures
        r is None,
{
    if data.len() < 8 {
        return None;
    }
    None
}

/// What an EHT capabilities body (at least 9 bytes, else nothing) tells:
/// the PHY capabilities are the 32-bit field at bytes 5-8, with bit 21
/// punctured preamble (byte 7 bit 5), bit 24 multi-RU (byte 8 bit 0) and
/// bits 16-19 4096-QAM (byte 7 low nibble).  Streams are reported as 8 in
/// each direction, the maximum MCS as 15.
pub open spec fn spec_eht_capabilities(d: Seq<u8>) -> (
    Option<SpatialStreamInfo>,
    Option<Wifi7Model>,
    Option<McsInfo>,
) {
    if d.len() < 9 {
        (None, None, None)
    } else {
        (
            Some(ap_streams(8, 8)),
            Some(
                Wifi7Model {
                    mlo: None,
                    punctured_preamble: d[7] & 0x20 != 0,
                    multi_ru: d[8] & 0x01 != 0,
                },
            ),
            Some(
                mcs_summary(
                    Some(15),
                    if d[7] & 0x0F != 0 {
                        Modulation::QAM4096
                    } else {
                        Modulation::QAM1024
                    },
                ),
            ),
        )
    }
}

/// Parse EHT capabilities into stream, WiFi 7 and MCS information.
pub fn parse_eht_capabilities_detailed(data: &[u8]) -> (r: (
    Option<SpatialStreamInfo>,
    Option<Wifi7Features>,
    Option<McsInfo>,
))
    ensures
        r.0 == spec_eht_capabilities(data@).0,
        wifi7_view(r.1) == spec_eht_capabilities(data@).1,
        r.2 == spec_eht_capabilities(data@).2,
{
    if data.len() < 9 {
        return (None, None, None);
    }
    let punctured_preamble = (data[7] & 0x20) != 0;
    let multi_ru = (data[8] & 0x01) != 0;
    let supports_4096qam = (data[7] & 0x0F) != 0;
    let wifi7_features = Some(Wifi7Features { mlo: None, punctured_preamble, multi_ru });
    let ss_info = Some(
        SpatialStreamInfo {
            tx_streams: Some(8),
            rx_streams: Some(8),
            client_tx: None,
            client_rx: None,
            effective_streams: None,
        },
    );
    let mcs_info = McsInfo {
        max_mcs: Some(15),
        current_mcs: None,
        max_modulation: if supports_4096qam {
            Some(Modulation::QAM4096)
        } else {
            Some(Modulation::QAM1024)
        },
    };
    (ss_info, wifi7_features, Some(mcs_info))
}

/// Effect of an EHT capabilities body (at least 9 bytes, else nothing) on
/// the feature summary: OFDMA, BSS coloring, MU-MIMO both ways, 4096-QAM and
/// all beamforming roles; the low two bits of the PHY field (byte 5) widen
/// the maximum width to 320, 160, 80 or 40 (values 3, 2, 1, 0); a stream
/// count still at zero becomes 2.
pub open spec fn spec_apply_eht(f: FeaturesModel, d: Seq<u8>) -> FeaturesModel {
    if d.len() < 9 {
        f
    } else {
        let w: u16 = if d[5] & 0x03 == 3 {
            320
        } else if d[5] & 0x03 == 2 {
            160
        } else if d[5] & 0x03 == 1 {
            80
        } else {
            40
        };
        FeaturesModel {
            ofdma: true,
            bss_coloring: true,
            su_mimo: f.spatial_streams > 1,
            mu_mimo: true,
            ul_mu_mimo: true,
            max_qam: 4096,
            su_beamformer: true,
            su_beamformee: true,
            mu_beamformer: true,
            max_supported_width: widen(f.max_supported_width, w),
            spatial_streams: if f.spatial_streams == 0 {
                2
            } else {
                f.spatial_streams
            },
            ..f
        }
    }
}

/// Apply EHT capabilities to the feature summary.
pub fn apply_eht_capabilities(data: &[u8], features: &mut PerformanceFeatures)
    ensures
        final(features)@ == spec_apply_eht(old(features)@, data@),
{
    if data.len() < 9 {
        return;
    }
    features.ofdma = true;
    features.bss_coloring = true;
    features.su_mimo = features.spatial_streams > 1;
    features.mu_mimo = true;
    features.ul_mu_mimo = true;
    features.max_qam = 4096;
    features.su_beamformer = true;
    features.su_beamformee = true;
    features.mu_beamformer = true;
    let max_width: u16 = match data[5] & 0x03 {
        0x03 => 320,
        0x02 => 160,
        0x01 => 80,
        _ => 40,
    };
    update_max_supported_width(features, max_width);
    if features.spatial_streams == 0 {
        features.spatial_streams = 2;
    }
}

/// Channel information of an EHT operation body (at least 4 bytes, else
/// none): width from bits 2-4 of byte 1 (4 = 320, 3 = 160, 2 = 80, 1 = 40,
/// otherwise 20), center segments from bytes 2 and 3 when non-zero.
pub open spec fn spec_eht_operation(d: Seq<u8>) -> Option<ChannelInfo> {
    if d.len() < 4 {
        None
    } else {
        let w = (d[1] >> 2u8) & 0x07;
        Some(
            ChannelInfo {
                primary: 0,
                bandwidth: if w == 4 {
                    ChannelBandwidth::MHz320
                } else if w == 3 {
                    ChannelBandwidth::MHz160
                } else if w == 2 {
                    ChannelBandwidth::MHz80
                } else if w == 1 {
                    ChannelBandwidth::MHz40
                } else {
                    ChannelBandwidth::MHz20
                },
                secondary: None,
                secondary_offset: None,
                center_freq_0: if d[2] > 0 {
                    Some(d[2] as u16)
                } else {
                    None
                },
                center_freq_1: if d[3] > 0 {
                    Some(d[3] as u16)
                } else {
                    None
                },
                frequency: None,
            },
        )
    }
}

/// Parse an EHT operation element for channel information.
pub fn parse_eht_operation(data: &[u8]) -> (r: Option<ChannelInfo>)
    ensures
        r == spec_eht_operation(data@),
{
    if data.len() < 4 {
        return None;
    }
    let width_bits = (data[1] >> 2u8) & 0x07;
    let bandwidth = match width_bits {
        4 => ChannelBandwidth::MHz320,
        3 => ChannelBandwidth::MHz160,
        2 => ChannelBandwidth::MHz80,
        1 => ChannelBandwidth::MHz40,
        _ => ChannelBandwidth::MHz20,
    };
    let center_freq_0 = if data[2] > 0 {
        Some(data[2] as u16)
    } else {
        None
    };
    let center_freq_1 = if data[3] > 0 {
        Some(data[3] as u16)
    } else {
        None
    };
    Some(
        ChannelInfo {
            primary: 0,
            bandwidth,
            secondary: None,
            secondary_offset: None,
            center_freq_0,
            center_freq_1,
            frequency: None,
        },
    )
}

/// A multi-link element of at least 5 bytes reports MLO enabled with two
/// links (individual links are not listed); shorter ones report nothing.
pub open spec fn spec_mlo_element(d: Seq<u8>) -> Option<MloModel> {
    if d.len() < 5 {
        None
    } else {
        Some(MloModel { enabled: true, num_links: 2, link_count: 0 })
    }
}

/// Parse a multi-link element.
pub fn parse_mlo_element(data: &[u8]) -> (r: Option<MloInfo>)
    ensures
        mlo_view(r) == spec_mlo_element(data@),
{
    if data.len() < 5 {
        return None;
    }
    let links: Vec<crate::types::MloLink> = Vec::new();
    Some(MloInfo { enabled: true, num_links: 2, links })
}

} // verus!
