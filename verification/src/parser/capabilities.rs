//! Everything a beacon's element list says about the access point: the
//! WiFi standards, PHY features, roaming protocols, security, BSS load,
//! country, WPS and the supported rates.
use vstd::prelude::*;
use crate::parser::elements::{
    elements, lemma_elements_start, lemma_elements_step, lemma_elements_stop, Element,
};
use crate::parser::phy::{
    apply_ht_capabilities, apply_vht_capabilities, ht_operation_in_range, le16,
    parse_extended_capabilities_detailed, parse_ht_capabilities_detailed, parse_ht_operation,
    parse_vht_capabilities_detailed, parse_vht_operation, spec_apply_ht, spec_apply_vht,
    spec_extended_capabilities, spec_ht_capabilities, spec_ht_operation, spec_vht_capabilities,
    spec_vht_operation,
};
use crate::parser::phy_ext::{
    apply_eht_capabilities, apply_he_capabilities, he_capabilities_in_range, ofdma_view,
    parse_eht_capabilities_detailed, parse_eht_operation, parse_he_capabilities_detailed,
    parse_he_operation, parse_mlo_element, spec_apply_eht, spec_apply_he, spec_eht_capabilities,
    spec_eht_operation, spec_he_capabilities, spec_mlo_element, wifi7_view,
};
use crate::parser::rsn::{parse_rsn, spec_parse_rsn};
use crate::text::{decode_lossy, spec_trim, trim_str, utf8_lossy};
use crate::types::{
    no_features, no_roaming, open_security, BssLoad, ChannelInfo, FeaturesModel, McsInfo,
    OfdmaInfo, OfdmaModel, PerformanceFeatures, ProtocolExtensions, RoamingInfo, SecurityDetails,
    SecurityModel, SpatialStreamInfo, TwtInfo, Wifi7Features, Wifi7Model,
};

verus! {

// ============================================================================
// The model
// ============================================================================

/// Standards are collected as their WiFi generation: 4 is 802.11n, 5 is
/// 802.11ac, 6 is 802.11ax and 7 is 802.11be.
pub open spec fn standard_name(generation: u8) -> Seq<char> {
    if generation == 4 {
        "n"@
    } else if generation == 5 {
        "ac"@
    } else if generation == 6 {
        "ax"@
    } else {
        "be"@
    }
}

/// A standard is listed once, where it is first seen.
pub open spec fn add_standard(s: Seq<u8>, generation: u8) -> Seq<u8> {
    if s.contains(generation) {
        s
    } else {
        s.push(generation)
    }
}

/// A value found now, or else the one found before.
pub open spec fn or_else<T>(found: Option<T>, before: Option<T>) -> Option<T> {
    match found {
        Some(x) => Some(x),
        None => before,
    }
}

/// Supported rates of a rates element, in whole Mbps (the low seven bits of
/// each byte count half megabits; the half is dropped).
pub open spec fn rates_of(d: Seq<u8>) -> Seq<u32> {
    Seq::new(d.len(), |i: int| ((d[i] & 0x7F) / 2) as u32)
}

/// What the walk over the elements has collected so far.
pub struct CapsModel {
    pub standards: Seq<u8>,
    pub features: FeaturesModel,
    pub protocols: RoamingInfo,
    pub security: Seq<char>,
    pub details: SecurityModel,
    pub bss_load: Option<BssLoad>,
    pub country_code: Option<Seq<char>>,
    pub wps: bool,
    pub rates: Seq<u32>,
    pub channel_info: Option<ChannelInfo>,
    pub stream_info: Option<SpatialStreamInfo>,
    pub ofdma_info: Option<OfdmaModel>,
    pub twt_info: Option<TwtInfo>,
    pub wifi7: Option<Wifi7Model>,
    pub mcs_info: Option<McsInfo>,
}

/// Nothing collected yet: an open network without features.
pub open spec fn caps_start() -> CapsModel {
    CapsModel {
        standards: seq![],
        features: no_features(),
        protocols: no_roaming(),
        security: "open"@,
        details: open_security(),
        bss_load: None,
        country_code: None,
        wps: false,
        rates: seq![],
        channel_info: None,
        stream_info: None,
        ofdma_info: None,
        twt_info: None,
        wifi7: None,
        mcs_info: None,
    }
}

/// Rates elements (1, 50) append their rates.
#[verifier::opaque]
pub open spec fn rates_step(s: CapsModel, d: Seq<u8>) -> CapsModel {
    CapsModel { rates: s.rates + rates_of(d), ..s }
}

/// A BSS load element (11) of at least 5 bytes replaces the load: station
/// count at bytes 0-1, utilization at byte 2, capacity at bytes 3-4.
#[verifier::opaque]
pub open spec fn bss_load_step(s: CapsModel, d: Seq<u8>) -> CapsModel {
    if d.len() >= 5 {
        CapsModel {
            bss_load: Some(
                BssLoad {
                    channel_utilization: d[2],
                    station_count: le16(d[0], d[1]),
                    available_capacity: le16(d[3], d[4]),
                },
            ),
            ..s
        }
    } else {
        s
    }
}

/// The country code a country element names: its first two bytes, decoded
/// and trimmed.
pub open spec fn country_code_of(d: Seq<u8>) -> Seq<char> {
    spec_trim(utf8_lossy(d.subrange(0, 2)))
}

/// A country element (7) of at least 2 bytes replaces the country code,
/// unless its code is empty.
#[verifier::opaque]
pub open spec fn country_step(s: CapsModel, d: Seq<u8>) -> CapsModel {
    if d.len() >= 2 && country_code_of(d).len() > 0 {
        CapsModel { country_code: Some(country_code_of(d)), ..s }
    } else {
        s
    }
}

/// HT capabilities (45): 802.11n, stream and MCS details, PHY features.
#[verifier::opaque]
pub open spec fn ht_cap_step(s: CapsModel, d: Seq<u8>) -> CapsModel {
    let (ss, mcs) = spec_ht_capabilities(d);
    CapsModel {
        standards: add_standard(s.standards, 4),
        stream_info: or_else(ss, s.stream_info),
        mcs_info: or_else(mcs, s.mcs_info),
        features: spec_apply_ht(s.features, d),
        ..s
    }
}

/// RSN (48) replaces the security description.
#[verifier::opaque]
pub open spec fn rsn_step(s: CapsModel, d: Seq<u8>) -> CapsModel {
    CapsModel { security: spec_parse_rsn(d).0, details: spec_parse_rsn(d).1, ..s }
}

/// HT operation (61) sets the channel when it yields one.
#[verifier::opaque]
pub open spec fn ht_op_step(s: CapsModel, d: Seq<u8>) -> CapsModel {
    CapsModel { channel_info: or_else(spec_ht_operation(d), s.channel_info), ..s }
}

/// RM capabilities (70) set RRM and, with 5 bytes, neighbor and beacon
/// report from bits 0 and 7 of byte 0.
#[verifier::opaque]
pub open spec fn rm_step(s: CapsModel, d: Seq<u8>) -> CapsModel {
    CapsModel {
        protocols: RoamingInfo {
            rrm: true,
            neighbor_report: if d.len() >= 5 {
                d[0] & 0x01 != 0
            } else {
                s.protocols.neighbor_report
            },
            beacon_report: if d.len() >= 5 {
                d[0] & 0x80 != 0
            } else {
                s.protocols.beacon_report
            },
            ..s.protocols
        },
        ..s
    }
}

/// Extended capabilities (127) update the roaming summary.
#[verifier::opaque]
pub open spec fn ext_cap_step(s: CapsModel, d: Seq<u8>) -> CapsModel {
    CapsModel { protocols: spec_extended_capabilities(s.protocols, d), ..s }
}

/// VHT capabilities (191): 802.11ac, stream and MCS details, PHY features.
#[verifier::opaque]
pub open spec fn vht_cap_step(s: CapsModel, d: Seq<u8>) -> CapsModel {
    let (ss, mcs) = spec_vht_capabilities(d);
    CapsModel {
        standards: add_standard(s.standards, 5),
        stream_info: or_else(ss, s.stream_info),
        mcs_info: or_else(mcs, s.mcs_info),
        features: spec_apply_vht(s.features, d),
        ..s
    }
}

/// VHT operation (192) sets the channel when it yields one.
#[verifier::opaque]
pub open spec fn vht_op_step(s: CapsModel, d: Seq<u8>) -> CapsModel {
    CapsModel { channel_info: or_else(spec_vht_operation(d), s.channel_info), ..s }
}

/// A vendor-specific body (221) with the Microsoft OUI 00:50:F2: type 2 is
/// WMM (U-APSD from bit 7 of byte 5 when present), type 4 is WPS.
#[verifier::opaque]
pub open spec fn vendor_step(s: CapsModel, d: Seq<u8>) -> CapsModel {
    if d.len() >= 4 && d[0] == 0x00 && d[1] == 0x50 && d[2] == 0xF2 {
        if d[3] == 0x02 {
            CapsModel {
                protocols: RoamingInfo {
                    wmm: true,
                    wmm_uapsd: if d.len() >= 6 {
                        d[5] & 0x80 != 0
                    } else {
                        s.protocols.wmm_uapsd
                    },
                    ..s.protocols
                },
                ..s
            }
        } else if d[3] == 0x04 {
            CapsModel { wps: true, ..s }
        } else {
            s
        }
    } else {
        s
    }
}

/// HE capabilities (extension 35): 802.11ax, stream, OFDMA, TWT and MCS
/// details, PHY features.
#[verifier::opaque]
pub open spec fn he_cap_step(s: CapsModel, d: Seq<u8>) -> CapsModel {
    let (ss, ofdma, twt, mcs) = spec_he_capabilities(d);
    CapsModel {
        standards: add_standard(s.standards, 6),
        stream_info: or_else(ss, s.stream_info),
        ofdma_info: or_else(ofdma, s.ofdma_info),
        twt_info: or_else(twt, s.twt_info),
        mcs_info: or_else(mcs, s.mcs_info),
        features: spec_apply_he(s.features, d),
        ..s
    }
}

/// EHT operation (extension 106) sets the channel when it yields one.
#[verifier::opaque]
pub open spec fn eht_op_step(s: CapsModel, d: Seq<u8>) -> CapsModel {
    CapsModel { channel_info: or_else(spec_eht_operation(d), s.channel_info), ..s }
}

/// A multi-link element (extension 107) turns MLO on and replaces the WiFi 7
/// details by its multi-link information alone.
#[verifier::opaque]
pub open spec fn mlo_step(s: CapsModel, d: Seq<u8>) -> CapsModel {
    CapsModel {
        features: FeaturesModel { mlo: true, ..s.features },
        wifi7: Some(
            Wifi7Model { mlo: spec_mlo_element(d), punctured_preamble: false, multi_ru: false },
        ),
        ..s
    }
}

/// EHT capabilities (extension 108): 802.11be, stream, WiFi 7 and MCS
/// details, PHY features.
#[verifier::opaque]
pub open spec fn eht_cap_step(s: CapsModel, d: Seq<u8>) -> CapsModel {
    let (ss, wifi7, mcs) = spec_eht_capabilities(d);
    CapsModel {
        standards: add_standard(s.standards, 7),
        stream_info: or_else(ss, s.stream_info),
        wifi7: or_else(wifi7, s.wifi7),
        mcs_info: or_else(mcs, s.mcs_info),
        features: spec_apply_eht(s.features, d),
        ..s
    }
}

/// Effect of an extended element body; its first byte is the extension id.
/// HE operation (36) yields no channel information and changes nothing.
pub open spec fn extension_step(s: CapsModel, d: Seq<u8>) -> CapsModel {
    if d[0] == 35 {
        he_cap_step(s, d)
    } else if d[0] == 106 {
        eht_op_step(s, d)
    } else if d[0] == 107 {
        mlo_step(s, d)
    } else if d[0] == 108 {
        eht_cap_step(s, d)
    } else {
        s
    }
}

/// Effect of one element on what has been collected; elements of other ids
/// change nothing.
pub open spec fn caps_step(s: CapsModel, e: Element) -> CapsModel {
    let (id, d) = e;
    if id == 1 || id == 50 {
        rates_step(s, d)
    } else if id == 11 {
        bss_load_step(s, d)
    } else if id == 7 {
        country_step(s, d)
    } else if id == 45 {
        ht_cap_step(s, d)
    } else if id == 48 {
        rsn_step(s, d)
    } else if id == 61 {
        ht_op_step(s, d)
    } else if id == 70 {
        rm_step(s, d)
    } else if id == 127 {
        ext_cap_step(s, d)
    } else if id == 191 {
        vht_cap_step(s, d)
    } else if id == 192 {
        vht_op_step(s, d)
    } else if id == 221 {
        vendor_step(s, d)
    } else if id == 255 && d.len() >= 1 {
        extension_step(s, d)
    } else {
        s
    }
}

/// What has been collected after walking `els` from `s`.
pub open spec fn caps_walk(s: CapsModel, els: Seq<Element>) -> CapsModel
    decreases els.len(),
{
    if els.len() == 0 {
        s
    } else {
        caps_walk(caps_step(s, els[0]), els.drop_first())
    }
}

/// The standards reported: the collected ones by name, or 802.11g when none
/// was seen.
pub open spec fn standards_out(s: Seq<u8>) -> Seq<Seq<char>> {
    if s.len() == 0 {
        seq!["g"@]
    } else {
        s.map_values(|g: u8| standard_name(g))
    }
}

/// Highest QAM order: what the capabilities said, or else 4096 for WiFi 7,
/// 1024 for WiFi 6 and 256 otherwise.
pub open spec fn max_qam_out(s: CapsModel) -> u16 {
    if s.features.max_qam != 0 {
        s.features.max_qam
    } else if s.standards.contains(7u8) {
        4096
    } else if s.standards.contains(6u8) {
        1024
    } else {
        256
    }
}

/// The features reported: those collected, with the QAM default and the
/// detail fields gathered along the walk.
pub open spec fn features_out(s: CapsModel) -> FeaturesModel {
    FeaturesModel {
        max_qam: max_qam_out(s),
        channel_info: s.channel_info,
        spatial_stream_info: s.stream_info,
        ofdma_info: s.ofdma_info,
        twt_info: s.twt_info,
        wifi7_features: s.wifi7,
        mcs_info: s.mcs_info,
        ..s.features
    }
}

/// All an element list says, once walked.
pub open spec fn spec_capabilities(ie: Seq<u8>) -> CapsModel {
    caps_walk(caps_start(), elements(ie))
}

/// Elements whose parsing stays inside its bounds (see
/// `ht_operation_in_range` and `he_capabilities_in_range`).
pub open spec fn element_in_range(e: Element) -> bool {
    &&& (e.0 == 61 ==> ht_operation_in_range(e.1))
    &&& (e.0 == 255 && e.1.len() >= 1 && e.1[0] == 35 ==> he_capabilities_in_range(e.1))
}

/// Every element of a list parses inside its bounds.
pub open spec fn all_in_range(els: Seq<Element>) -> bool
    decreases els.len(),
{
    els.len() == 0 || (element_in_range(els[0]) && all_in_range(els.drop_first()))
}

/// Every element of the element list parses inside its bounds.
pub open spec fn caps_in_range(ie: Seq<u8>) -> bool {
    all_in_range(elements(ie))
}

/// Walking an element followed by more elements is walking the rest after
/// the first step.
pub proof fn lemma_caps_walk_cons(s: CapsModel, e: Element, rest: Seq<Element>)
    ensures
        caps_walk(s, seq![e] + rest) == caps_walk(caps_step(s, e), rest),
{
    let l = seq![e] + rest;
    assert(l[0] == e);
    assert(l.drop_first() =~= rest);
}


// ============================================================================
// The walk
// ============================================================================

/// What the walk has collected, as values.
struct CapsAcc {
    standards: Vec<u8>,
    features: PerformanceFeatures,
    protocols: RoamingInfo,
    security: String,
    details: SecurityDetails,
    bss_load: Option<BssLoad>,
    country_code: Option<String>,
    wps: bool,
    rates: Vec<u32>,
    channel_info: Option<ChannelInfo>,
    stream_info: Option<SpatialStreamInfo>,
    ofdma_info: Option<OfdmaInfo>,
    twt_info: Option<TwtInfo>,
    wifi7: Option<Wifi7Features>,
    mcs_info: Option<McsInfo>,
}

impl View for CapsAcc {
    type V = CapsModel;

    closed spec fn view(&self) -> CapsModel {
        CapsModel {
            standards: self.standards@,
            features: self.features@,
            protocols: self.protocols,
            security: self.security@,
            details: self.details@,
            bss_load: self.bss_load,
            country_code: match self.country_code {
                Some(c) => Some(c@),
                None => None,
            },
            wps: self.wps,
            rates: self.rates@,
            channel_info: self.channel_info,
            stream_info: self.stream_info,
            ofdma_info: ofdma_view(self.ofdma_info),
            twt_info: self.twt_info,
            wifi7: wifi7_view(self.wifi7),
            mcs_info: self.mcs_info,
        }
    }
}

/// Whether `generation` is among the collected standards.
fn has_standard(standards: &Vec<u8>, generation: u8) -> (b: bool)
    ensures
        b == standards@.contains(generation),
{
    let mut i: usize = 0;
    while i < standards.len()
        invariant
            i <= standards.len(),
            forall|j: int| 0 <= j < i ==> standards@[j] != generation,
        decreases standards.len() - i,
    {
        if standards[i] == generation {
            return true;
        }
        i += 1;
    }
    false
}

/// Record a standard unless it is already listed.
fn note_standard(standards: &mut Vec<u8>, generation: u8)
    ensures
        final(standards)@ == add_standard(old(standards)@, generation),
{
    if !has_standard(standards, generation) {
        standards.push(generation);
    }
}

/// Append the rates of a rates element.
fn push_rates(rates: &mut Vec<u32>, d: &[u8])
    ensures
        final(rates)@ == old(rates)@ + rates_of(d@),
{
    let ghost start = rates@;
    let mut i: usize = 0;
    while i < d.len()
        invariant
            i <= d.len(),
            rates@ == start + rates_of(d@).subrange(0, i as int),
        decreases d.len() - i,
    {
        let rate = ((d[i] & 0x7F) as u32) / 2;
        rates.push(rate);
        assert(rates_of(d@).subrange(0, i + 1) =~= rates_of(d@).subrange(0, i as int).push(rate));
        i += 1;
    }
    assert(rates_of(d@).subrange(0, d.len() as int) =~= rates_of(d@));
}

/// The country code of a country element, when its first two bytes decode
/// to something other than whitespace.
pub(crate) fn country_of(d: &[u8]) -> (c: Option<String>)
    requires
        d.len() >= 2,
    ensures
        country_code_of(d@).len() > 0 ==> (c matches Some(code) && code@ == country_code_of(d@)),
        country_code_of(d@).len() == 0 ==> c is None,
{
    let decoded = decode_lossy(&d[0..2]);
    let trimmed = trim_str(decoded.as_str());
    if trimmed.is_empty() {
        None
    } else {
        Some(trimmed.to_owned())
    }
}

fn absorb_rates(acc: &mut CapsAcc, d: &[u8])
    ensures
        final(acc)@ == rates_step(old(acc)@, d@),
{
    reveal(rates_step);
    push_rates(&mut acc.rates, d);
}

fn absorb_bss_load(acc: &mut CapsAcc, d: &[u8])
    ensures
        final(acc)@ == bss_load_step(old(acc)@, d@),
{
    reveal(bss_load_step);
    if d.len() >= 5 {
        acc.bss_load = Some(
            BssLoad {
                channel_utilization: d[2],
                station_count: (d[0] as u16) | ((d[1] as u16) << 8u16),
                available_capacity: (d[3] as u16) | ((d[4] as u16) << 8u16),
            },
        );
    }
}

fn absorb_country(acc: &mut CapsAcc, d: &[u8])
    ensures
        final(acc)@ == country_step(old(acc)@, d@),
{
    reveal(country_step);
    if d.len() >= 2 {
        if let Some(code) = country_of(d) {
            acc.country_code = Some(code);
        }
    }
}

fn absorb_ht_cap(acc: &mut CapsAcc, d: &[u8])
    ensures
        final(acc)@ == ht_cap_step(old(acc)@, d@),
{
    reveal(ht_cap_step);
    note_standard(&mut acc.standards, 4);
    let (ss, mcs) = parse_ht_capabilities_detailed(d);
    if let Some(x) = ss {
        acc.stream_info = Some(x);
    }
    if let Some(x) = mcs {
        acc.mcs_info = Some(x);
    }
    apply_ht_capabilities(d, &mut acc.features);
}

fn absorb_rsn(acc: &mut CapsAcc, d: &[u8])
    ensures
        final(acc)@ == rsn_step(old(acc)@, d@),
{
    reveal(rsn_step);
    let (sec, details) = parse_rsn(d);
    acc.security = sec;
    acc.details = details;
}

fn absorb_ht_op(acc: &mut CapsAcc, d: &[u8])
    requires
        ht_operation_in_range(d@),
    ensures
        final(acc)@ == ht_op_step(old(acc)@, d@),
{
    reveal(ht_op_step);
    if let Some(x) = parse_ht_operation(d) {
        acc.channel_info = Some(x);
    }
}

fn absorb_rm(acc: &mut CapsAcc, d: &[u8])
    ensures
        final(acc)@ == rm_step(old(acc)@, d@),
{
    reveal(rm_step);
    let p = acc.protocols;
    let (neighbor_report, beacon_report) = if d.len() >= 5 {
        ((d[0] & 0x01) != 0, (d[0] & 0x80) != 0)
    } else {
        (p.neighbor_report, p.beacon_report)
    };
    acc.protocols = RoamingInfo { rrm: true, neighbor_report, beacon_report, ..p };
}

fn absorb_ext_cap(acc: &mut CapsAcc, d: &[u8])
    ensures
        final(acc)@ == ext_cap_step(old(acc)@, d@),
{
    reveal(ext_cap_step);
    parse_extended_capabilities_detailed(d, &mut acc.protocols);
}

fn absorb_vht_cap(acc: &mut CapsAcc, d: &[u8])
    ensures
        final(acc)@ == vht_cap_step(old(acc)@, d@),
{
    reveal(vht_cap_step);
    note_standard(&mut acc.standards, 5);
    let (ss, mcs) = parse_vht_capabilities_detailed(d);
    if let Some(x) = ss {
        acc.stream_info = Some(x);
    }
    if let Some(x) = mcs {
        acc.mcs_info = Some(x);
    }
    apply_vht_capabilities(d, &mut acc.features);
}

fn absorb_vht_op(acc: &mut CapsAcc, d: &[u8])
    ensures
        final(acc)@ == vht_op_step(old(acc)@, d@),
{
    reveal(vht_op_step);
    if let Some(x) = parse_vht_operation(d) {
        acc.channel_info = Some(x);
    }
}

fn absorb_vendor(acc: &mut CapsAcc, d: &[u8])
    ensures
        final(acc)@ == vendor_step(old(acc)@, d@),
{
    reveal(vendor_step);
    if d.len() >= 4 && d[0] == 0x00 && d[1] == 0x50 && d[2] == 0xF2 {
        if d[3] == 0x02 {
            let p = acc.protocols;
            let wmm_uapsd = if d.len() >= 6 {
                (d[5] & 0x80) != 0
            } else {
                p.wmm_uapsd
            };
            acc.protocols = RoamingInfo { wmm: true, wmm_uapsd, ..p };
        } else if d[3] == 0x04 {
            acc.wps = true;
        }
    }
}

fn absorb_he_cap(acc: &mut CapsAcc, d: &[u8])
    requires
        he_capabilities_in_range(d@),
    ensures
        final(acc)@ == he_cap_step(old(acc)@, d@),
{
    reveal(he_cap_step);
    note_standard(&mut acc.standards, 6);
    let (ss, ofdma, twt, mcs) = parse_he_capabilities_detailed(d);
    if let Some(x) = ss {
        acc.stream_info = Some(x);
    }
    if let Some(x) = ofdma {
        acc.ofdma_info = Some(x);
    }
    if let Some(x) = twt {
        acc.twt_info = Some(x);
    }
    if let Some(x) = mcs {
        acc.mcs_info = Some(x);
    }
    apply_he_capabilities(d, &mut acc.features);
}

fn absorb_eht_op(acc: &mut CapsAcc, d: &[u8])
    ensures
        final(acc)@ == eht_op_step(old(acc)@, d@),
{
    reveal(eht_op_step);
    if let Some(x) = parse_eht_operation(d) {
        acc.channel_info = Some(x);
    }
}

fn absorb_mlo(acc: &mut CapsAcc, d: &[u8])
    ensures
        final(acc)@ == mlo_step(old(acc)@, d@),
{
    reveal(mlo_step);
    acc.features.mlo = true;
    acc.wifi7 = Some(
        Wifi7Features { mlo: parse_mlo_element(d), punctured_preamble: false, multi_ru: false },
    );
}

fn absorb_eht_cap(acc: &mut CapsAcc, d: &[u8])
    ensures
        final(acc)@ == eht_cap_step(old(acc)@, d@),
{
    reveal(eht_cap_step);
    note_standard(&mut acc.standards, 7);
    let (ss, wifi7, mcs) = parse_eht_capabilities_detailed(d);
    if let Some(x) = ss {
        acc.stream_info = Some(x);
    }
    if let Some(x) = wifi7 {
        acc.wifi7 = Some(x);
    }
    if let Some(x) = mcs {
        acc.mcs_info = Some(x);
    }
    apply_eht_capabilities(d, &mut acc.features);
}

/// Fold one element into the accumulator.
fn absorb(acc: &mut CapsAcc, id: u8, d: &[u8])
    requires
        element_in_range((id, d@)),
    ensures
        final(acc)@ == caps_step(old(acc)@, (id, d@)),
{
    if id == 1 || id == 50 {
        absorb_rates(acc, d);
    } else if id == 11 {
        absorb_bss_load(acc, d);
    } else if id == 7 {
        absorb_country(acc, d);
    } else if id == 45 {
        absorb_ht_cap(acc, d);
    } else if id == 48 {
        absorb_rsn(acc, d);
    } else if id == 61 {
        absorb_ht_op(acc, d);
    } else if id == 70 {
        absorb_rm(acc, d);
    } else if id == 127 {
        absorb_ext_cap(acc, d);
    } else if id == 191 {
        absorb_vht_cap(acc, d);
    } else if id == 192 {
        absorb_vht_op(acc, d);
    } else if id == 221 {
        absorb_vendor(acc, d);
    } else if id == 255 && d.len() >= 1 {
        if d[0] == 35 {
            absorb_he_cap(acc, d);
        } else if d[0] == 36 {
            let ch = parse_he_operation(d);
            if let Some(x) = ch {
                acc.channel_info = Some(x);
            }
        } else if d[0] == 106 {
            absorb_eht_op(acc, d);
        } else if d[0] == 107 {
            absorb_mlo(acc, d);
        } else if d[0] == 108 {
            absorb_eht_cap(acc, d);
        }
    }
}

/// A list of one element followed by more is in range exactly when the
/// element and the rest are.
proof fn lemma_in_range_cons(e: Element, rest: Seq<Element>)
    ensures
        all_in_range(seq![e] + rest) == (element_in_range(e) && all_in_range(rest)),
{
    let l = seq![e] + rest;
    assert(l[0] == e);
    assert(l.drop_first() =~= rest);
}

fn start_acc() -> (acc: CapsAcc)
    ensures
        acc@ == caps_start(),
{
    let acc = CapsAcc {
        standards: Vec::new(),
        features: PerformanceFeatures::default(),
        protocols: RoamingInfo::default(),
        security: "open".to_owned(),
        details: SecurityDetails::default(),
        bss_load: None,
        country_code: None,
        wps: false,
        rates: Vec::new(),
        channel_info: None,
        stream_info: None,
        ofdma_info: None,
        twt_info: None,
        wifi7: None,
        mcs_info: None,
    };
    assert(acc.standards@ =~= Seq::<u8>::empty());
    assert(acc.rates@ =~= Seq::<u32>::empty());
    acc
}

/// The name of a standard.
fn name_of_standard(generation: u8) -> (s: String)
    ensures
        s@ == standard_name(generation),
{
    if generation == 4 {
        "n".to_owned()
    } else if generation == 5 {
        "ac".to_owned()
    } else if generation == 6 {
        "ax".to_owned()
    } else {
        "be".to_owned()
    }
}

/// The standards reported for the collected generations.
fn standards_names(standards: &Vec<u8>) -> (v: Vec<String>)
    ensures
        v.deep_view() == standards_out(standards@),
{
    let mut v: Vec<String> = Vec::new();
    if standards.len() == 0 {
        v.push("g".to_owned());
        assert(v.deep_view() =~= seq!["g"@]);
        return v;
    }
    let mut i: usize = 0;
    while i < standards.len()
        invariant
            i <= standards.len(),
            v.deep_view() =~= standards@.subrange(0, i as int).map_values(
                |g: u8| standard_name(g),
            ),
        decreases standards.len() - i,
    {
        let ghost before = v.deep_view();
        v.push(name_of_standard(standards[i]));
        assert(v.deep_view() =~= before.push(standard_name(standards@[i as int])));
        assert(standards@.subrange(0, i + 1).map_values(|g: u8| standard_name(g))
            =~= standards@.subrange(0, i as int).map_values(|g: u8| standard_name(g)).push(
            standard_name(standards@[i as int]),
        ));
        i += 1;
    }
    assert(standards@.subrange(0, standards.len() as int) =~= standards@);
    v
}

/// Parse the capabilities an element list advertises.
///
/// Returns the standards, PHY features, roaming protocols, security type and
/// details, BSS load, country code, WPS and supported rates.
pub fn parse_capabilities(ie_data: &[u8]) -> (r: (
    Vec<String>,
    PerformanceFeatures,
    ProtocolExtensions,
    String,
    SecurityDetails,
    Option<BssLoad>,
    Option<String>,
    bool,
    Vec<u32>,
))
    requires
        caps_in_range(ie_data@),
    ensures
        r.0.deep_view() == standards_out(spec_capabilities(ie_data@).standards),
        r.1@ == features_out(spec_capabilities(ie_data@)),
        r.2 == spec_capabilities(ie_data@).protocols,
        r.3@ == spec_capabilities(ie_data@).security,
        r.4@ == spec_capabilities(ie_data@).details,
        r.5 == spec_capabilities(ie_data@).bss_load,
        (match r.6 {
            Some(c) => Some(c@),
            None => None,
        }) == spec_capabilities(ie_data@).country_code,
        r.7 == spec_capabilities(ie_data@).wps,
        r.8@ == spec_capabilities(ie_data@).rates,
{
    let ghost data = ie_data@;
    let mut acc = start_acc();
    let mut pos: usize = 0;
    proof {
        lemma_elements_start(data);
    }
    while ie_data.len() - pos >= 2
        invariant
            data == ie_data@,
            pos <= ie_data.len(),
            caps_walk(acc@, elements(data.subrange(pos as int, data.len() as int)))
                == spec_capabilities(data),
            all_in_range(elements(data.subrange(pos as int, data.len() as int))),
        ensures
            elements(data.subrange(pos as int, data.len() as int)) == Seq::<Element>::empty(),
            caps_walk(acc@, Seq::<Element>::empty()) == spec_capabilities(data),
        decreases ie_data.len() - pos,
    {
        let id = ie_data[pos];
        let len = ie_data[pos + 1] as usize;
        if len > ie_data.len() - pos - 2 {
            proof {
                lemma_elements_stop(data, pos as int);
            }
            break;
        }
        let body = &ie_data[pos + 2..pos + 2 + len];
        let ghost before = acc@;
        let ghost rest = elements(data.subrange(pos + 2 + len, data.len() as int));
        proof {
            lemma_elements_step(data, pos as int);
            assert(body@ == data.subrange(pos + 2, pos + 2 + len));
            lemma_caps_walk_cons(before, (id, body@), rest);
            lemma_in_range_cons((id, body@), rest);
        }
        absorb(&mut acc, id, body);
        pos = pos + 2 + len;
    }
    let ghost fin = acc@;
    assert(fin == spec_capabilities(data));
    let standards = standards_names(&acc.standards);
    let max_qam = if acc.features.max_qam != 0 {
        acc.features.max_qam
    } else if has_standard(&acc.standards, 7) {
        4096
    } else if has_standard(&acc.standards, 6) {
        1024
    } else {
        256
    };
    let CapsAcc {
        standards: _,
        mut features,
        protocols,
        security,
        details,
        bss_load,
        country_code,
        wps,
        rates,
        channel_info,
        stream_info,
        ofdma_info,
        twt_info,
        wifi7,
        mcs_info,
    } = acc;
    features.max_qam = max_qam;
    features.channel_info = channel_info;
    features.spatial_stream_info = stream_info;
    features.ofdma_info = ofdma_info;
    features.twt_info = twt_info;
    features.wifi7_features = wifi7;
    features.mcs_info = mcs_info;
    (standards, features, protocols, security, details, bss_load, country_code, wps, rates)
}

/// Whether every element of an element list parses inside its bounds, as
/// `parse_capabilities` requires.
pub fn capabilities_in_range(ie_data: &[u8]) -> (ok: bool)
    ensures
        ok == caps_in_range(ie_data@),
{
    let ghost data = ie_data@;
    let mut pos: usize = 0;
    proof {
        lemma_elements_start(data);
    }
    while ie_data.len() - pos >= 2
        invariant
            data == ie_data@,
            pos <= ie_data.len(),
            all_in_range(elements(data.subrange(pos as int, data.len() as int))) == caps_in_range(
                data,
            ),
        decreases ie_data.len() - pos,
    {
        let id = ie_data[pos];
        let len = ie_data[pos + 1] as usize;
        if len > ie_data.len() - pos - 2 {
            proof {
                lemma_elements_stop(data, pos as int);
            }
            return true;
        }
        let body = &ie_data[pos + 2..pos + 2 + len];
        let ghost rest = elements(data.subrange(pos + 2 + len, data.len() as int));
        proof {
            lemma_elements_step(data, pos as int);
            assert(body@ == data.subrange(pos + 2, pos + 2 + len));
            lemma_in_range_cons((id, body@), rest);
        }
        if id == 61 && len >= 3 {
            let offset = body[1] & 0x03;
            if (offset == 1 && body[0] > 251) || (offset == 3 && body[0] < 4) {
                return false;
            }
        }
        if id == 255 && len >= 1 && body[0] == 35 && len == 21 {
            return false;
        }
        pos = pos + 2 + len;
    }
    true
}

} // verus!
