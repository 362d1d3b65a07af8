//! From a raw beacon to a network description: standards per band, WiFi
//! generation, widths and the data rates they allow.
//!
//! Rates are computed in tenths of a megabit per second, which holds every
//! rate of the PHY tables exactly.
use vstd::prelude::*;
use crate::parser::capabilities::{
    caps_in_range, features_out, parse_capabilities, spec_capabilities, standards_out,
};
use crate::parser::elements::{
    elements, lemma_elements_start, lemma_elements_step, lemma_elements_stop, Element,
};
use crate::parser::width::{detect_channel_width, spec_channel_width};
use crate::text::{decode_utf8_exact, same_text};
use crate::types::{
    adapter_of, lemma_texts_deep_view, spec_band_str, spec_channel_frequency, string_option, texts, utf8_text,
    Band, ChannelInfo, FeaturesModel, LocalAdapterCapabilities, Network, OfdmaInfo, OfdmaModel,
    RawBeacon, RuSize, spec_bssid_string,
};
use crate::vendor::{first_vendor, lookup_vendor, lookup_vendor_from_ie, spec_lookup_vendor};

verus! {

// ============================================================================
// Standards
// ============================================================================

/// Whether a list of strings holds `x`.
pub fn has_text(list: &[String], x: &str) -> (r: bool)
    ensures
        r == texts(list@).contains(x@),
{
    let mut i: usize = 0;
    while i < list.len()
        invariant
            i <= list.len(),
            forall|j: int| 0 <= j < i ==> list@[j]@ != x@,
        decreases list.len() - i,
    {
        if same_text(list[i].as_str(), x) {
            assert(texts(list@)[i as int] == x@);
            return true;
        }
        i += 1;
    }
    assert(!texts(list@).contains(x@)) by {
        if texts(list@).contains(x@) {
            let j = choose|j: int| 0 <= j < texts(list@).len() && texts(list@)[j] == x@;
            assert(list@[j]@ == x@);
        }
    }
    false
}

/// WiFi generation of a list of standards: 7 for "be", 6 for "ax", 5 for
/// "ac", 4 for "n", else 3.
pub open spec fn spec_wifi_generation(s: Seq<Seq<char>>) -> u8 {
    if s.contains("be"@) {
        7
    } else if s.contains("ax"@) {
        6
    } else if s.contains("ac"@) {
        5
    } else if s.contains("n"@) {
        4
    } else {
        3
    }
}

/// The WiFi generation that a list of standards reaches.
pub fn detect_wifi_generation(standards: &[String]) -> (g: u8)
    ensures
        g == spec_wifi_generation(texts(standards@)),
{
    if has_text(standards, "be") {
        7
    } else if has_text(standards, "ax") {
        6
    } else if has_text(standards, "ac") {
        5
    } else if has_text(standards, "n") {
        4
    } else {
        3
    }
}

/// Standards a band can carry: 2.4 GHz b/g/n/ax/be, 5 GHz a/n/ac/ax/be,
/// 6 GHz ax/be.
pub open spec fn band_allows(band: Band, s: Seq<char>) -> bool {
    match band {
        Band::Ghz2_4 => s == "b"@ || s == "g"@ || s == "n"@ || s == "ax"@ || s == "be"@,
        Band::Ghz5 => s == "a"@ || s == "n"@ || s == "ac"@ || s == "ax"@ || s == "be"@,
        Band::Ghz6 => s == "ax"@ || s == "be"@,
    }
}

/// The standards of `s` that the band can carry, in order.
pub open spec fn allowed_standards(s: Seq<Seq<char>>, band: Band) -> Seq<Seq<char>>
    decreases s.len(),
{
    if s.len() == 0 {
        seq![]
    } else if band_allows(band, s.last()) {
        allowed_standards(s.drop_last(), band).push(s.last())
    } else {
        allowed_standards(s.drop_last(), band)
    }
}

/// The standard a band falls back on: g, a and ax.
pub open spec fn band_default_standard(band: Band) -> Seq<char> {
    match band {
        Band::Ghz2_4 => "g"@,
        Band::Ghz5 => "a"@,
        Band::Ghz6 => "ax"@,
    }
}

/// The standards kept for a band, or its default standard when none is
/// left.
pub open spec fn spec_standards_for_band(s: Seq<Seq<char>>, band: Band) -> Seq<Seq<char>> {
    if allowed_standards(s, band).len() == 0 {
        seq![band_default_standard(band)]
    } else {
        allowed_standards(s, band)
    }
}

fn band_allows_exec(band: Band, s: &str) -> (r: bool)
    ensures
        r == band_allows(band, s@),
{
    match band {
        Band::Ghz2_4 => same_text(s, "b") || same_text(s, "g") || same_text(s, "n") || same_text(
            s,
            "ax",
        ) || same_text(s, "be"),
        Band::Ghz5 => same_text(s, "a") || same_text(s, "n") || same_text(s, "ac") || same_text(
            s,
            "ax",
        ) || same_text(s, "be"),
        Band::Ghz6 => same_text(s, "ax") || same_text(s, "be"),
    }
}

/// Keep the standards a band can carry; fall back on the band's default
/// standard when none is left.
pub fn normalize_standards_for_band(standards: Vec<String>, band: Band) -> (r: Vec<String>)
    ensures
        texts(r@) == spec_standards_for_band(texts(standards@), band),
{
    let ghost all = texts(standards@);
    let mut kept: Vec<String> = Vec::new();
    let mut i: usize = 0;
    while i < standards.len()
        invariant
            all == texts(standards@),
            i <= standards.len(),
            texts(kept@) == allowed_standards(all.subrange(0, i as int), band),
        decreases standards.len() - i,
    {
        assert(all.subrange(0, i + 1).drop_last() =~= all.subrange(0, i as int));
        assert(all.subrange(0, i + 1).last() == standards@[i as int]@);
        if band_allows_exec(band, standards[i].as_str()) {
            let ghost before = kept@;
            kept.push(standards[i].clone());
            assert(texts(kept@) =~= texts(before).push(standards@[i as int]@));
        }
        i += 1;
    }
    assert(all.subrange(0, standards.len() as int) =~= all);
    if kept.len() == 0 {
        let d = match band {
            Band::Ghz2_4 => "g".to_owned(),
            Band::Ghz5 => "a".to_owned(),
            Band::Ghz6 => "ax".to_owned(),
        };
        kept.push(d);
        assert(texts(kept@) =~= seq![band_default_standard(band)]);
    }
    kept
}

/// A width capped by what the band allows (40, 160 and 320 MHz); zero
/// becomes 20 MHz.
pub open spec fn spec_width_for_band(width: u16, band: Band) -> u16 {
    let cap: u16 = match band {
        Band::Ghz2_4 => 40,
        Band::Ghz5 => 160,
        Band::Ghz6 => 320,
    };
    let capped = if width < cap {
        width
    } else {
        cap
    };
    if capped == 0 {
        20
    } else {
        capped
    }
}

/// Cap a width to what the band allows.
pub fn normalize_width_for_band(width: u16, band: Band) -> (w: u16)
    ensures
        w == spec_width_for_band(width, band),
{
    let cap: u16 = match band {
        Band::Ghz2_4 => 40,
        Band::Ghz5 => 160,
        Band::Ghz6 => 320,
    };
    let capped = if width < cap {
        width
    } else {
        cap
    };
    if capped == 0 {
        20
    } else {
        capped
    }
}

/// The order in which common standards are listed.
pub open spec fn standard_order() -> Seq<Seq<char>> {
    seq!["be"@, "ax"@, "ac"@, "n"@, "g"@, "a"@, "b"@]
}

/// `x` alone when both lists hold it, else nothing.
pub open spec fn pick_common(ap: Seq<Seq<char>>, adapter: Seq<Seq<char>>, x: Seq<char>) -> Seq<
    Seq<char>,
> {
    if ap.contains(x) && adapter.contains(x) {
        seq![x]
    } else {
        seq![]
    }
}

/// The first `k` standards of the order that both lists hold.
pub open spec fn common_upto(ap: Seq<Seq<char>>, adapter: Seq<Seq<char>>, k: int) -> Seq<
    Seq<char>,
>
    decreases k,
{
    if k <= 0 {
        seq![]
    } else {
        common_upto(ap, adapter, k - 1) + pick_common(ap, adapter, standard_order()[k - 1])
    }
}

/// The standards both lists hold, in the order be, ax, ac, n, g, a, b.
pub open spec fn spec_common_standards(ap: Seq<Seq<char>>, adapter: Seq<Seq<char>>) -> Seq<
    Seq<char>,
> {
    common_upto(ap, adapter, 7)
}

/// The standards that an access point and an adapter have in common.
pub fn intersect_standards(ap_standards: &[String], adapter_standards: &[String]) -> (r: Vec<
    String,
>)
    ensures
        texts(r@) == spec_common_standards(texts(ap_standards@), texts(adapter_standards@)),
{
    let ghost ap = texts(ap_standards@);
    let ghost ad = texts(adapter_standards@);
    let candidates: [&'static str; 7] = ["be", "ax", "ac", "n", "g", "a", "b"];
    let mut common: Vec<String> = Vec::new();
    let mut i: usize = 0;
    while i < 7
        invariant
            i <= 7,
            candidates@ == seq!["be", "ax", "ac", "n", "g", "a", "b"],
            ap == texts(ap_standards@),
            ad == texts(adapter_standards@),
            texts(common@) == common_upto(ap, ad, i as int),
        decreases 7 - i,
    {
        let c = candidates[i];
        assert(c@ == standard_order()[i as int]);
        let ghost before = common@;
        if has_text(ap_standards, c) && has_text(adapter_standards, c) {
            common.push(c.to_owned());
            assert(texts(common@) =~= texts(before) + seq![c@]);
        } else {
            assert(texts(common@) =~= texts(before) + Seq::<Seq<char>>::empty());
        }
        i += 1;
    }
    common
}

// ============================================================================
// Data rates
// ============================================================================

/// HT (802.11n) rate per spatial stream, by MCS 0-7: 20 MHz with long and
/// short guard interval, 40 MHz with long and short guard interval.
pub open spec fn ht_table(width: u16, short_gi: bool) -> Seq<u64> {
    if width == 40 && short_gi {
        seq![150, 300, 450, 600, 900, 1200, 1350, 1500]
    } else if width == 40 {
        seq![135, 270, 405, 540, 810, 1080, 1215, 1350]
    } else if short_gi {
        seq![72, 144, 217, 289, 433, 578, 650, 722]
    } else {
        seq![65, 130, 195, 260, 390, 520, 585, 650]
    }
}

/// HT rate of `streams` streams at an MCS (above 7 counts as 7).
pub open spec fn spec_ht_rate(width: u16, short_gi: bool, mcs: usize, streams: u32) -> u64 {
    let m = if mcs < 7 {
        mcs as int
    } else {
        7
    };
    (ht_table(width, short_gi)[m] * streams) as u64
}

/// HT data rate in tenths of Mbps.
pub fn ht_rate_mbps(channel_width: u16, short_gi: bool, mcs: usize, streams: u32) -> (r: u64)
    ensures
        r == spec_ht_rate(channel_width, short_gi, mcs, streams),
{
    let table: [u64; 8] = if channel_width == 40 && short_gi {
        [150, 300, 450, 600, 900, 1200, 1350, 1500]
    } else if channel_width == 40 {
        [135, 270, 405, 540, 810, 1080, 1215, 1350]
    } else if short_gi {
        [72, 144, 217, 289, 433, 578, 650, 722]
    } else {
        [65, 130, 195, 260, 390, 520, 585, 650]
    };
    assert(table@ =~= ht_table(channel_width, short_gi));
    let m: usize = if mcs < 7 {
        mcs
    } else {
        7
    };
    let per_stream = table[m];
    assert(per_stream <= 1500);
    assert(per_stream * (streams as u64) <= 1500 * 0xFFFF_FFFFu64) by (nonlinear_arith)
        requires
            per_stream <= 1500,
    ;
    per_stream * (streams as u64)
}

/// OFDM (VHT/HE/EHT) rate per stream by width: at MCS 0 and at the top MCS.
/// Widths other than 40, 80, 160 and 320 MHz count as 20 MHz.
pub open spec fn ofdm_pair(width: u16) -> (u64, u64) {
    if width == 40 {
        (172, 2868)
    } else if width == 80 {
        (360, 6005)
    } else if width == 160 {
        (721, 12010)
    } else if width == 320 {
        (1441, 24020)
    } else {
        (86, 1434)
    }
}

/// OFDM rate of `streams` streams: MCS 0 gives the low rate, any other MCS
/// the top rate.
pub open spec fn spec_ofdm_rate(width: u16, mcs: usize, streams: u32) -> u64 {
    let per = if mcs == 0 {
        ofdm_pair(width).0
    } else {
        ofdm_pair(width).1
    };
    (per * streams) as u64
}

/// OFDM data rate in tenths of Mbps.
pub fn ofdm_rate_mbps(channel_width: u16, mcs: usize, streams: u32) -> (r: u64)
    ensures
        r == spec_ofdm_rate(channel_width, mcs, streams),
{
    let (low, top): (u64, u64) = if channel_width == 40 {
        (172, 2868)
    } else if channel_width == 80 {
        (360, 6005)
    } else if channel_width == 160 {
        (721, 12010)
    } else if channel_width == 320 {
        (1441, 24020)
    } else {
        (86, 1434)
    };
    let per = if mcs == 0 {
        low
    } else {
        top
    };
    assert(per <= 24020);
    assert(per * (streams as u64) <= 24020 * 0xFFFF_FFFFu64) by (nonlinear_arith)
        requires
            per <= 24020,
    ;
    per * (streams as u64)
}

/// Some standard of the list uses OFDM rates (ac, ax, be).
pub open spec fn has_ofdm_standard(s: Seq<Seq<char>>) -> bool {
    s.contains("ac"@) || s.contains("ax"@) || s.contains("be"@)
}

/// The smallest of a list of rates (the list is not empty).
pub open spec fn min_of(r: Seq<u32>) -> u32
    decreases r.len(),
{
    if r.len() <= 1 {
        r[0]
    } else if r.last() < min_of(r.drop_last()) {
        r.last()
    } else {
        min_of(r.drop_last())
    }
}

/// The largest of a list of rates (the list is not empty).
pub open spec fn max_of(r: Seq<u32>) -> u32
    decreases r.len(),
{
    if r.len() <= 1 {
        r[0]
    } else if r.last() > max_of(r.drop_last()) {
        r.last()
    } else {
        max_of(r.drop_last())
    }
}

/// Lowest data rate: OFDM at MCS 0 with one stream, else HT at MCS 0 with one
/// stream and short guard interval, else the lowest supported rate (zero
/// without any).
pub open spec fn spec_min_rate(standards: Seq<Seq<char>>, width: u16, rates: Seq<u32>) -> u64 {
    if has_ofdm_standard(standards) {
        spec_ofdm_rate(width, 0, 1)
    } else if standards.contains("n"@) {
        spec_ht_rate(width, true, 0, 1)
    } else if rates.len() == 0 {
        0
    } else {
        (min_of(rates) * 10) as u64
    }
}

/// Highest data rate of `streams` streams (at least one): OFDM at the top
/// MCS, else HT at MCS 7 (short guard interval when it is 400 ns), else the
/// highest supported rate (zero without any).
pub open spec fn spec_max_rate(
    standards: Seq<Seq<char>>,
    width: u16,
    streams: u8,
    guard_interval: u16,
    rates: Seq<u32>,
) -> u64 {
    let ss: u32 = if streams > 1 {
        streams as u32
    } else {
        1
    };
    if has_ofdm_standard(standards) {
        spec_ofdm_rate(width, 11, ss)
    } else if standards.contains("n"@) {
        spec_ht_rate(width, guard_interval == 400, 7, ss)
    } else if rates.len() == 0 {
        0
    } else {
        (max_of(rates) * 10) as u64
    }
}

fn min_rate_of(rates: &[u32]) -> (m: u32)
    requires
        rates.len() > 0,
    ensures
        m == min_of(rates@),
{
    let mut m = rates[0];
    let mut i: usize = 1;
    assert(rates@.subrange(0, 1) =~= seq![rates@[0]]);
    while i < rates.len()
        invariant
            1 <= i <= rates.len(),
            m == min_of(rates@.subrange(0, i as int)),
        decreases rates.len() - i,
    {
        assert(rates@.subrange(0, i + 1).drop_last() =~= rates@.subrange(0, i as int));
        if rates[i] < m {
            m = rates[i];
        }
        i += 1;
    }
    assert(rates@.subrange(0, rates.len() as int) =~= rates@);
    m
}

fn max_rate_of(rates: &[u32]) -> (m: u32)
    requires
        rates.len() > 0,
    ensures
        m == max_of(rates@),
{
    let mut m = rates[0];
    let mut i: usize = 1;
    assert(rates@.subrange(0, 1) =~= seq![rates@[0]]);
    while i < rates.len()
        invariant
            1 <= i <= rates.len(),
            m == max_of(rates@.subrange(0, i as int)),
        decreases rates.len() - i,
    {
        assert(rates@.subrange(0, i + 1).drop_last() =~= rates@.subrange(0, i as int));
        if rates[i] > m {
            m = rates[i];
        }
        i += 1;
    }
    assert(rates@.subrange(0, rates.len() as int) =~= rates@);
    m
}

/// Every highest data rate is at most ten times the largest `u32`.
pub proof fn lemma_max_rate_bound(
    standards: Seq<Seq<char>>,
    width: u16,
    streams: u8,
    guard_interval: u16,
    rates: Seq<u32>,
)
    ensures
        spec_max_rate(standards, width, streams, guard_interval, rates) <= 0xFFFF_FFFFu64 * 10,
{
    let ss: u32 = if streams > 1 {
        streams as u32
    } else {
        1
    };
    assert(ss <= 255);
    let p = ofdm_pair(width);
    assert(p.1 * ss <= 24020 * 255) by (nonlinear_arith)
        requires
            p.1 <= 24020,
            ss <= 255,
    ;
    let g = guard_interval == 400;
    let h = ht_table(width, g)[7];
    assert(h * ss <= 1500 * 255) by (nonlinear_arith)
        requires
            h <= 1500,
            ss <= 255,
    ;
}

/// Lowest data rate in tenths of Mbps.
pub fn calculate_min_rate(standards: &[String], channel_width: u16, supported_rates: &[u32]) -> (r:
    u64)
    ensures
        r == spec_min_rate(texts(standards@), channel_width, supported_rates@),
{
    if has_text(standards, "ac") || has_text(standards, "ax") || has_text(standards, "be") {
        return ofdm_rate_mbps(channel_width, 0, 1);
    }
    if has_text(standards, "n") {
        return ht_rate_mbps(channel_width, true, 0, 1);
    }
    if supported_rates.len() == 0 {
        0
    } else {
        (min_rate_of(supported_rates) as u64) * 10
    }
}

/// Highest data rate in tenths of Mbps for a number of streams and a guard
/// interval.
fn max_rate_for(
    standards: &[String],
    channel_width: u16,
    spatial_streams: u8,
    guard_interval: u16,
    supported_rates: &[u32],
) -> (r: u64)
    ensures
        r == spec_max_rate(
            texts(standards@),
            channel_width,
            spatial_streams,
            guard_interval,
            supported_rates@,
        ),
{
    let streams: u32 = if spatial_streams > 1 {
        spatial_streams as u32
    } else {
        1
    };
    if has_text(standards, "ac") || has_text(standards, "ax") || has_text(standards, "be") {
        return ofdm_rate_mbps(channel_width, 11, streams);
    }
    if has_text(standards, "n") {
        return ht_rate_mbps(channel_width, guard_interval == 400, 7, streams);
    }
    if supported_rates.len() == 0 {
        0
    } else {
        (max_rate_of(supported_rates) as u64) * 10
    }
}

/// Highest data rate in tenths of Mbps with the streams and guard interval
/// of the features.
pub fn calculate_max_rate(
    standards: &[String],
    channel_width: u16,
    features: &crate::types::PerformanceFeatures,
    supported_rates: &[u32],
) -> (r: u64)
    ensures
        r == spec_max_rate(
            texts(standards@),
            channel_width,
            features.spatial_streams,
            features.guard_interval,
            supported_rates@,
        ),
{
    max_rate_for(
        standards,
        channel_width,
        features.spatial_streams,
        features.guard_interval,
        supported_rates,
    )
}

/// Streams a client uses with an access point: the adapter's fewer of
/// transmit and receive streams (at least one), at most the access point's
/// streams (at least one).
pub open spec fn spec_client_streams(adapter: LocalAdapterCapabilities, ap_streams: u8) -> u8 {
    let a = if adapter.tx_spatial_streams < adapter.rx_spatial_streams {
        adapter.tx_spatial_streams
    } else {
        adapter.rx_spatial_streams
    };
    let a1: u8 = if a > 1 {
        a
    } else {
        1
    };
    let b1: u8 = if ap_streams > 1 {
        ap_streams
    } else {
        1
    };
    if a1 < b1 {
        a1
    } else {
        b1
    }
}

fn client_streams(adapter: &LocalAdapterCapabilities, ap_streams: u8) -> (s: u8)
    ensures
        s == spec_client_streams(*adapter, ap_streams),
{
    let a = if adapter.tx_spatial_streams < adapter.rx_spatial_streams {
        adapter.tx_spatial_streams
    } else {
        adapter.rx_spatial_streams
    };
    let a1: u8 = if a > 1 {
        a
    } else {
        1
    };
    let b1: u8 = if ap_streams > 1 {
        ap_streams
    } else {
        1
    };
    if a1 < b1 {
        a1
    } else {
        b1
    }
}

/// The larger of two widths.
pub open spec fn wider(a: u16, b: u16) -> u16 {
    if a > b {
        a
    } else {
        b
    }
}

/// Width a client uses: the wider of its own maximum and the channel width,
/// at most the wider of the access point's maximum and the channel width,
/// capped for the band.
pub open spec fn spec_client_width(
    adapter_width: u16,
    channel_width: u16,
    ap_width: u16,
    band: Band,
) -> u16 {
    let a = wider(adapter_width, channel_width);
    let b = wider(ap_width, channel_width);
    spec_width_for_band(
        if a < b {
            a
        } else {
            b
        },
        band,
    )
}

/// Peak rate a client adapter can reach with an access point, in tenths of
/// Mbps: none when they share no standard.
pub open spec fn spec_client_peak(
    ap_standards: Seq<Seq<char>>,
    channel_width: u16,
    ap_streams: u8,
    ap_width: u16,
    guard_interval: u16,
    adapter: LocalAdapterCapabilities,
    rates: Seq<u32>,
    band: Band,
) -> Option<u64> {
    let common = spec_common_standards(ap_standards, texts(adapter.supported_standards@));
    if common.len() == 0 {
        None
    } else {
        Some(
            spec_max_rate(
                common,
                spec_client_width(adapter.max_supported_width, channel_width, ap_width, band),
                spec_client_streams(adapter, ap_streams),
                guard_interval,
                rates,
            ),
        )
    }
}

/// Peak data rate of a local adapter with an access point.
pub fn calculate_client_peak_data_rate(
    ap_standards: &[String],
    channel_width: u16,
    features: &crate::types::PerformanceFeatures,
    adapter: &LocalAdapterCapabilities,
    supported_rates: &[u32],
    band: Band,
) -> (r: Option<u64>)
    ensures
        r == spec_client_peak(
            texts(ap_standards@),
            channel_width,
            features.spatial_streams,
            features.max_supported_width,
            features.guard_interval,
            *adapter,
            supported_rates@,
            band,
        ),
{
    let effective_streams = client_streams(adapter, features.spatial_streams);
    let a = if adapter.max_supported_width > channel_width {
        adapter.max_supported_width
    } else {
        channel_width
    };
    let b = if features.max_supported_width > channel_width {
        features.max_supported_width
    } else {
        channel_width
    };
    let effective_width = normalize_width_for_band(
        if a < b {
            a
        } else {
            b
        },
        band,
    );
    let common = intersect_standards(ap_standards, adapter.supported_standards.as_slice());
    if common.len() == 0 {
        return None;
    }
    Some(
        max_rate_for(
            common.as_slice(),
            effective_width,
            effective_streams,
            features.guard_interval,
            supported_rates,
        ),
    )
}

/// A rate in tenths of Mbps rounded to whole Mbps (halves round up).
pub open spec fn spec_round_tenths(t: u64) -> u64 {
    ((t + 5) / 10) as u64
}

// ============================================================================
// SSID
// ============================================================================

/// The SSID of the first non-empty SSID element (id 0), when its bytes are
/// valid UTF-8; an invalid first SSID gives none.
pub open spec fn first_ssid(els: Seq<Element>) -> Option<Seq<char>>
    decreases els.len(),
{
    if els.len() == 0 {
        None
    } else if els[0].0 == 0 && els[0].1.len() > 0 {
        utf8_text(els[0].1)
    } else {
        first_ssid(els.drop_first())
    }
}

/// Parse the SSID from information elements.
pub fn parse_ssid_from_ie(ie_data: &[u8]) -> (r: Option<String>)
    ensures
        string_option(r) == first_ssid(elements(ie_data@)),
{
    let ghost data = ie_data@;
    let mut pos: usize = 0;
    proof {
        lemma_elements_start(data);
    }
    while ie_data.len() - pos >= 2
        invariant
            data == ie_data@,
            pos <= ie_data.len(),
            first_ssid(elements(data.subrange(pos as int, data.len() as int))) == first_ssid(
                elements(data),
            ),
        decreases ie_data.len() - pos,
    {
        let id = ie_data[pos];
        let len = ie_data[pos + 1] as usize;
        if len > ie_data.len() - pos - 2 {
            proof {
                lemma_elements_stop(data, pos as int);
            }
            return None;
        }
        let body = &ie_data[pos + 2..pos + 2 + len];
        let ghost rest = elements(data.subrange(pos + 2 + len, data.len() as int));
        proof {
            lemma_elements_step(data, pos as int);
            assert(body@ == data.subrange(pos + 2, pos + 2 + len));
            let l = seq![(id, body@)] + rest;
            assert(l[0] == (id, body@));
            assert(l.drop_first() =~= rest);
        }
        if id == 0 && len > 0 {
            return decode_utf8_exact(body);
        }
        pos = pos + 2 + len;
    }
    None
}

// ============================================================================
// The network
// ============================================================================

/// The standards a beacon is described with.
pub open spec fn beacon_standards(raw: RawBeacon) -> Seq<Seq<char>> {
    spec_standards_for_band(
        standards_out(spec_capabilities(raw.ie_data@).standards),
        raw.band,
    )
}

/// All seven RU sizes, which WiFi 7 access points support.
pub open spec fn eht_ru_sizes() -> Seq<RuSize> {
    seq![
        RuSize::R26,
        RuSize::R52,
        RuSize::R106,
        RuSize::R242,
        RuSize::R484,
        RuSize::R996,
        RuSize::R996x2,
    ]
}

/// The features before the data rate is filled in: those parsed, with the
/// width capped for the band, the channel information placed at the
/// beacon's channel and frequency, and full OFDMA assumed for WiFi 7 when
/// nothing said otherwise.
pub open spec fn beacon_features_base(raw: RawBeacon) -> FeaturesModel {
    let f = features_out(spec_capabilities(raw.ie_data@));
    FeaturesModel {
        max_supported_width: spec_width_for_band(f.max_supported_width, raw.band),
        channel_info: match f.channel_info {
            Some(ci) => Some(
                ChannelInfo {
                    primary: raw.channel,
                    frequency: Some(spec_channel_frequency(raw.band, raw.channel)),
                    ..ci
                },
            ),
            None => None,
        },
        ofdma_info: if beacon_standards(raw).contains("be"@) && f.ofdma_info is None {
            Some(OfdmaModel { dl_ofdma: true, ul_ofdma: true, ru_sizes: eht_ru_sizes() })
        } else {
            f.ofdma_info
        },
        ..f
    }
}

/// Highest data rate of a beacon at its channel width.
pub open spec fn beacon_max_rate(raw: RawBeacon) -> u64 {
    let f = beacon_features_base(raw);
    spec_max_rate(
        beacon_standards(raw),
        spec_channel_width(raw.ie_data@),
        f.spatial_streams,
        f.guard_interval,
        spec_capabilities(raw.ie_data@).rates,
    )
}

/// The vendor of a beacon: by its BSSID, or, when that gives "Unknown" or
/// "Locally Administered", by its vendor-specific elements when they name
/// one.
pub open spec fn beacon_vendor(raw: RawBeacon) -> Seq<char> {
    let v = spec_lookup_vendor(spec_bssid_string(raw.bssid@));
    if v == "Unknown"@ || v == "Locally Administered"@ {
        match first_vendor(elements(raw.ie_data@)) {
            Some(iv) => iv,
            None => v,
        }
    } else {
        v
    }
}

/// The base features of a beacon from its parsed features and standards.
fn base_features(raw: &RawBeacon, parsed: crate::types::PerformanceFeatures, standards: &Vec<String>) -> (f:
    crate::types::PerformanceFeatures)
    requires
        parsed@ == features_out(spec_capabilities(raw.ie_data@)),
        texts(standards@) == beacon_standards(*raw),
    ensures
        f@ == beacon_features_base(*raw),
{
    let mut features = parsed;
    features.max_supported_width = normalize_width_for_band(features.max_supported_width, raw.band);
    let frequency = raw.frequency();
    match features.channel_info {
        Some(ci) => {
            features.channel_info = Some(
                ChannelInfo { primary: raw.channel, frequency: Some(frequency), ..ci },
            );
        },
        None => {},
    }
    if has_text(standards.as_slice(), "be") && features.ofdma_info.is_none() {
        let sizes = vec![
            RuSize::R26,
            RuSize::R52,
            RuSize::R106,
            RuSize::R242,
            RuSize::R484,
            RuSize::R996,
            RuSize::R996x2,
        ];
        assert(sizes@ =~= eht_ru_sizes());
        features.ofdma_info = Some(OfdmaInfo { dl_ofdma: true, ul_ofdma: true, ru_sizes: sizes });
    }
    features
}

/// The SSID of a beacon: its own when valid UTF-8, else the first SSID
/// element's.
pub open spec fn beacon_ssid(raw: RawBeacon) -> Option<Seq<char>> {
    match raw.ssid {
        Some(b) => match utf8_text(b@) {
            Some(t) => Some(t),
            None => first_ssid(elements(raw.ie_data@)),
        },
        None => first_ssid(elements(raw.ie_data@)),
    }
}

/// The features reported for a beacon: the base features with the highest
/// data rate rounded to whole Mbps.
pub open spec fn beacon_features(raw: RawBeacon) -> FeaturesModel {
    FeaturesModel {
        max_data_rate: spec_round_tenths(beacon_max_rate(raw)) as u32,
        ..beacon_features_base(raw)
    }
}

/// Parse a raw beacon into a network description.
pub fn parse_beacon(raw: &RawBeacon) -> (net: Network)
    requires
        caps_in_range(raw.ie_data@),
        i16::MIN <= raw.signal_dbm - raw.noise_dbm <= i16::MAX,
    ensures
        net.ssid.is_some() != net.is_hidden,
        string_option(net.ssid) == beacon_ssid(*raw),
        net.bssid@ == spec_bssid_string(raw.bssid@),
        net.signal == raw.signal_dbm,
        net.noise == raw.noise_dbm,
        net.snr == (if raw.signal_dbm - raw.noise_dbm > 0 {
            (raw.signal_dbm - raw.noise_dbm) as u16
        } else {
            0
        }),
        net.channel == raw.channel,
        net.frequency == spec_channel_frequency(raw.band, raw.channel),
        net.band@ == spec_band_str(raw.band)@,
        net.connected == raw.connected,
        texts(net.standards@) == beacon_standards(*raw),
        net.wifi_generation == spec_wifi_generation(beacon_standards(*raw)),
        net.channel_width == spec_channel_width(raw.ie_data@),
        net.center_channel is None,
        net.secondary_channel is None,
        net.features@ == beacon_features(*raw),
        net.min_rate_tenths == spec_min_rate(
            beacon_standards(*raw),
            spec_channel_width(raw.ie_data@),
            spec_capabilities(raw.ie_data@).rates,
        ),
        net.max_rate_tenths == beacon_max_rate(*raw),
        net.ap_peak_rate_tenths == spec_max_rate(
            beacon_standards(*raw),
            spec_width_for_band(
                wider(
                    beacon_features_base(*raw).max_supported_width,
                    spec_channel_width(raw.ie_data@),
                ),
                raw.band,
            ),
            beacon_features_base(*raw).spatial_streams,
            beacon_features_base(*raw).guard_interval,
            spec_capabilities(raw.ie_data@).rates,
        ),
        net.security@ == spec_capabilities(raw.ie_data@).security,
        net.security_details@ == spec_capabilities(raw.ie_data@).details,
        net.protocols == spec_capabilities(raw.ie_data@).protocols,
        net.bss_load == spec_capabilities(raw.ie_data@).bss_load,
        net.network_group_id is None,
        net.vendor@ == beacon_vendor(*raw),
        string_option(net.country_code) == spec_capabilities(raw.ie_data@).country_code,
        net.supported_rates@ == spec_capabilities(raw.ie_data@).rates,
        net.wps_enabled == spec_capabilities(raw.ie_data@).wps,
        net.ap_mode == 0,
        net.capabilities == 0,
        net.beacon_interval == raw.beacon_interval,
        net.first_seen == raw.timestamp,
        net.last_seen == raw.timestamp,
        net.seen_age_secs == 0,
        net.ap_uptime_secs == (match raw.uptime_ms {
            Some(u) => Some((u / 1000) as u64),
            None => None,
        }),
        net.link_rates == raw.link_rates,
        adapter_of(net.local_adapter) == adapter_of(raw.local_adapter),
        net.client_spatial_streams == (match raw.local_adapter {
            Some(a) => Some(spec_client_streams(a, beacon_features_base(*raw).spatial_streams)),
            None => None,
        }),
        net.client_peak_rate_tenths == (match raw.local_adapter {
            Some(a) => spec_client_peak(
                beacon_standards(*raw),
                spec_channel_width(raw.ie_data@),
                beacon_features_base(*raw).spatial_streams,
                beacon_features_base(*raw).max_supported_width,
                beacon_features_base(*raw).guard_interval,
                a,
                spec_capabilities(raw.ie_data@).rates,
                raw.band,
            ),
            None => None,
        }),
{
    let bssid = raw.bssid_string();
    let parsed = parse_capabilities(raw.ie_data.as_slice());
    let (parsed_standards, features, protocols, security, security_details, bss_load, country_code, wps, supported_rates) = parsed;
    proof {
        lemma_texts_deep_view(parsed_standards);
    }
    let standards = normalize_standards_for_band(parsed_standards, raw.band);
    let channel_width = detect_channel_width(raw.ie_data.as_slice(), raw.channel, raw.band);
    let wifi_generation = detect_wifi_generation(standards.as_slice());
    let frequency = raw.frequency();
    let mut features = base_features(raw, features, &standards);
    let min_data_rate = calculate_min_rate(
        standards.as_slice(),
        channel_width,
        supported_rates.as_slice(),
    );
    let max_data_rate = calculate_max_rate(
        standards.as_slice(),
        channel_width,
        &features,
        supported_rates.as_slice(),
    );
    let peak_width = normalize_width_for_band(
        if features.max_supported_width > channel_width {
            features.max_supported_width
        } else {
            channel_width
        },
        raw.band,
    );
    let ap_peak_data_rate = calculate_max_rate(
        standards.as_slice(),
        peak_width,
        &features,
        supported_rates.as_slice(),
    );
    let (client_spatial_streams, client_peak_data_rate) = match &raw.local_adapter {
        Some(adapter) => (
            Some(client_streams(adapter, features.spatial_streams)),
            calculate_client_peak_data_rate(
                standards.as_slice(),
                channel_width,
                &features,
                adapter,
                supported_rates.as_slice(),
                raw.band,
            ),
        ),
        None => (None, None),
    };
    proof {
        lemma_max_rate_bound(
            texts(standards@),
            channel_width,
            features.spatial_streams,
            features.guard_interval,
            supported_rates@,
        );
    }
    features.max_data_rate = ((max_data_rate + 5) / 10) as u32;
    let ssid = match raw.ssid_string() {
        Some(s) => Some(s),
        None => parse_ssid_from_ie(raw.ie_data.as_slice()),
    };
    let mut vendor = lookup_vendor(bssid.as_str());
    if same_text(vendor.as_str(), "Unknown") || same_text(vendor.as_str(), "Locally Administered") {
        if let Some(ie_vendor) = lookup_vendor_from_ie(raw.ie_data.as_slice()) {
            vendor = ie_vendor;
        }
    }
    let is_hidden = ssid.is_none();
    Network {
        ssid,
        bssid,
        signal: raw.signal_dbm,
        noise: raw.noise_dbm,
        snr: raw.snr(),
        channel: raw.channel as u16,
        frequency,
        band: raw.band.as_str().to_owned(),
        connected: raw.connected,
        standards,
        wifi_generation,
        channel_width,
        center_channel: None,
        secondary_channel: None,
        features,
        min_rate_tenths: min_data_rate,
        max_rate_tenths: max_data_rate,
        ap_peak_rate_tenths: ap_peak_data_rate,
        security,
        security_details,
        protocols,
        bss_load,
        is_hidden,
        network_group_id: None,
        vendor,
        country_code,
        supported_rates,
        wps_enabled: wps,
        ap_mode: 0,
        capabilities: 0,
        beacon_interval: raw.beacon_interval,
        first_seen: raw.timestamp,
        last_seen: raw.timestamp,
        seen_age_secs: 0,
        ap_uptime_secs: match raw.uptime_ms {
            Some(u) => Some(u / 1000),
            None => None,
        },
        link_rates: raw.link_rates,
        local_adapter: match &raw.local_adapter {
            Some(a) => Some(a.copy()),
            None => None,
        },
        client_peak_rate_tenths: client_peak_data_rate,
        client_spatial_streams,
    }
}

} // verus!
