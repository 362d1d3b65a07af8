//! Properties that tie several functions of the library together.
use vstd::prelude::*;
use crate::parser::beacon::{
    allowed_standards, band_allows, common_upto, spec_common_standards, spec_standards_for_band,
    spec_width_for_band, standard_order,
};
use crate::analysis::{
    bands_of, counts, distinct_texts, group_key, groups_of, keys_of, lemma_distinct_texts,
    lemma_occurrences_absent, members, no_repeats, occurrences, securities_of, ssids_of,
    tally_view, NetworkGroup, ScanStats,
};
use crate::registry::{
    index_of, lemma_index_of, lemma_index_unique, registered, unique_names, unregistered, InfoModel,
};
use crate::scanner::libpcap::{
    bssid_pos, capture_kept, distinct_bssids, lemma_bssid_pos, lemma_bssid_pos_unique, spec_keep,
};
use crate::roaming::{spec_connection_changed, spec_roam_step, ConnectionSample, RoamTracker, WifiState};
use crate::scanner::iw::{spec_freq_to_channel, spec_parse_bssid};
use crate::scanner_core::{spec_signal_quality, Platform};
use crate::scanner::select::{normalized_name, spec_scanner_mode, ScannerMode};
use crate::parser::capabilities::{
    bss_load_step, caps_start, caps_step, caps_walk, ht_cap_step, rates_step, rm_step, rsn_step,
    spec_capabilities, vendor_step, vht_cap_step, CapsModel,
};
use crate::parser::phy::le16;
use crate::parser::width::{no_width_flags, spec_channel_width, width_step, width_walk};
use crate::parser::rsn::spec_parse_rsn;
use crate::parser::beacon::spec_max_rate;
use crate::parser::details::spec_parsed_ie;
use crate::scanner::iw::{iw_scan_step, IwScan};
use crate::text::{spec_decimal, spec_trim};
use crate::textscan::{occurs_in, starts_with};
use crate::types::BssLoad;
use crate::parser::elements::{elements, Element};
use crate::text::{
    all_hex_bytes, hex_byte_value, hex_digit, hex_digit_lower, hex_pairs, is_hex_byte, lower_hex,
    spec_hex_decode,
};
use vstd::utf8::{encode_utf8, is_ascii_chars, is_ascii_chars_encode_utf8};
use crate::textscan::{all_hex, hex_digit_value, hex_value, is_hex_digit, parse_hex_byte, plus_body, split_on};
use crate::types::{
    spec_band_from_channel, spec_band_from_frequency, spec_bssid_string, spec_channel_frequency,
    Band, Network, RawBeacon,
};
use crate::vendor::{hex_digits, hex_upper, is_hex_char, spec_lookup_vendor};

verus! {

// ============================================================================
// BSSID text
// ============================================================================

/// The two digits of byte `i` of a BSSID.
pub open spec fn bssid_pair(b: Seq<u8>, i: int) -> Seq<char> {
    seq![hex_digit(b[i] / 16), hex_digit(b[i] % 16)]
}

proof fn lemma_split_push_sep(s: Seq<char>, sep: char)
    ensures
        split_on(s.push(sep), sep) == split_on(s, sep).push(seq![]),
{
    assert(s.push(sep).drop_last() =~= s);
}

proof fn lemma_split_append_plain(s: Seq<char>, t: Seq<char>, sep: char)
    requires
        forall|i: int| 0 <= i < t.len() ==> t[i] != sep,
    ensures
        split_on(s + t, sep) == split_on(s, sep).update(
            split_on(s, sep).len() - 1,
            split_on(s, sep).last() + t,
        ),
    decreases t.len(),
{
    crate::textscan::lemma_split_on_nonempty_pub(s, sep);
    let p = split_on(s, sep);
    if t.len() == 0 {
        assert(s + t =~= s);
        assert(p.last() + t =~= p.last());
        assert(p.update(p.len() - 1, p.last()) =~= p);
    } else {
        let u = t.drop_last();
        lemma_split_append_plain(s, u, sep);
        assert((s + t).drop_last() =~= s + u);
        assert((s + t).last() == t.last());
        let q = split_on(s + u, sep);
        assert(q.last() == p.last() + u);
        assert((p.last() + u).push(t.last()) =~= p.last() + t);
        assert(q.update(q.len() - 1, q.last().push(t.last())) =~= p.update(
            p.len() - 1,
            p.last() + t,
        ));
    }
}

proof fn lemma_hex_digit_facts(d: u8)
    requires
        d < 16,
    ensures
        hex_digit(d) != ':',
        hex_digit(d) != '+',
        is_hex_digit(hex_digit(d)),
        hex_digit_value(hex_digit(d)) == d,
{
}

/// The text of a BSSID up to and including the digits of byte `k`.
proof fn lemma_bssid_prefix_split(b: Seq<u8>, k: int)
    requires
        b.len() == 6,
        0 <= k < 6,
    ensures
        split_on(spec_bssid_string(b).take(3 * k + 2), ':') == Seq::new(
            (k + 1) as nat,
            |i: int| bssid_pair(b, i),
        ),
    decreases k,
{
    let s = spec_bssid_string(b);
    lemma_hex_digit_facts(b[k] / 16);
    lemma_hex_digit_facts(b[k] % 16);
    let pair = bssid_pair(b, k);
    if k == 0 {
        let empty = Seq::<char>::empty();
        assert(s.take(2) =~= empty + pair);
        assert(split_on(empty, ':') == seq![empty]);
        lemma_split_append_plain(empty, pair, ':');
        assert(empty + pair =~= pair);
        assert(split_on(s.take(2), ':') =~= Seq::new(1, |i: int| bssid_pair(b, i)));
    } else {
        lemma_bssid_prefix_split(b, k - 1);
        let before = s.take(3 * (k - 1) + 2);
        assert(s.take(3 * k + 2) =~= before.push(':') + pair);
        lemma_split_push_sep(before, ':');
        lemma_split_append_plain(before.push(':'), pair, ':');
        assert(Seq::<char>::empty() + pair =~= pair);
        assert(split_on(s.take(3 * k + 2), ':') =~= Seq::new(
            (k + 1) as nat,
            |i: int| bssid_pair(b, i),
        ));
    }
}

/// The text of a BSSID reads back as the same BSSID.
pub proof fn law_bssid_text_reads_back(b: Seq<u8>)
    requires
        b.len() == 6,
    ensures
        spec_parse_bssid(spec_bssid_string(b)) == Some(b),
{
    let s = spec_bssid_string(b);
    lemma_bssid_prefix_split(b, 5);
    assert(s.take(17) =~= s);
    let f = split_on(s, ':');
    assert forall|i: int| 0 <= i < 6 implies #[trigger] parse_hex_byte(f[i]) == Some(b[i]) by {
        lemma_hex_digit_facts(b[i] / 16);
        lemma_hex_digit_facts(b[i] % 16);
        let p = f[i];
        assert(p == bssid_pair(b, i));
        assert(plus_body(p) == p);
        assert(all_hex(p));
        assert(p.drop_last().drop_last() =~= Seq::<char>::empty());
        assert(p.drop_last().last() == p[0]);
        assert(hex_value(Seq::<char>::empty()) == 0);
        assert(hex_value(p.drop_last().drop_last()) == 0);
        assert(hex_value(p.drop_last()) == hex_digit_value(p[0]));
        assert(hex_value(p) == (b[i] / 16) * 16 + b[i] % 16);
    }
    assert(Seq::new(6, |i: int| parse_hex_byte(f[i])->0) =~= b);
}

// ============================================================================
// Channels and frequencies
// ============================================================================

/// A 2.4 GHz channel from 1 to 13, or a 5 GHz channel from 34 to 165, goes
/// to its centre frequency and back, and both name the same band.  (2.4 GHz
/// channel 14, at 2484 MHz, reads back as 15.)
pub proof fn law_channel_frequency_round_trip(band: Band, ch: u8)
    requires
        (band == Band::Ghz2_4 && 1 <= ch <= 13) || (band == Band::Ghz5 && 34 <= ch <= 165),
    ensures
        spec_freq_to_channel(spec_channel_frequency(band, ch)) == ch,
        spec_band_from_frequency(spec_channel_frequency(band, ch)) == band,
        spec_band_from_channel(ch) == band,
{
}

// ============================================================================
// Signal quality
// ============================================================================

/// Signal quality never exceeds 100 percent and never falls as the signal
/// grows stronger.
pub proof fn law_signal_quality(weaker: i32, stronger: i32)
    requires
        weaker <= stronger,
    ensures
        spec_signal_quality(weaker) <= spec_signal_quality(stronger) <= 100,
{
    let a = weaker + 90;
    let b = stronger + 90;
    if 0 < a && b < 60 {
        assert(a * 100 / 60 <= b * 100 / 60) by (nonlinear_arith)
            requires
                0 < a <= b,
        ;
    }
    if 0 < b < 60 {
        assert(b * 100 / 60 < 100) by (nonlinear_arith)
            requires
                0 < b < 60,
        ;
    }
}

// ============================================================================
// Vendors
// ============================================================================

proof fn lemma_hex_digits_idempotent(s: Seq<char>)
    ensures
        hex_digits(hex_digits(s)) == hex_digits(s),
    decreases s.len(),
{
    if s.len() > 0 {
        let p = s.drop_last();
        lemma_hex_digits_idempotent(p);
        if is_hex_char(s.last()) {
            let h = hex_digits(p).push(hex_upper(s.last()));
            assert(h.drop_last() =~= hex_digits(p));
            assert(is_hex_char(hex_upper(s.last())));
            assert(hex_upper(hex_upper(s.last())) == hex_upper(s.last()));
        }
    }
}

/// Separators and letter case do not matter: a BSSID names the vendor that
/// its bare upper-case hexadecimal digits name.
pub proof fn law_vendor_by_digits(bssid: Seq<char>)
    ensures
        spec_lookup_vendor(bssid) == spec_lookup_vendor(hex_digits(bssid)),
{
    lemma_hex_digits_idempotent(bssid);
}

// ============================================================================
// Roaming
// ============================================================================

/// Whether the connection moved does not depend on the order of the two
/// states, and a state never moved from itself.
pub proof fn law_connection_change_symmetric(a: WifiState, b: WifiState)
    ensures
        spec_connection_changed(a, b) == spec_connection_changed(b, a),
        !spec_connection_changed(a, a),
{
}

// ============================================================================
// Counting
// ============================================================================

/// Total of the occurrences of each of `keys` among `items`.
pub open spec fn occurrence_total(keys: Seq<Seq<char>>, items: Seq<Seq<char>>) -> nat
    decreases keys.len(),
{
    if keys.len() == 0 {
        0
    } else {
        occurrence_total(keys.drop_last(), items) + occurrences(items, keys.last())
    }
}

/// Total of the counts of a tally.
pub open spec fn tally_total(t: Seq<(Seq<char>, nat)>) -> nat
    decreases t.len(),
{
    if t.len() == 0 {
        0
    } else {
        tally_total(t.drop_last()) + t.last().1
    }
}

proof fn lemma_occurrences_push(items: Seq<Seq<char>>, y: Seq<char>, k: Seq<char>)
    ensures
        occurrences(items.push(y), k) == occurrences(items, k) + if y == k {
            1nat
        } else {
            0nat
        },
{
    assert(items.push(y).drop_last() =~= items);
}

proof fn lemma_occurrence_total_push(keys: Seq<Seq<char>>, items: Seq<Seq<char>>, y: Seq<char>)
    ensures
        occurrence_total(keys, items.push(y)) == occurrence_total(keys, items) + occurrences(
            keys,
            y,
        ),
    decreases keys.len(),
{
    if keys.len() > 0 {
        lemma_occurrence_total_push(keys.drop_last(), items, y);
        lemma_occurrences_push(items, y, keys.last());
    }
}

proof fn lemma_occurrences_once(s: Seq<Seq<char>>, x: Seq<char>)
    requires
        no_repeats(s),
        s.contains(x),
    ensures
        occurrences(s, x) == 1,
    decreases s.len(),
{
    let p = s.drop_last();
    if s.last() == x {
        assert(!p.contains(x)) by {
            if p.contains(x) {
                let i = choose|i: int| 0 <= i < p.len() && p[i] == x;
                assert(s[i] == s[s.len() - 1]);
            }
        }
        lemma_occurrences_absent(p, x);
    } else {
        let i = choose|i: int| 0 <= i < s.len() && s[i] == x;
        assert(p[i] == x);
        lemma_occurrences_once(p, x);
    }
}

/// Each item is counted once under its distinct text.
proof fn lemma_distinct_total(items: Seq<Seq<char>>)
    ensures
        occurrence_total(distinct_texts(items), items) == items.len(),
    decreases items.len(),
{
    if items.len() > 0 {
        let p = items.drop_last();
        let y = items.last();
        let d = distinct_texts(p);
        lemma_distinct_total(p);
        lemma_distinct_texts(p);
        assert(p.push(y) =~= items);
        lemma_occurrence_total_push(d, p, y);
        if d.contains(y) {
            lemma_occurrences_once(d, y);
        } else {
            lemma_occurrences_absent(d, y);
            assert(d.push(y).drop_last() =~= d);
            lemma_occurrences_absent(p, y);
            lemma_occurrences_push(p, y, y);
        }
    }
}

proof fn lemma_tally_total_prefix(t: Seq<(Seq<char>, nat)>, items: Seq<Seq<char>>, k: int)
    requires
        counts(t, items),
        0 <= k <= t.len(),
    ensures
        tally_total(t.take(k)) == occurrence_total(distinct_texts(items).take(k), items),
    decreases k,
{
    if k > 0 {
        lemma_tally_total_prefix(t, items, k - 1);
        assert(t.take(k).drop_last() =~= t.take(k - 1));
        assert(distinct_texts(items).take(k).drop_last() =~= distinct_texts(items).take(k - 1));
        assert(t[k - 1].1 == occurrences(items, distinct_texts(items)[k - 1]));
    }
}

/// The counts of a tally add up to the number of items counted.
pub proof fn law_counts_add_up(t: Seq<(Seq<char>, nat)>, items: Seq<Seq<char>>)
    requires
        counts(t, items),
    ensures
        tally_total(t) == items.len(),
{
    lemma_tally_total_prefix(t, items, t.len() as int);
    assert(t.take(t.len() as int) =~= t);
    assert(distinct_texts(items).take(t.len() as int) =~= distinct_texts(items));
    lemma_distinct_total(items);
}

/// In the statistics of a scan, the networks by band and by security label
/// each add up to all networks, and there are no more named groups than
/// networks.
pub proof fn law_stats_add_up(stats: ScanStats, nets: Seq<Network>)
    requires
        stats.total_networks == nets.len(),
        stats.network_groups == distinct_texts(ssids_of(nets)).len(),
        counts(tally_view(stats.by_band@), bands_of(nets)),
        counts(tally_view(stats.by_security@), securities_of(nets)),
    ensures
        tally_total(tally_view(stats.by_band@)) == stats.total_networks,
        tally_total(tally_view(stats.by_security@)) == stats.total_networks,
        stats.network_groups <= stats.total_networks,
{
    law_counts_add_up(tally_view(stats.by_band@), bands_of(nets));
    law_counts_add_up(tally_view(stats.by_security@), securities_of(nets));
    lemma_distinct_texts(ssids_of(nets));
    lemma_ssids_len(nets);
}

proof fn lemma_ssids_len(nets: Seq<Network>)
    ensures
        ssids_of(nets).len() <= nets.len(),
    decreases nets.len(),
{
    if nets.len() > 0 {
        lemma_ssids_len(nets.drop_last());
    }
}

// ============================================================================
// Grouping
// ============================================================================

/// Total of the access points of the groups.
pub open spec fn ap_total(gs: Seq<NetworkGroup>) -> nat
    decreases gs.len(),
{
    if gs.len() == 0 {
        0
    } else {
        ap_total(gs.drop_last()) + gs.last().total_aps as nat
    }
}

proof fn lemma_members_count(nets: Seq<Network>, k: Seq<char>)
    ensures
        members(nets, k).len() == occurrences(keys_of(nets), k),
    decreases nets.len(),
{
    if nets.len() > 0 {
        let p = nets.drop_last();
        lemma_members_count(p, k);
        assert(keys_of(nets).drop_last() =~= keys_of(p));
        assert(keys_of(nets).last() == group_key(nets.last()));
    }
}

proof fn lemma_member_of_own_group(nets: Seq<Network>, j: int)
    requires
        0 <= j < nets.len(),
    ensures
        members(nets, group_key(nets[j])).contains(nets[j]),
    decreases nets.len(),
{
    let k = group_key(nets[j]);
    let p = nets.drop_last();
    if j == nets.len() - 1 {
        let m = members(p, k).push(nets.last());
        assert(m[m.len() - 1] == nets[j]);
    } else {
        assert(p[j] == nets[j]);
        lemma_member_of_own_group(p, j);
        let m = members(p, k);
        let i = choose|i: int| 0 <= i < m.len() && m[i] == nets[j];
        if group_key(nets.last()) == k {
            assert(m.push(nets.last())[i] == nets[j]);
        }
    }
}

proof fn lemma_ap_total_prefix(gs: Seq<NetworkGroup>, nets: Seq<Network>, k: int)
    requires
        groups_of(gs, nets),
        0 <= k <= gs.len(),
    ensures
        ap_total(gs.take(k)) == occurrence_total(
            distinct_texts(keys_of(nets)).take(k),
            keys_of(nets),
        ),
    decreases k,
{
    if k > 0 {
        lemma_ap_total_prefix(gs, nets, k - 1);
        let keys = distinct_texts(keys_of(nets));
        assert(gs.take(k).drop_last() =~= gs.take(k - 1));
        assert(keys.take(k).drop_last() =~= keys.take(k - 1));
        lemma_members_count(nets, keys[k - 1]);
    }
}

/// Grouping keeps every network: each is in the group of its name, the
/// groups have different names, and their access points add up to all
/// networks.
pub proof fn law_grouping_keeps_every_network(gs: Seq<NetworkGroup>, nets: Seq<Network>)
    requires
        groups_of(gs, nets),
    ensures
        ap_total(gs) == nets.len(),
        forall|i: int, j: int| 0 <= i < j < gs.len() ==> gs[i].ssid@ != gs[j].ssid@,
        forall|j: int|
            #![trigger nets[j]]
            0 <= j < nets.len() ==> exists|i: int|
                #![trigger gs[i]]
                0 <= i < gs.len() && gs[i].ssid@ == group_key(nets[j])
                    && gs[i].networks@.contains(nets[j]),
{
    let keys = distinct_texts(keys_of(nets));
    lemma_distinct_texts(keys_of(nets));
    lemma_ap_total_prefix(gs, nets, gs.len() as int);
    assert(gs.take(gs.len() as int) =~= gs);
    assert(keys.take(gs.len() as int) =~= keys);
    lemma_distinct_total(keys_of(nets));
    assert forall|i: int, j: int| 0 <= i < j < gs.len() implies gs[i].ssid@ != gs[j].ssid@ by {
        assert(gs[i].ssid@ == keys[i]);
        assert(gs[j].ssid@ == keys[j]);
    }
    assert forall|j: int| #![trigger nets[j]] 0 <= j < nets.len() implies exists|i: int|
        #![trigger gs[i]]
        0 <= i < gs.len() && gs[i].ssid@ == group_key(nets[j]) && gs[i].networks@.contains(
            nets[j],
        ) by {
        let k = group_key(nets[j]);
        assert(keys_of(nets)[j] == k);
        assert(keys_of(nets).contains(k));
        assert(keys.contains(k));
        let i = choose|i: int| 0 <= i < keys.len() && keys[i] == k;
        lemma_member_of_own_group(nets, j);
        assert(gs[i].networks@ == members(nets, k));
    }
}

// ============================================================================
// Standards and widths for a band
// ============================================================================

/// Capping a width for a band is settled after one step: capping again
/// changes nothing, and the result is never zero.
pub proof fn law_width_for_band_settles(width: u16, band: Band)
    ensures
        spec_width_for_band(spec_width_for_band(width, band), band) == spec_width_for_band(
            width,
            band,
        ),
        spec_width_for_band(width, band) > 0,
{
}

proof fn lemma_allowed_all(s: Seq<Seq<char>>, band: Band)
    requires
        forall|i: int| 0 <= i < s.len() ==> band_allows(band, #[trigger] s[i]),
    ensures
        allowed_standards(s, band) == s,
    decreases s.len(),
{
    if s.len() > 0 {
        lemma_allowed_all(s.drop_last(), band);
        assert(band_allows(band, s[s.len() - 1]));
        assert(s.drop_last().push(s.last()) =~= s);
    }
}

proof fn lemma_allowed_only(s: Seq<Seq<char>>, band: Band)
    ensures
        forall|i: int|
            0 <= i < allowed_standards(s, band).len() ==> band_allows(
                band,
                #[trigger] allowed_standards(s, band)[i],
            ),
    decreases s.len(),
{
    if s.len() > 0 {
        let p = s.drop_last();
        lemma_allowed_only(p, band);
        let a = allowed_standards(p, band);
        let r = allowed_standards(s, band);
        assert forall|i: int| 0 <= i < r.len() implies band_allows(band, #[trigger] r[i]) by {
            if i < a.len() {
                assert(r[i] == a[i]);
            }
        }
    }
}

/// Keeping the standards a band can carry is settled after one step: the
/// result is never empty, the band can carry all of it, and keeping again
/// changes nothing.
pub proof fn law_standards_for_band_settle(s: Seq<Seq<char>>, band: Band)
    ensures
        spec_standards_for_band(s, band).len() > 0,
        forall|i: int|
            0 <= i < spec_standards_for_band(s, band).len() ==> band_allows(
                band,
                #[trigger] spec_standards_for_band(s, band)[i],
            ),
        spec_standards_for_band(spec_standards_for_band(s, band), band) == spec_standards_for_band(
            s,
            band,
        ),
{
    lemma_allowed_only(s, band);
    let r = spec_standards_for_band(s, band);
    assert forall|i: int| 0 <= i < r.len() implies band_allows(band, #[trigger] r[i]) by {
        if allowed_standards(s, band).len() == 0 {
            assert(r[i] == crate::parser::beacon::band_default_standard(band));
        }
    }
    lemma_allowed_all(r, band);
}

proof fn lemma_common_upto_symmetric(a: Seq<Seq<char>>, b: Seq<Seq<char>>, k: int)
    ensures
        common_upto(a, b, k) == common_upto(b, a, k),
        forall|i: int|
            0 <= i < common_upto(a, b, k).len() ==> a.contains(#[trigger] common_upto(a, b, k)[i])
                && b.contains(common_upto(a, b, k)[i]),
    decreases k,
{
    if k > 0 {
        lemma_common_upto_symmetric(a, b, k - 1);
        let c = common_upto(a, b, k - 1);
        let x = standard_order()[k - 1];
        let r = common_upto(a, b, k);
        assert forall|i: int| 0 <= i < r.len() implies a.contains(#[trigger] r[i]) && b.contains(
            r[i],
        ) by {
            if i >= c.len() {
                assert(r[i] == x);
            } else {
                assert(r[i] == c[i]);
            }
        }
    }
}

/// The standards two stations have in common do not depend on which is
/// named first, and both hold each of them.
pub proof fn law_common_standards_symmetric(ap: Seq<Seq<char>>, adapter: Seq<Seq<char>>)
    ensures
        spec_common_standards(ap, adapter) == spec_common_standards(adapter, ap),
        forall|i: int|
            0 <= i < spec_common_standards(ap, adapter).len() ==> ap.contains(
                #[trigger] spec_common_standards(ap, adapter)[i],
            ) && adapter.contains(spec_common_standards(ap, adapter)[i]),
{
    lemma_common_upto_symmetric(ap, adapter, 7);
}

// ============================================================================
// Hexadecimal text
// ============================================================================

/// Bytes written as hexadecimal decode back to the same bytes.
pub proof fn law_hex_round_trip(bytes: Seq<u8>)
    ensures
        spec_hex_decode(encode_utf8(lower_hex(bytes))) == Ok::<Seq<u8>, crate::text::HexError>(
            bytes,
        ),
{
    let chars = lower_hex(bytes);
    assert forall|i: int| 0 <= i < chars.len() implies '\0' <= #[trigger] chars[i] <= '\u{7f}' by {
        let x = bytes[i / 2];
        assert(x / 16 < 16 && x % 16 < 16);
    }
    assert(is_ascii_chars(chars));
    is_ascii_chars_encode_utf8(chars);
    let b = encode_utf8(chars);
    assert(b.len() == 2 * bytes.len());
    assert forall|i: int| 0 <= i < b.len() implies is_hex_byte(#[trigger] b[i]) by {
        assert(b[i] == chars[i] as u8);
    }
    assert(all_hex_bytes(b));
    assert(b.len() % 2 == 0);
    assert forall|i: int| 0 <= i < bytes.len() implies #[trigger] hex_pairs(b)[i] == bytes[i] by {
        let x = bytes[i];
        assert(b[2 * i] == chars[2 * i] as u8);
        assert(b[2 * i + 1] == chars[2 * i + 1] as u8);
        assert((2 * i) / 2 == i);
        assert((2 * i + 1) / 2 == i);
        assert((2 * i) % 2 == 0);
        assert((2 * i + 1) % 2 == 1);
        assert(hex_byte_value(hex_digit_lower(x / 16) as u8) == x / 16);
        assert(hex_byte_value(hex_digit_lower(x % 16) as u8) == x % 16);
    }
    assert(hex_pairs(b) =~= bytes);
}

// ============================================================================
// The scanner registry
// ============================================================================

/// A registered scanner is found under its name, with its report; the
/// registry grows by one exactly when the name is new, and names stay
/// unique.
pub proof fn law_register_then_get<S>(e: Seq<(S, InfoModel)>, s: S, i: InfoModel)
    requires
        unique_names(e),
    ensures
        index_of(registered(e, s, i), i.name) >= 0,
        registered(e, s, i)[index_of(registered(e, s, i), i.name)] == (s, i),
        registered(e, s, i).len() == e.len() + if index_of(e, i.name) >= 0 {
            0int
        } else {
            1int
        },
        unique_names(registered(e, s, i)),
{
    lemma_index_of(e, i.name);
    let r = registered(e, s, i);
    if index_of(e, i.name) >= 0 {
        let k = index_of(e, i.name);
        assert forall|a: int, b: int| 0 <= a < b < r.len() implies r[a].1.name != r[b].1.name by {
            if a != k && b != k {
                assert(r[a] == e[a] && r[b] == e[b]);
            } else if a == k {
                assert(r[b] == e[b]);
            } else {
                assert(r[a] == e[a]);
            }
        }
        lemma_index_unique(r, k);
    } else {
        assert forall|a: int, b: int| 0 <= a < b < r.len() implies r[a].1.name != r[b].1.name by {
            assert(r[a] == e[a]);
            if b < e.len() {
                assert(r[b] == e[b]);
            }
        }
        lemma_index_unique(r, e.len() as int);
    }
}

/// After a name is unregistered no scanner is found under it, and the
/// registry shrinks by one exactly when there was one.
pub proof fn law_unregister_then_get<S>(e: Seq<(S, InfoModel)>, name: Seq<char>)
    requires
        unique_names(e),
    ensures
        index_of(unregistered(e, name), name) < 0,
        unregistered(e, name).len() == e.len() - if index_of(e, name) >= 0 {
            1int
        } else {
            0int
        },
{
    lemma_index_of(e, name);
    let r = unregistered(e, name);
    lemma_index_of(r, name);
    if index_of(e, name) >= 0 {
        let k = index_of(e, name);
        if index_of(r, name) >= 0 {
            let j = index_of(r, name);
            let j0 = if j < k { j } else { j + 1 };
            assert(r[j] == e[j0]);
            assert(e[j0].1.name == e[k].1.name);
        }
    }
}

// ============================================================================
// Beacon capture
// ============================================================================

/// One kept beacon: BSSIDs stay distinct, what was covered stays covered
/// with no less IE data, the new beacon is covered, and nothing else comes
/// in.
proof fn lemma_keep_step(c: Seq<RawBeacon>, x: RawBeacon)
    requires
        distinct_bssids(c),
    ensures
        distinct_bssids(spec_keep(c, x)),
        forall|k: int|
            #![trigger c[k]]
            0 <= k < c.len() ==> k < spec_keep(c, x).len() && spec_keep(c, x)[k].bssid@
                == c[k].bssid@ && spec_keep(c, x)[k].ie_data@.len() >= c[k].ie_data@.len(),
        exists|k: int|
            0 <= k < spec_keep(c, x).len() && spec_keep(c, x)[k].bssid@ == x.bssid@
                && spec_keep(c, x)[k].ie_data@.len() >= x.ie_data@.len(),
        forall|k: int|
            0 <= k < spec_keep(c, x).len() ==> spec_keep(c, x)[k] == x || (k < c.len()
                && spec_keep(c, x)[k] == c[k]),
{
    lemma_bssid_pos(c, x.bssid@);
    let i = bssid_pos(c, x.bssid@);
    let c2 = spec_keep(c, x);
    assert forall|a: int, b: int| 0 <= a < b < c2.len() implies c2[a].bssid@ != c2[b].bssid@ by {
        if i >= 0 {
            assert(c2[a].bssid@ == c[a].bssid@ && c2[b].bssid@ == c[b].bssid@);
        } else if b < c.len() {
            assert(c2[a] == c[a] && c2[b] == c[b]);
        } else {
            assert(c2[a] == c[a]);
        }
    }
    if i >= 0 {
        assert(c2[i].bssid@ == x.bssid@ && c2[i].ie_data@.len() >= x.ie_data@.len());
    } else {
        assert(c2[c.len() as int] == x);
    }
}

/// Every captured beacon's BSSID is covered after the capture, by a kept
/// beacon with at least as much IE data.
proof fn lemma_capture_covers(s: Seq<RawBeacon>)
    ensures
        distinct_bssids(capture_kept(s)),
        forall|j: int|
            #![trigger s[j]]
            0 <= j < s.len() ==> exists|k: int|
                #![trigger capture_kept(s)[k]]
                0 <= k < capture_kept(s).len() && capture_kept(s)[k].bssid@ == s[j].bssid@
                    && capture_kept(s)[k].ie_data@.len() >= s[j].ie_data@.len(),
    decreases s.len(),
{
    if s.len() > 0 {
        let p = s.drop_last();
        let x = s.last();
        lemma_capture_covers(p);
        let c = capture_kept(p);
        let c2 = capture_kept(s);
        assert(c2 == spec_keep(c, x));
        lemma_keep_step(c, x);
        assert forall|j: int| #![trigger s[j]] 0 <= j < s.len() implies exists|k: int|
            #![trigger c2[k]]
            0 <= k < c2.len() && c2[k].bssid@ == s[j].bssid@ && c2[k].ie_data@.len()
                >= s[j].ie_data@.len() by {
            if j == s.len() - 1 {
                let k = choose|k: int|
                    0 <= k < c2.len() && c2[k].bssid@ == x.bssid@ && c2[k].ie_data@.len()
                        >= x.ie_data@.len();
                assert(c2[k].bssid@ == s[j].bssid@);
            } else {
                assert(p[j] == s[j]);
                let k = choose|k: int|
                    #![trigger c[k]]
                    0 <= k < c.len() && c[k].bssid@ == p[j].bssid@ && c[k].ie_data@.len()
                        >= p[j].ie_data@.len();
                assert(c2[k].bssid@ == c[k].bssid@);
            }
        }
    }
}

/// Every kept beacon after a capture is one of the captured beacons.
proof fn lemma_capture_from_input(s: Seq<RawBeacon>)
    ensures
        forall|k: int|
            #![trigger capture_kept(s)[k]]
            0 <= k < capture_kept(s).len() ==> exists|j: int|
                #![trigger s[j]]
                0 <= j < s.len() && capture_kept(s)[k] == s[j],
    decreases s.len(),
{
    if s.len() > 0 {
        let p = s.drop_last();
        let x = s.last();
        lemma_capture_from_input(p);
        lemma_capture_covers(p);
        let c = capture_kept(p);
        let c2 = capture_kept(s);
        assert(c2 == spec_keep(c, x));
        lemma_keep_step(c, x);
        assert forall|k: int| #![trigger c2[k]] 0 <= k < c2.len() implies exists|j: int|
            #![trigger s[j]]
            0 <= j < s.len() && c2[k] == s[j] by {
            if c2[k] == x {
                assert(s[s.len() - 1] == x);
            } else {
                assert(c2[k] == c[k]);
                let j = choose|j: int| #![trigger p[j]] 0 <= j < p.len() && c[k] == p[j];
                assert(s[j] == p[j]);
            }
        }
    }
}

/// After a capture, every BSSID seen has one kept beacon, with at least as
/// much IE data as any beacon captured for it, and every kept beacon was
/// captured.
pub proof fn law_capture_keeps_richest(s: Seq<RawBeacon>)
    ensures
        distinct_bssids(capture_kept(s)),
        forall|j: int|
            #![trigger s[j]]
            0 <= j < s.len() ==> exists|k: int|
                #![trigger capture_kept(s)[k]]
                0 <= k < capture_kept(s).len() && capture_kept(s)[k].bssid@ == s[j].bssid@
                    && capture_kept(s)[k].ie_data@.len() >= s[j].ie_data@.len(),
        forall|k: int|
            #![trigger capture_kept(s)[k]]
            0 <= k < capture_kept(s).len() ==> exists|j: int|
                #![trigger s[j]]
                0 <= j < s.len() && capture_kept(s)[k] == s[j],
{
    lemma_capture_covers(s);
    lemma_capture_from_input(s);
}

// ============================================================================
// Capabilities
// ============================================================================

/// `a` is a list of whole elements: a walk over it reads every byte.
pub open spec fn complete_elements(a: Seq<u8>) -> bool
    decreases a.len(),
{
    a.len() == 0 || (a.len() >= 2 && 2 + a[1] <= a.len() && complete_elements(
        a.subrange(2 + a[1] as int, a.len() as int),
    ))
}

/// An element id that the capability parser reads.
pub open spec fn capability_id(id: u8) -> bool {
    id == 1 || id == 7 || id == 11 || id == 45 || id == 48 || id == 50 || id == 61 || id == 70
        || id == 127 || id == 191 || id == 192 || id == 221 || id == 255
}

/// A tail that holds no whole element: one byte, or a header announcing a
/// body longer than what follows.
pub open spec fn truncated_element(t: Seq<u8>) -> bool {
    t.len() == 1 || (t.len() >= 2 && 2 + t[1] > t.len())
}

/// Whole elements followed by anything are walked as those elements and
/// then the rest.
proof fn lemma_elements_concat(a: Seq<u8>, b: Seq<u8>)
    requires
        complete_elements(a),
    ensures
        elements(a + b) == elements(a) + elements(b),
    decreases a.len(),
{
    if a.len() == 0 {
        assert(a + b =~= b);
        assert(elements(a) + elements(b) =~= elements(b));
    } else {
        let l = a[1] as int;
        let ab = a + b;
        let ra = a.subrange(2 + l, a.len() as int);
        assert(ab[0] == a[0] && ab[1] == a[1]);
        assert(ab.subrange(2, 2 + l) =~= a.subrange(2, 2 + l));
        assert(ab.subrange(2 + l, ab.len() as int) =~= ra + b);
        lemma_elements_concat(ra, b);
        assert(elements(ab) =~= elements(a) + elements(b));
    }
}

/// Walking two lists of elements one after the other.
proof fn lemma_walk_concat(s: CapsModel, x: Seq<Element>, y: Seq<Element>)
    ensures
        caps_walk(s, x + y) == caps_walk(caps_walk(s, x), y),
    decreases x.len(),
{
    if x.len() == 0 {
        assert(x + y =~= y);
    } else {
        assert((x + y).drop_first() =~= x.drop_first() + y);
        lemma_walk_concat(caps_step(s, x[0]), x.drop_first(), y);
    }
}

/// Parsing capabilities ignores an element of an id it does not read, and a
/// truncated element at the end: after whole elements `a`, inserting such an
/// element `e` before any bytes `b` changes nothing, nor does ending with a
/// truncated tail `t`.
pub proof fn law_capabilities_ignore_unrelated(a: Seq<u8>, e: Seq<u8>, b: Seq<u8>, t: Seq<u8>)
    requires
        complete_elements(a),
        e.len() >= 2,
        e.len() == 2 + e[1],
        !capability_id(e[0]),
        truncated_element(t),
    ensures
        spec_capabilities(a + e + b) == spec_capabilities(a + b),
        spec_capabilities(a + t) == spec_capabilities(a),
{
    let x = e.subrange(2, e.len() as int);
    let eb = e + b;
    assert(eb[0] == e[0] && eb[1] == e[1]);
    assert(eb.subrange(2, 2 + e[1] as int) =~= x);
    assert(eb.subrange(2 + e[1] as int, eb.len() as int) =~= b);
    assert(elements(eb) == seq![(e[0], x)] + elements(b));
    assert(a + e + b =~= a + eb);
    lemma_elements_concat(a, eb);
    lemma_elements_concat(a, b);
    let s = caps_walk(crate::parser::capabilities::caps_start(), elements(a));
    assert(elements(a) + (seq![(e[0], x)] + elements(b)) =~= (elements(a) + seq![(e[0], x)])
        + elements(b));
    lemma_walk_concat(
        crate::parser::capabilities::caps_start(),
        elements(a) + seq![(e[0], x)],
        elements(b),
    );
    lemma_walk_concat(crate::parser::capabilities::caps_start(), elements(a), seq![(e[0], x)]);
    assert(caps_step(s, (e[0], x)) == s);
    assert(seq![(e[0], x)].drop_first() =~= Seq::<Element>::empty());
    assert(caps_walk(s, Seq::<Element>::empty()) == s);
    assert(seq![(e[0], x)][0] == (e[0], x));
    assert(caps_walk(s, seq![(e[0], x)]) == caps_walk(caps_step(s, (e[0], x)), Seq::<Element>::empty()));
    assert(caps_walk(s, seq![(e[0], x)]) == s);
    lemma_walk_concat(crate::parser::capabilities::caps_start(), elements(a), elements(b));
    assert(elements(t) == Seq::<Element>::empty());
    lemma_elements_concat(a, t);
    assert(elements(a) + elements(t) =~= elements(a));
}

// ============================================================================
// Scanner mode
// ============================================================================

/// The scanner mode depends on the name only once trimmed and in ASCII lower
/// case; on Windows every name gives the default mode.
pub proof fn law_scanner_mode_by_normalized_name(
    a: Seq<char>,
    b: Seq<char>,
    platform: Platform,
    libpcap_built: bool,
)
    requires
        normalized_name(a) == normalized_name(b),
    ensures
        spec_scanner_mode(a, platform, libpcap_built) == spec_scanner_mode(b, platform, libpcap_built),
        spec_scanner_mode(a, Platform::Windows, libpcap_built) == ScannerMode::Default,
{
}

// ============================================================================
// Element contents
// ============================================================================

/// A little-endian pair of bytes is the low byte plus 256 times the high.
proof fn lemma_le16(lo: u8, hi: u8)
    ensures
        le16(lo, hi) == lo + 256 * hi,
{
    assert((lo as u16) | ((hi as u16) << 8u16) == lo as u16 + 256 * (hi as u16)) by (bit_vector);
}

/// After any whole elements, a BSS Load element of at least 5 bytes reports
/// its station count as the little-endian number in body bytes 0-1, the
/// channel utilization as byte 2 and the available capacity as the
/// little-endian number in bytes 3-4.
pub proof fn law_bss_load_read(a: Seq<u8>, body: Seq<u8>)
    requires
        complete_elements(a),
        5 <= body.len() <= 255,
    ensures
        spec_capabilities(a + (seq![11u8, body.len() as u8] + body)).bss_load matches Some(l) && l.station_count
            == body[0] + 256 * body[1] && l.channel_utilization == body[2] && l.available_capacity
            == body[3] + 256 * body[4],
{
    let e = seq![11u8, body.len() as u8] + body;
    assert(e[0] == 11u8 && e[1] == body.len() as u8);
    assert(e.subrange(2, 2 + e[1] as int) =~= body);
    assert(e.subrange(2 + e[1] as int, e.len() as int) =~= Seq::<u8>::empty());
    assert(elements(Seq::<u8>::empty()) == Seq::<Element>::empty());
    assert(elements(e) =~= seq![(11u8, body)]);
    lemma_elements_concat(a, e);
    let s = caps_walk(caps_start(), elements(a));
    lemma_walk_concat(caps_start(), elements(a), seq![(11u8, body)]);
    assert(seq![(11u8, body)].drop_first() =~= Seq::<Element>::empty());
    assert(caps_walk(caps_step(s, (11u8, body)), Seq::<Element>::empty()) == caps_step(s, (11u8, body)));
    assert(caps_walk(s, seq![(11u8, body)]) == caps_step(s, (11u8, body)));
    reveal(bss_load_step);
    lemma_le16(body[0], body[1]);
    lemma_le16(body[3], body[4]);
}

/// The first AKM suite of an RSN element decides the network's type and
/// method: 802.1X (type 1) is WPA2-Enterprise with EAP, SAE (type 4) is
/// WPA3 with SAE, and 802.1X Suite B (type 8) is WPA3-Enterprise with EAP.
/// The AKM list starts after the version, group suite and pairwise list:
/// at byte 8 + 4 * (pairwise count), and its first suite's type is 5 bytes
/// further on.
pub proof fn law_rsn_first_akm_decides(d: Seq<u8>)
    requires
        d.len() >= 8,
        8 + 4 * (d[6] + 256 * d[7]) + 6 <= d.len(),
    ensures
        ({
            let t = d[8 + 4 * (d[6] + 256 * d[7]) + 5];
            let (sec, m) = spec_parse_rsn(d);
            &&& t == 1 ==> sec == "wpa2-ent"@ && m.security_type == "wpa2-ent"@ && m.auth_method
                == "eap"@ && m.is_enterprise
            &&& t == 4 ==> sec == "wpa3"@ && m.auth_method == "sae"@ && !m.is_enterprise
            &&& t == 8 ==> sec == "wpa3-ent"@ && m.auth_method == "eap"@ && m.is_enterprise
        }),
{
    lemma_le16(d[6], d[7]);
}

/// Inside a BSS block of `iw` scan output, an "HE capabilities:" line marks
/// the block's beacon as HE (WiFi 6) and changes nothing else: the beacon's
/// other values (EHT among them), its elements and the finished beacons
/// stay as they were.  (A line that also holds "primary channel:" or
/// "Supported rates:" is read for those first.)
pub proof fn law_iw_he_line_marks_he(st: IwScan, line: Seq<char>, now: u64)
    requires
        st.current is Some,
        starts_with(spec_trim(line), "HE capabilities:"@),
        !occurs_in(spec_trim(line), "primary channel:"@),
        !occurs_in(spec_trim(line), "Supported rates:"@),
    ensures
        ({
            let b = st.current->0;
            let next = iw_scan_step(st, line, now);
            &&& next.current matches Some(b2) && b2.has_he && b2.has_eht == b.has_eht
                && crate::types::BeaconModel { has_he: b.has_he, ..b2 } == b
            &&& next.ie == st.ie
            &&& next.done == st.done
        }),
{
    let t = spec_trim(line);
    reveal_strlit("HE capabilities:");
    reveal_strlit("BSS ");
    reveal_strlit("SSID:");
    reveal_strlit("freq:");
    reveal_strlit("signal:");
    reveal_strlit("beacon interval:");
    reveal_strlit("HT capabilities:");
    reveal_strlit("VHT capabilities:");
    assert(t.subrange(0, 16) == "HE capabilities:"@);
    assert(t[0] == t.subrange(0, 16)[0]);
    assert(t[1] == t.subrange(0, 16)[1]);
    assert(t[0] == 'H' && t[1] == 'E');
    assert(!starts_with(t, "BSS "@)) by {
        if starts_with(t, "BSS "@) {
            assert(t.subrange(0, 4)[0] == t[0]);
        }
    }
    assert(!starts_with(t, "SSID:"@)) by {
        if starts_with(t, "SSID:"@) {
            assert(t.subrange(0, 5)[0] == t[0]);
        }
    }
    assert(!starts_with(t, "freq:"@)) by {
        if starts_with(t, "freq:"@) {
            assert(t.subrange(0, 5)[0] == t[0]);
        }
    }
    assert(!starts_with(t, "signal:"@)) by {
        if starts_with(t, "signal:"@) {
            assert(t.subrange(0, 7)[0] == t[0]);
        }
    }
    assert(!starts_with(t, "beacon interval:"@)) by {
        if starts_with(t, "beacon interval:"@) {
            assert(t.subrange(0, 16)[0] == t[0]);
        }
    }
    assert(!starts_with(t, "HT capabilities:"@)) by {
        if starts_with(t, "HT capabilities:"@) {
            assert(t.subrange(0, 16)[1] == t[1]);
        }
    }
    assert(!starts_with(t, "VHT capabilities:"@)) by {
        if starts_with(t, "VHT capabilities:"@) {
            assert(t.subrange(0, 17)[0] == t[0]);
        }
    }
}

/// For an access point with an 802.11ac, ax or be standard, the highest data
/// rate (in tenths of Mbps) is its number of spatial streams (at least one)
/// times the single-stream rate of the top MCS at the channel width: 143.4
/// Mbps at 20 MHz, 286.8 at 40, 600.5 at 80, 1201.0 at 160 and 2402.0 at
/// 320 MHz.  So it grows in proportion to the streams.
pub proof fn law_max_rate_scales_with_streams(
    standards: Seq<Seq<char>>,
    width: u16,
    streams: u8,
    guard_interval: u16,
    rates: Seq<u32>,
)
    requires
        standards.contains("ac"@) || standards.contains("ax"@) || standards.contains("be"@),
    ensures
        spec_max_rate(standards, width, streams, guard_interval, rates) == (if streams > 1 {
            streams as int
        } else {
            1
        }) * (if width == 40 {
            2868int
        } else if width == 80 {
            6005int
        } else if width == 160 {
            12010int
        } else if width == 320 {
            24020int
        } else {
            1434int
        }),
{
}

/// The description of a VHT Operation element (id 192, at least 3 bytes)
/// names its operating width by byte 0 (1: 80 MHz, 2: 160 MHz, 3: 80+80 MHz,
/// else 20/40 MHz), both as its first, highlighted field and at the start
/// of its summary, which goes on with the centre segment in byte 1.
pub proof fn law_vht_operation_width_named(d: Seq<u8>)
    requires
        d.len() >= 3,
    ensures
        ({
            let p = spec_parsed_ie((192u8, d));
            let w = if d[0] == 1 {
                "80 MHz"@
            } else if d[0] == 2 {
                "160 MHz"@
            } else if d[0] == 3 {
                "80+80 MHz"@
            } else {
                "20/40 MHz"@
            };
            &&& p.display_fields.len() == 3
            &&& p.display_fields[0].label == "Operating width"@
            &&& p.display_fields[0].value == w
            &&& p.display_fields[0].highlighted
            &&& p.summary == w + " operation, center segment "@ + spec_decimal(d[1] as u64)
        }),
{
}

/// For an access point with 802.11n but no ac, ax or be standard, the
/// highest data rate (in tenths of Mbps) is its number of spatial streams
/// (at least one) times the MCS 7 rate of one stream: 150.0 Mbps at 40 MHz
/// with the short (400 ns) guard interval, 135.0 at 40 MHz otherwise, 72.2
/// at 20 MHz with the short guard interval and 65.0 otherwise.
pub proof fn law_max_rate_ht(
    standards: Seq<Seq<char>>,
    width: u16,
    streams: u8,
    guard_interval: u16,
    rates: Seq<u32>,
)
    requires
        !(standards.contains("ac"@) || standards.contains("ax"@) || standards.contains("be"@)),
        standards.contains("n"@),
    ensures
        spec_max_rate(standards, width, streams, guard_interval, rates) == (if streams > 1 {
            streams as int
        } else {
            1
        }) * (if width == 40 && guard_interval == 400 {
            1500int
        } else if width == 40 {
            1350int
        } else if guard_interval == 400 {
            722int
        } else {
            650int
        }),
{
}

/// Inside a BSS block of `iw` scan output, each capability line marks the
/// block's beacon with its own standard and changes nothing else: "HT
/// capabilities:" sets HT, "VHT capabilities:" VHT and "EHT capabilities:"
/// EHT.  (A line that also holds "primary channel:" or "Supported rates:"
/// is read for those first.)
pub proof fn law_iw_capability_lines(st: IwScan, line: Seq<char>, now: u64)
    requires
        st.current is Some,
        !occurs_in(spec_trim(line), "primary channel:"@),
        !occurs_in(spec_trim(line), "Supported rates:"@),
    ensures
        ({
            let b = st.current->0;
            let t = spec_trim(line);
            let next = iw_scan_step(st, line, now);
            &&& starts_with(t, "HT capabilities:"@) ==> (next.current matches Some(b2) && b2.has_ht
                && crate::types::BeaconModel { has_ht: b.has_ht, ..b2 } == b && next.ie == st.ie)
            &&& starts_with(t, "VHT capabilities:"@) ==> (next.current matches Some(b2) && b2.has_vht
                && crate::types::BeaconModel { has_vht: b.has_vht, ..b2 } == b && next.ie == st.ie)
            &&& starts_with(t, "EHT capabilities:"@) ==> (next.current matches Some(b2) && b2.has_eht
                && crate::types::BeaconModel { has_eht: b.has_eht, ..b2 } == b && next.ie == st.ie)
        }),
{
    let t = spec_trim(line);
    reveal_strlit("BSS ");
    reveal_strlit("SSID:");
    reveal_strlit("freq:");
    reveal_strlit("signal:");
    reveal_strlit("beacon interval:");
    reveal_strlit("HT capabilities:");
    reveal_strlit("VHT capabilities:");
    reveal_strlit("HE capabilities:");
    reveal_strlit("EHT capabilities:");
    if starts_with(t, "HT capabilities:"@) {
        assert(t[0] == t.subrange(0, 16)[0] && t[1] == t.subrange(0, 16)[1]);
        lemma_not_prefix(t, "BSS "@, 0);
        lemma_not_prefix(t, "SSID:"@, 0);
        lemma_not_prefix(t, "freq:"@, 0);
        lemma_not_prefix(t, "signal:"@, 0);
        lemma_not_prefix(t, "beacon interval:"@, 0);
    }
    if starts_with(t, "VHT capabilities:"@) {
        assert(t[0] == t.subrange(0, 17)[0]);
        lemma_not_prefix(t, "BSS "@, 0);
        lemma_not_prefix(t, "SSID:"@, 0);
        lemma_not_prefix(t, "freq:"@, 0);
        lemma_not_prefix(t, "signal:"@, 0);
        lemma_not_prefix(t, "beacon interval:"@, 0);
        lemma_not_prefix(t, "HT capabilities:"@, 0);
    }
    if starts_with(t, "EHT capabilities:"@) {
        assert(t[0] == t.subrange(0, 17)[0] && t[1] == t.subrange(0, 17)[1]);
        lemma_not_prefix(t, "BSS "@, 0);
        lemma_not_prefix(t, "SSID:"@, 0);
        lemma_not_prefix(t, "freq:"@, 0);
        lemma_not_prefix(t, "signal:"@, 0);
        lemma_not_prefix(t, "beacon interval:"@, 0);
        lemma_not_prefix(t, "HT capabilities:"@, 1);
        lemma_not_prefix(t, "VHT capabilities:"@, 0);
        lemma_not_prefix(t, "HE capabilities:"@, 1);
    }
}

/// A text does not start with a prefix whose character at `k` differs from
/// the text's.
proof fn lemma_not_prefix(t: Seq<char>, p: Seq<char>, k: int)
    requires
        0 <= k < p.len(),
        k < t.len(),
        t[k] != p[k],
    ensures
        !starts_with(t, p),
{
    if starts_with(t, p) {
        assert(t.subrange(0, p.len() as int)[k] == t[k]);
    }
}

/// More of what an RSN element says, over any element of at least 8 bytes
/// whose AKM count fits: the group cipher is named by byte 5 (2: TKIP,
/// 4: CCMP, 8: GCMP); a first AKM suite of type 2 (PSK) gives WPA3/SAE
/// exactly when SAE is also listed and WPA2/PSK otherwise, and is not
/// enterprise; where the capabilities field follows the announced suites,
/// PMF capable is its bit 7 and PMF required its bit 8.
pub proof fn law_rsn_fields(d: Seq<u8>)
    requires
        d.len() >= 8,
        8 + 4 * (d[6] + 256 * d[7]) + 6 <= d.len(),
    ensures
        ({
            let ao = 8 + 4 * (d[6] + 256 * d[7]);
            let t = d[ao + 5];
            let co = ao + 2 + 4 * (d[ao] + 256 * d[ao + 1]);
            let (sec, m) = spec_parse_rsn(d);
            &&& d[5] == 2 ==> m.cipher == "tkip"@
            &&& d[5] == 4 ==> m.cipher == "ccmp"@
            &&& d[5] == 8 ==> m.cipher == "gcmp"@
            &&& m.group_cipher == Some(m.cipher)
            &&& t == 2 && m.sae ==> sec == "wpa3"@ && m.auth_method == "sae"@
            &&& t == 2 && !m.sae ==> sec == "wpa2"@ && m.auth_method == "psk"@
            &&& t == 2 ==> !m.is_enterprise
            &&& sec == m.security_type
            &&& co + 2 <= d.len() ==> m.pmf_capable == (d[co] & 0x80 != 0) && m.pmf_required == (
            d[co + 1] & 0x01 != 0)
            &&& co + 2 > d.len() ==> !m.pmf_capable && !m.pmf_required
        }),
{
    lemma_le16(d[6], d[7]);
    let ao = 8 + 4 * (d[6] + 256 * d[7]);
    lemma_le16(d[ao], d[ao + 1]);
    let co = ao + 2 + 4 * (d[ao] + 256 * d[ao + 1]);
    if co + 2 <= d.len() {
        let lo = d[co];
        let hi = d[co + 1];
        lemma_le16(lo, hi);
        assert(((lo as u16) | ((hi as u16) << 8u16)) & 0x0080u16 != 0 <==> lo & 0x80u8 != 0)
            by (bit_vector);
        assert(((lo as u16) | ((hi as u16) << 8u16)) & 0x0100u16 != 0 <==> hi & 0x01u8 != 0)
            by (bit_vector);
    }
}

/// One whole element is the whole element list.
proof fn lemma_single_element(id: u8, body: Seq<u8>)
    requires
        body.len() <= 255,
    ensures
        elements(seq![id, body.len() as u8] + body) == seq![(id, body)],
{
    let e = seq![id, body.len() as u8] + body;
    assert(e[0] == id && e[1] == body.len() as u8);
    assert(e.subrange(2, 2 + e[1] as int) =~= body);
    assert(e.subrange(2 + e[1] as int, e.len() as int) =~= Seq::<u8>::empty());
    assert(elements(Seq::<u8>::empty()) == Seq::<Element>::empty());
    assert(elements(e) =~= seq![(id, body)]);
}

/// The channel width an element list with one element announces: a VHT
/// Operation element gives 80 MHz for width 1 and 160 MHz for widths 2 and
/// 3; an EHT Operation element (extension 106, at least 4 bytes) gives
/// 320, 160 or 80 MHz for width codes 4, 3 and 2 in bits 2-4 of its second
/// byte; HT Capabilities with bit 1 of the first byte give 40 MHz; all else
/// is 20 MHz.
pub proof fn law_channel_width_single_element(id: u8, body: Seq<u8>)
    requires
        body.len() <= 255,
    ensures
        ({
            let w = spec_channel_width(seq![id, body.len() as u8] + body);
            &&& id == 192 && body.len() >= 1 ==> w == (if body[0] == 1 {
                80u16
            } else if body[0] == 2 || body[0] == 3 {
                160u16
            } else {
                20u16
            })
            &&& id == 255 && body.len() >= 4 && body[0] == 106 ==> w == (if (body[1] >> 2u8) & 7
                == 4 {
                320u16
            } else if (body[1] >> 2u8) & 7 == 3 {
                160u16
            } else if (body[1] >> 2u8) & 7 == 2 {
                80u16
            } else {
                20u16
            })
            &&& id == 45 && body.len() >= 1 ==> w == (if body[0] & 2 != 0 {
                40u16
            } else {
                20u16
            })
            &&& !(id == 192 || id == 255 || id == 45) ==> w == 20
        }),
{
    lemma_single_element(id, body);
    let els = seq![(id, body)];
    assert(els.drop_first() =~= Seq::<Element>::empty());
    assert(width_walk(no_width_flags(), els) == width_walk(
        width_step(no_width_flags(), (id, body)),
        Seq::<Element>::empty(),
    ));
}

/// Reading one more whole element after whole elements `a` is one step of
/// the walk from what `a` gave.
proof fn lemma_caps_append(a: Seq<u8>, id: u8, body: Seq<u8>)
    requires
        complete_elements(a),
        body.len() <= 255,
    ensures
        spec_capabilities(a + (seq![id, body.len() as u8] + body)) == caps_step(
            spec_capabilities(a),
            (id, body),
        ),
{
    let e = seq![id, body.len() as u8] + body;
    lemma_single_element(id, body);
    lemma_elements_concat(a, e);
    let s = caps_walk(caps_start(), elements(a));
    lemma_walk_concat(caps_start(), elements(a), seq![(id, body)]);
    assert(seq![(id, body)].drop_first() =~= Seq::<Element>::empty());
    assert(caps_walk(caps_step(s, (id, body)), Seq::<Element>::empty()) == caps_step(s, (id, body)));
}

/// What one more element adds to the capabilities read from whole elements
/// before it: an RSN element's reading (as `parse_rsn` gives it) becomes
/// the security; a rates element (1 or 50) appends one rate per byte, its
/// low seven bits in half megabits rounded down to whole megabits; HT
/// capabilities list 802.11n and VHT capabilities 802.11ac among the
/// standards; RM capabilities turn on 802.11k, with neighbor and beacon
/// reports from bits 0 and 7 of byte 0 when 5 bytes are there; a Microsoft
/// (00:50:F2) vendor element of type 4 turns on WPS.
pub proof fn law_capabilities_element_effects(a: Seq<u8>, id: u8, body: Seq<u8>)
    requires
        complete_elements(a),
        body.len() <= 255,
    ensures
        ({
            let before = spec_capabilities(a);
            let after = spec_capabilities(a + (seq![id, body.len() as u8] + body));
            &&& id == 48 ==> after.security == spec_parse_rsn(body).0 && after.details
                == spec_parse_rsn(body).1
            &&& (id == 1 || id == 50) ==> after.rates.len() == before.rates.len() + body.len() && (
            forall|i: int|
                0 <= i < before.rates.len() ==> after.rates[i] == before.rates[i]) && (forall|
                i: int,
            |
                0 <= i < body.len() ==> after.rates[before.rates.len() + i] == (body[i] % 128)
                    / 2)
            &&& id == 45 ==> after.standards.contains(4u8)
            &&& id == 191 ==> after.standards.contains(5u8)
            &&& id == 70 ==> after.protocols.rrm
            &&& id == 70 && body.len() >= 5 ==> after.protocols.neighbor_report == (body[0] % 2
                == 1) && after.protocols.beacon_report == (body[0] >= 128)
            &&& id == 221 && body.len() >= 4 && body[0] == 0 && body[1] == 0x50 && body[2] == 0xF2
                && body[3] == 4 ==> after.wps
        }),
{
    lemma_caps_append(a, id, body);
    let before = spec_capabilities(a);
    reveal(rsn_step);
    reveal(rates_step);
    reveal(ht_cap_step);
    reveal(vht_cap_step);
    reveal(rm_step);
    reveal(vendor_step);
    if id == 1 || id == 50 {
        assert forall|i: int| 0 <= i < body.len() implies ((body[i] & 0x7F) / 2) as u32 == (body[i]
            % 128) / 2 by {
            let x = body[i];
            assert(x & 0x7F == x % 128) by (bit_vector);
        }
    }
    if id == 70 && body.len() >= 5 {
        let x = body[0];
        assert((x & 0x01 != 0) == (x % 2 == 1)) by (bit_vector);
        assert((x & 0x80 != 0) == (x >= 128)) by (bit_vector);
    }
    let st = before.standards;
    assert(st.push(4u8)[st.len() as int] == 4u8);
    assert(st.push(5u8)[st.len() as int] == 5u8);
}

/// The description of a BSS Load element (id 11, at least 5 bytes) shows,
/// first and highlighted, the station count: the little-endian number in
/// bytes 0-1; then the channel utilization of byte 2 as a percentage of
/// 255, rounded to the nearest whole percent (halves up).
pub proof fn law_bss_load_described(d: Seq<u8>)
    requires
        d.len() >= 5,
    ensures
        ({
            let p = spec_parsed_ie((11u8, d));
            &&& p.display_fields.len() == 2
            &&& p.display_fields[0].label == "Associated stations"@
            &&& p.display_fields[0].highlighted
            &&& p.display_fields[0].value == spec_decimal((d[0] + 256 * d[1]) as u64)
            &&& exists|u: u64|
                u <= 100 && p.display_fields[1].value == spec_decimal(u) + "%"@ && 510 * u <= 200
                    * d[2] + 255 < 510 * u + 510
        }),
{
    lemma_le16(d[0], d[1]);
    let u = crate::parser::details::utilization_percent(d[2]);
    assert(510 * u <= 200 * d[2] + 255 < 510 * u + 510);
    let p = spec_parsed_ie((11u8, d));
    assert(p.display_fields[1].value == spec_decimal(u) + "%"@);
}

/// A roaming test's step: when the access point or network name changes, a
/// roam starts at the sample's time from the new connection (a roam under
/// way is recorded as finished, from the old connection to the new one,
/// with the pings it lost); while a roam is under way each lost ping adds
/// one to its loss; with no change and no roam nothing is recorded and the
/// tracker stays as it was.  A snapshot is asked for every tenth ping.
pub proof fn law_roam_step(st: RoamTracker, s: ConnectionSample, seq: u32)
    requires
        st.roaming_lost < u32::MAX,
    ensures
        ({
            let (next, act) = spec_roam_step(st, s, seq);
            let moved = (s.wifi.bssid is Some && st.prev.bssid is Some && s.wifi.bssid->0@
                != st.prev.bssid->0@) || crate::scanner_core::text_of(s.wifi.ssid)
                != crate::scanner_core::text_of(st.prev.ssid);
            &&& act.snapshot == (seq % 10 == 0)
            &&& act.started == moved
            &&& moved ==> next.in_roaming && next.roaming_start_ms == Some(s.timestamp_ms)
                && next.prev == s.wifi && next.roaming_lost == (if s.lost {
                1u32
            } else {
                0u32
            })
            &&& moved && st.in_roaming ==> (act.roamed matches Some(r) && r.from == st.prev && r.to
                == s.wifi && r.packets_lost == st.roaming_lost)
            &&& !(moved && st.in_roaming) ==> act.roamed is None
            &&& !moved && st.in_roaming ==> next.in_roaming && next.prev == st.prev
                && next.roaming_start_ms == st.roaming_start_ms && next.roaming_lost == (if s.lost {
                st.roaming_lost + 1
            } else {
                st.roaming_lost as int
            })
            &&& !moved && !st.in_roaming ==> next == st
        }),
{
}

} // verus!
