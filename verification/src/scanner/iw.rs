//! The text that the Linux `iw` tool prints: scan results and the current
//! link, read into raw beacons.
use vstd::prelude::*;
use vstd::utf8::encode_utf8;
use crate::text::{chars_of, spec_trim, string_of_chars};
use crate::textscan::{
    all_digits, decimal_value, field_of, has_prefix, has_text_in, is_hex_digit, nth_field,
    occurs_in, parse_hex_byte, parse_hex_u8, parse_signed, parse_signed_within, parse_unsigned,
    parse_unsigned_upto, remove_all, remove_text, split_chars, split_lines, split_on,
    split_words, starts_with, text_lines, trim_chars, words,
};
use crate::types::{
    blank_beacon, spec_band_from_channel, Band, BeaconModel, LinkRates, RawBeacon, ScanError,
};

verus! {

// ============================================================================
// Channels and BSSIDs
// ============================================================================

/// Channel of a frequency in MHz: 2412-2484 in the 2.4 GHz numbering,
/// 5170-5825 in the 5 GHz numbering, else 0.
pub open spec fn spec_freq_to_channel(freq: u32) -> u8 {
    if 2412 <= freq <= 2484 {
        ((freq - 2407) / 5) as u8
    } else if 5170 <= freq <= 5825 {
        ((freq - 5000) / 5) as u8
    } else {
        0
    }
}

/// The channel of a frequency.
pub fn freq_to_channel(freq: u32) -> (ch: u8)
    ensures
        ch == spec_freq_to_channel(freq),
{
    if 2412 <= freq && freq <= 2484 {
        ((freq - 2407) / 5) as u8
    } else if 5170 <= freq && freq <= 5825 {
        ((freq - 5000) / 5) as u8
    } else {
        0
    }
}

/// A BSSID written as six colon-separated hexadecimal bytes.
pub open spec fn spec_parse_bssid(s: Seq<char>) -> Option<Seq<u8>> {
    let f = split_on(s, ':');
    if f.len() == 6 && (forall|i: int| 0 <= i < 6 ==> (#[trigger] parse_hex_byte(f[i])) is Some) {
        Some(Seq::new(6, |i: int| parse_hex_byte(f[i])->0))
    } else {
        None
    }
}

/// The message of a BSSID that does not parse: the wrong number of parts,
/// or a part that is not a hexadecimal byte.
pub open spec fn bssid_error(s: Seq<char>) -> Seq<char> {
    if split_on(s, ':').len() != 6 {
        "Invalid BSSID"@
    } else {
        "Invalid BSSID byte"@
    }
}

fn parse_bssid_chars(s: &Vec<char>) -> (r: Result<[u8; 6], ScanError>)
    ensures
        match r {
            Ok(b) => spec_parse_bssid(s@) == Some(b@),
            Err(e) => spec_parse_bssid(s@) is None && (e matches ScanError::ParseError(m) && m@
                == bssid_error(s@)),
        },
{
    let parts = split_chars(s, ':');
    let ghost pv = parts@.map_values(|f: Vec<char>| f@);
    if parts.len() != 6 {
        return Err(ScanError::ParseError("Invalid BSSID".to_owned()));
    }
    let mut bssid: [u8; 6] = [0u8; 6];
    let mut i: usize = 0;
    while i < 6
        invariant
            i <= 6,
            parts@.len() == 6,
            pv == parts@.map_values(|f: Vec<char>| f@),
            pv == split_on(s@, ':'),
            bssid@.len() == 6,
            forall|k: int| 0 <= k < i ==> parse_hex_byte(#[trigger] pv[k]) == Some(bssid@[k]),
        decreases 6 - i,
    {
        assert(pv[i as int] == parts@[i as int]@);
        match parse_hex_u8(&parts[i]) {
            Some(b) => {
                bssid[i] = b;
            },
            None => {
                return Err(ScanError::ParseError("Invalid BSSID byte".to_owned()));
            },
        }
        i += 1;
    }
    assert(bssid@ =~= Seq::new(6, |k: int| parse_hex_byte(pv[k])->0));
    Ok(bssid)
}

/// Parse a BSSID such as "80:2d:1a:4b:8c:07".
pub fn parse_bssid(s: &str) -> (r: Result<[u8; 6], ScanError>)
    ensures
        match r {
            Ok(b) => spec_parse_bssid(s@) == Some(b@),
            Err(e) => spec_parse_bssid(s@) is None && (e matches ScanError::ParseError(m) && m@
                == bssid_error(s@)),
        },
{
    let cs = chars_of(s);
    parse_bssid_chars(&cs)
}

// ============================================================================
// Supported rates
// ============================================================================

/// A supported-rates token read as a rate in half megabits: an optional
/// sign, then decimal digits with at most one decimal point (at least one
/// digit); a negative rate gives 0, others twice the value rounded down, at
/// most 255.
pub open spec fn rate_units(t: Seq<char>) -> Option<u8> {
    let neg = t.len() > 0 && t[0] == '-';
    let body = if t.len() > 0 && (t[0] == '+' || t[0] == '-') {
        t.drop_first()
    } else {
        t
    };
    let parts = split_on(body, '.');
    let ip = parts[0];
    let frac = if parts.len() > 1 {
        parts[1]
    } else {
        seq![]
    };
    if parts.len() > 2 || !all_digits(ip) || !all_digits(frac) || ip.len() + frac.len() == 0 {
        None
    } else if neg {
        Some(0)
    } else {
        let v = 2 * decimal_value(ip) + (if frac.len() > 0 && frac[0] as u32 >= 0x35 {
            1int
        } else {
            0
        });
        Some(
            if v > 255 {
                255
            } else {
                v as u8
            },
        )
    }
}

/// The rate bytes of the words of a supported-rates line: each word that
/// reads as a rate (stars removed), with bit 7 set when it was starred
/// (a basic rate).
pub open spec fn rate_bytes(ws: Seq<Seq<char>>) -> Seq<u8>
    decreases ws.len(),
{
    if ws.len() == 0 {
        seq![]
    } else {
        let r = rate_bytes(ws.drop_last());
        let w = ws.last();
        match rate_units(remove_all(w, "*"@)) {
            Some(u) => r.push(
                if occurs_in(w, "*"@) {
                    u | 0x80
                } else {
                    u
                },
            ),
            None => r,
        }
    }
}

proof fn lemma_decimal_nonneg(s: Seq<char>)
    requires
        all_digits(s),
    ensures
        decimal_value(s) >= 0,
    decreases s.len(),
{
    if s.len() > 0 {
        assert(all_digits(s.drop_last()));
        assert(crate::textscan::is_digit(s[s.len() - 1]));
        lemma_decimal_nonneg(s.drop_last());
    }
}

/// All digits, with their value capped.
fn digits_capped(s: &Vec<char>, cap: u64) -> (r: Option<u64>)
    requires
        cap <= 1_000_000_000,
    ensures
        r is Some <==> all_digits(s@),
        r matches Some(v) ==> v == (if decimal_value(s@) > cap {
            cap as int
        } else {
            decimal_value(s@)
        }),
{
    let mut v: u64 = 0;
    let mut i: usize = 0;
    while i < s.len()
        invariant
            i <= s.len(),
            cap <= 1_000_000_000,
            all_digits(s@.subrange(0, i as int)),
            decimal_value(s@.subrange(0, i as int)) >= 0,
            v == (if decimal_value(s@.subrange(0, i as int)) > cap {
                cap as int
            } else {
                decimal_value(s@.subrange(0, i as int))
            }),
        decreases s.len() - i,
    {
        let c = s[i];
        let u = c as u32;
        let ghost pre = s@.subrange(0, i + 1);
        assert(pre.drop_last() =~= s@.subrange(0, i as int));
        if u < 0x30 || u > 0x39 {
            assert(!crate::textscan::is_digit(s@[i as int]));
            return None;
        }
        let d = (u - 0x30) as u64;
        if v < cap {
            let next = v * 10 + d;
            v = if next > cap {
                cap
            } else {
                next
            };
        }
        assert(all_digits(pre));
        i += 1;
    }
    assert(s@.subrange(0, s.len() as int) =~= s@);
    Some(v)
}

/// Read a supported-rates token.
pub fn parse_rate_units(t: &Vec<char>) -> (r: Option<u8>)
    ensures
        r == rate_units(t@),
{
    let neg = t.len() > 0 && t[0] == '-';
    let mut body: Vec<char> = Vec::new();
    let start: usize = if t.len() > 0 && (t[0] == '+' || t[0] == '-') {
        1
    } else {
        0
    };
    let mut i: usize = start;
    while i < t.len()
        invariant
            start <= i <= t.len(),
            body@ == t@.subrange(start as int, i as int),
        decreases t.len() - i,
    {
        body.push(t[i]);
        assert(body@ =~= t@.subrange(start as int, i + 1));
        i += 1;
    }
    assert(body@ =~= (if t@.len() > 0 && (t@[0] == '+' || t@[0] == '-') {
        t@.drop_first()
    } else {
        t@
    }));
    let parts = split_chars(&body, '.');
    let ghost pv = parts@.map_values(|f: Vec<char>| f@);
    proof {
        crate::textscan::lemma_split_on_nonempty_pub(body@, '.');
    }
    if parts.len() > 2 {
        return None;
    }
    assert(pv[0] == parts@[0]@);
    let ip = digits_capped(&parts[0], 200);
    let empty: Vec<char> = Vec::new();
    let frac_ref: &Vec<char> = if parts.len() > 1 {
        &parts[1]
    } else {
        &empty
    };
    proof {
        if parts.len() > 1 {
            assert(pv[1] == parts@[1]@);
        }
    }
    let fr = digits_capped(frac_ref, 0);
    match (ip, fr) {
        (Some(iv), Some(_)) => {
            if parts[0].len() == 0 && frac_ref.len() == 0 {
                return None;
            }
            if neg {
                return Some(0);
            }
            proof {
                lemma_decimal_nonneg(pv[0]);
            }
            let half: u64 = if frac_ref.len() > 0 && (frac_ref[0] as u32) >= 0x35 {
                1
            } else {
                0
            };
            let v = 2 * iv + half;
            Some(
                if v > 255 {
                    255
                } else {
                    v as u8
                },
            )
        },
        _ => None,
    }
}

/// The rate bytes of the words of a supported-rates line.
fn rates_of_words(ws: &Vec<Vec<char>>) -> (r: Vec<u8>)
    ensures
        r@ == rate_bytes(ws@.map_values(|w: Vec<char>| w@)),
{
    let ghost all = ws@.map_values(|w: Vec<char>| w@);
    let mut out: Vec<u8> = Vec::new();
    let mut i: usize = 0;
    while i < ws.len()
        invariant
            i <= ws.len(),
            all == ws@.map_values(|w: Vec<char>| w@),
            out@ == rate_bytes(all.subrange(0, i as int)),
        decreases ws.len() - i,
    {
        let w = &ws[i];
        assert(all.subrange(0, i + 1).drop_last() =~= all.subrange(0, i as int));
        assert(all.subrange(0, i + 1).last() == w@);
        let clean = remove_text(w, "*");
        match parse_rate_units(&clean) {
            Some(u) => {
                if has_text_in(w, "*") {
                    out.push(u | 0x80);
                } else {
                    out.push(u);
                }
            },
            None => {},
        }
        i += 1;
    }
    assert(all.subrange(0, ws.len() as int) =~= all);
    out
}

// ============================================================================
// Scan results
// ============================================================================

/// Field `n` of `s` split at `sep`, or `default` when there is none.
pub open spec fn field_or(s: Seq<char>, sep: char, n: int, default: Seq<char>) -> Seq<char> {
    match field_of(s, sep, n) {
        Some(f) => f,
        None => default,
    }
}

/// The text before the first `sep` (all of it when there is none).
pub open spec fn first_field(s: Seq<char>, sep: char) -> Seq<char> {
    split_on(s, sep)[0]
}

/// At `at` stands a BSSID in the form `xx:xx:xx:xx:xx:xx`: six pairs of
/// hexadecimal digits joined by colons.
pub open spec fn bssid_form_at(t: Seq<char>, at: int) -> bool {
    0 <= at && at + 17 <= t.len() && forall|k: int|
        0 <= k < 17 ==> if k % 3 == 2 {
            #[trigger] t[at + k] == ':'
        } else {
            is_hex_digit(t[at + k])
        }
}

/// A line that opens a new BSS: "BSS " followed by a BSSID in its usual
/// form, as in "BSS 80:2d:1a:4b:8c:07(on wlan0)".  Lines such as
/// "BSS Load:" or "BSS Color: 5" belong to the current BSS.
pub open spec fn is_bss_header(t: Seq<char>) -> bool {
    starts_with(t, "BSS "@) && bssid_form_at(t, 4)
}

/// The BSSID of a BSS header: the text before the first "(", without "BSS "
/// and trimmed; all zeros when it does not parse.
pub open spec fn header_bssid(t: Seq<char>) -> Seq<u8> {
    let f0 = first_field(t, '(');
    let part = spec_trim(
        if starts_with(f0, "BSS "@) {
            f0.subrange(4, f0.len() as int)
        } else {
            seq![]
        },
    );
    match spec_parse_bssid(part) {
        Some(b) => b,
        None => seq![0u8, 0, 0, 0, 0, 0],
    }
}

/// "SSID:" sets the SSID to the trimmed rest of the line and adds an SSID
/// element (its length byte is the byte count modulo 256).
#[verifier::opaque]
pub open spec fn ssid_line(b: BeaconModel, ie: Seq<u8>, t: Seq<char>) -> (BeaconModel, Seq<u8>) {
    let bytes = encode_utf8(spec_trim(t.subrange(5, t.len() as int)));
    (BeaconModel { ssid: Some(bytes), ..b }, ie + seq![0u8, (bytes.len() % 256) as u8] + bytes)
}

/// "freq:" sets the channel of the frequency's whole MHz (0 when it does not
/// parse) with its band, and adds a DS parameter set element.
#[verifier::opaque]
pub open spec fn freq_line(b: BeaconModel, ie: Seq<u8>, t: Seq<char>) -> (BeaconModel, Seq<u8>) {
    let f = spec_trim(first_field(field_or(t, ':', 1, "0"@), '.'));
    let freq: u32 = match parse_unsigned(f, u32::MAX as int) {
        Some(v) => v as u32,
        None => 0,
    };
    let ch = spec_freq_to_channel(freq);
    (BeaconModel { channel: ch, band: spec_band_from_channel(ch), ..b }, ie + seq![3u8, 1, ch])
}

/// "signal:" sets the signal to the whole dBm before any decimal point (-100
/// when it does not parse).
#[verifier::opaque]
pub open spec fn signal_line(b: BeaconModel, t: Seq<char>) -> BeaconModel {
    let clean = remove_all(field_or(t, ':', 1, "-100 dBm"@), " dBm"@);
    let whole = first_field(spec_trim(clean), '.');
    BeaconModel {
        signal_dbm: match parse_signed(whole, i16::MIN as int, i16::MAX as int) {
            Some(v) => v as i16,
            None => -100i16,
        },
        ..b
    }
}

/// "beacon interval:" sets the interval to the first word after the colon
/// (100 when it does not parse).
#[verifier::opaque]
pub open spec fn interval_line(b: BeaconModel, t: Seq<char>) -> BeaconModel {
    let w = first_field(spec_trim(field_or(t, ':', 1, "100"@)), ' ');
    BeaconModel {
        beacon_interval: match parse_unsigned(w, u16::MAX as int) {
            Some(v) => v as u16,
            None => 100,
        },
        ..b
    }
}

/// A line with "primary channel:" sets the channel to the number after the
/// first colon, when it parses.
#[verifier::opaque]
pub open spec fn primary_line(b: BeaconModel, t: Seq<char>) -> BeaconModel {
    match field_of(t, ':', 1) {
        Some(f) => match parse_unsigned(spec_trim(f), 255) {
            Some(v) => BeaconModel { channel: v as u8, ..b },
            None => b,
        },
        None => b,
    }
}

/// A line with "Supported rates:" adds a rates element of its rates, when
/// there are 1 to 8.
#[verifier::opaque]
pub open spec fn rates_line(ie: Seq<u8>, t: Seq<char>) -> Seq<u8> {
    let rates = rate_bytes(words(field_or(t, ':', 1, ""@)));
    if 0 < rates.len() <= 8 {
        ie + seq![1u8, rates.len() as u8] + rates
    } else {
        ie
    }
}

/// A line with "MCS rate indexes supported:" sets the streams from the
/// highest index of the range after the colon (8 indexes per stream).
#[verifier::opaque]
pub open spec fn mcs_line(b: BeaconModel, t: Seq<char>) -> BeaconModel {
    match field_of(t, ':', 1) {
        Some(r) => match field_of(spec_trim(r), '-', 1) {
            Some(m) => match parse_unsigned(spec_trim(m), 255) {
                Some(max) => BeaconModel { spatial_streams: Some((max / 8 + 1) as u8), ..b },
                None => b,
            },
            None => b,
        },
        None => b,
    }
}

/// Effect of a (trimmed) line inside a BSS block on its beacon and elements.
pub open spec fn iw_field(b: BeaconModel, ie: Seq<u8>, t: Seq<char>) -> (BeaconModel, Seq<u8>) {
    if starts_with(t, "SSID:"@) {
        ssid_line(b, ie, t)
    } else if starts_with(t, "freq:"@) {
        freq_line(b, ie, t)
    } else if starts_with(t, "signal:"@) {
        (signal_line(b, t), ie)
    } else if starts_with(t, "beacon interval:"@) {
        (interval_line(b, t), ie)
    } else if occurs_in(t, "primary channel:"@) {
        (primary_line(b, t), ie)
    } else if occurs_in(t, "Supported rates:"@) {
        (b, rates_line(ie, t))
    } else if starts_with(t, "HT capabilities:"@) {
        (BeaconModel { has_ht: true, ..b }, ie)
    } else if starts_with(t, "VHT capabilities:"@) {
        (BeaconModel { has_vht: true, ..b }, ie)
    } else if starts_with(t, "HE capabilities:"@) {
        (BeaconModel { has_he: true, ..b }, ie)
    } else if starts_with(t, "EHT capabilities:"@) {
        (BeaconModel { has_eht: true, ..b }, ie)
    } else if occurs_in(t, "MCS rate indexes supported:"@) {
        (mcs_line(b, t), ie)
    } else {
        (b, ie)
    }
}

/// Where the reading of `iw` scan output stands: the finished beacons, the
/// beacon of the current BSS block, and its elements so far.
pub struct IwScan {
    pub done: Seq<BeaconModel>,
    pub current: Option<BeaconModel>,
    pub ie: Seq<u8>,
}

/// The finished beacons, with the current one (and its elements) added.
pub open spec fn finish_current(st: IwScan) -> Seq<BeaconModel> {
    match st.current {
        Some(b) => st.done.push(BeaconModel { ie_data: st.ie, ..b }),
        None => st.done,
    }
}

/// Effect of one line: a BSS header finishes the current beacon and opens a
/// new one; other lines before the first header are ignored.
pub open spec fn iw_scan_step(st: IwScan, line: Seq<char>, now: u64) -> IwScan {
    let t = spec_trim(line);
    if is_bss_header(t) {
        IwScan {
            done: finish_current(st),
            current: Some(blank_beacon(header_bssid(t), now)),
            ie: seq![],
        }
    } else {
        match st.current {
            None => st,
            Some(b) => {
                let (b2, ie2) = iw_field(b, st.ie, t);
                IwScan { current: Some(b2), ie: ie2, ..st }
            },
        }
    }
}

/// The reading after the lines `ls`.
pub open spec fn iw_scan_walk(st: IwScan, ls: Seq<Seq<char>>, now: u64) -> IwScan
    decreases ls.len(),
{
    if ls.len() == 0 {
        st
    } else {
        iw_scan_walk(iw_scan_step(st, ls[0], now), ls.drop_first(), now)
    }
}

/// The beacons of `iw` scan output read at time `now`.
pub open spec fn spec_parse_iw_scan(output: Seq<char>, now: u64) -> Seq<BeaconModel> {
    finish_current(
        iw_scan_walk(IwScan { done: seq![], current: None, ie: seq![] }, text_lines(output), now),
    )
}

fn first_field_of(s: &Vec<char>, sep: char) -> (r: Vec<char>)
    ensures
        r@ == first_field(s@, sep),
{
    proof {
        crate::textscan::lemma_split_on_nonempty_pub(s@, sep);
    }
    match nth_field(s, sep, 0) {
        Some(f) => f,
        None => Vec::new(),
    }
}

fn field_or_default(s: &Vec<char>, sep: char, n: usize, default: &str) -> (r: Vec<char>)
    ensures
        r@ == field_or(s@, sep, n as int, default@),
{
    match nth_field(s, sep, n) {
        Some(f) => f,
        None => chars_of(default),
    }
}

fn read_ssid_line(b: &mut RawBeacon, ie: &mut Vec<u8>, t: &Vec<char>)
    requires
        starts_with(t@, "SSID:"@),
    ensures
        (final(b)@, final(ie)@) == ssid_line(old(b)@, old(ie)@, t@),
{
    reveal(ssid_line);
    let ghost five = "SSID:"@;
    let mut tail: Vec<char> = Vec::new();
    let mut i: usize = 5;
    assert(five.len() == 5) by {
        reveal_strlit("SSID:");
    }
    while i < t.len()
        invariant
            5 <= i <= t.len(),
            tail@ == t@.subrange(5, i as int),
        decreases t.len() - i,
    {
        tail.push(t[i]);
        assert(tail@ =~= t@.subrange(5, i + 1));
        i += 1;
    }
    let trimmed = trim_chars(&tail);
    let text = string_of_chars(trimmed.as_slice());
    let bytes = vstd::slice::slice_to_vec(text.as_str().as_bytes());
    b.ssid = Some(bytes.clone());
    ie.push(0);
    ie.push((bytes.len() % 256) as u8);
    let mut k: usize = 0;
    let ghost base = ie@;
    while k < bytes.len()
        invariant
            k <= bytes.len(),
            ie@ == base + bytes@.subrange(0, k as int),
        decreases bytes.len() - k,
    {
        ie.push(bytes[k]);
        assert(ie@ =~= base + bytes@.subrange(0, k + 1));
        k += 1;
    }
    assert(bytes@.subrange(0, bytes.len() as int) =~= bytes@);
    assert(base =~= old(ie)@ + seq![0u8, (bytes@.len() % 256) as u8]);
}

fn read_freq_line(b: &mut RawBeacon, ie: &mut Vec<u8>, t: &Vec<char>)
    ensures
        (final(b)@, final(ie)@) == freq_line(old(b)@, old(ie)@, t@),
{
    reveal(freq_line);
    let f1 = field_or_default(t, ':', 1, "0");
    let whole = first_field_of(&f1, '.');
    let f = trim_chars(&whole);
    let freq: u32 = match parse_unsigned_upto(&f, 0xFFFF_FFFF) {
        Some(v) => v as u32,
        None => 0,
    };
    let ch = freq_to_channel(freq);
    b.channel = ch;
    b.band = Band::from_channel(ch);
    ie.push(3);
    ie.push(1);
    ie.push(ch);
    assert(ie@ =~= old(ie)@ + seq![3u8, 1, ch]);
}

fn read_signal_line(b: &mut RawBeacon, t: &Vec<char>)
    ensures
        final(b)@ == signal_line(old(b)@, t@),
{
    reveal(signal_line);
    let full = field_or_default(t, ':', 1, "-100 dBm");
    let clean = remove_text(&full, " dBm");
    let trimmed = trim_chars(&clean);
    let whole = first_field_of(&trimmed, '.');
    b.signal_dbm = match parse_signed_within(&whole, -32768, 32767) {
        Some(v) => v as i16,
        None => -100,
    };
}

fn read_interval_line(b: &mut RawBeacon, t: &Vec<char>)
    ensures
        final(b)@ == interval_line(old(b)@, t@),
{
    reveal(interval_line);
    let f1 = field_or_default(t, ':', 1, "100");
    let trimmed = trim_chars(&f1);
    let w = first_field_of(&trimmed, ' ');
    b.beacon_interval = match parse_unsigned_upto(&w, 65535) {
        Some(v) => v as u16,
        None => 100,
    };
}

fn read_primary_line(b: &mut RawBeacon, t: &Vec<char>)
    ensures
        final(b)@ == primary_line(old(b)@, t@),
{
    reveal(primary_line);
    if let Some(f) = nth_field(t, ':', 1) {
        let trimmed = trim_chars(&f);
        if let Some(v) = parse_unsigned_upto(&trimmed, 255) {
            b.channel = v as u8;
        }
    }
}

fn read_rates_line(ie: &mut Vec<u8>, t: &Vec<char>)
    ensures
        final(ie)@ == rates_line(old(ie)@, t@),
{
    reveal(rates_line);
    let part = field_or_default(t, ':', 1, "");
    let ws = split_words(&part);
    let rates = rates_of_words(&ws);
    if rates.len() > 0 && rates.len() <= 8 {
        ie.push(1);
        ie.push(rates.len() as u8);
        let ghost base = ie@;
        let mut k: usize = 0;
        while k < rates.len()
            invariant
                k <= rates.len(),
                ie@ == base + rates@.subrange(0, k as int),
            decreases rates.len() - k,
        {
            ie.push(rates[k]);
            assert(ie@ =~= base + rates@.subrange(0, k + 1));
            k += 1;
        }
        assert(rates@.subrange(0, rates.len() as int) =~= rates@);
        assert(base =~= old(ie)@ + seq![1u8, rates@.len() as u8]);
    }
}

fn read_mcs_line(b: &mut RawBeacon, t: &Vec<char>)
    ensures
        final(b)@ == mcs_line(old(b)@, t@),
{
    reveal(mcs_line);
    if let Some(r) = nth_field(t, ':', 1) {
        let range = trim_chars(&r);
        if let Some(m) = nth_field(&range, '-', 1) {
            let mt = trim_chars(&m);
            if let Some(max) = parse_unsigned_upto(&mt, 255) {
                b.spatial_streams = Some((max / 8 + 1) as u8);
            }
        }
    }
}

fn read_field_line(b: &mut RawBeacon, ie: &mut Vec<u8>, t: &Vec<char>)
    ensures
        (final(b)@, final(ie)@) == iw_field(old(b)@, old(ie)@, t@),
{
    if has_prefix(t, "SSID:") {
        read_ssid_line(b, ie, t);
    } else if has_prefix(t, "freq:") {
        read_freq_line(b, ie, t);
    } else if has_prefix(t, "signal:") {
        read_signal_line(b, t);
    } else if has_prefix(t, "beacon interval:") {
        read_interval_line(b, t);
    } else if has_text_in(t, "primary channel:") {
        read_primary_line(b, t);
    } else if has_text_in(t, "Supported rates:") {
        read_rates_line(ie, t);
    } else if has_prefix(t, "HT capabilities:") {
        b.has_ht = true;
    } else if has_prefix(t, "VHT capabilities:") {
        b.has_vht = true;
    } else if has_prefix(t, "HE capabilities:") {
        b.has_he = true;
    } else if has_prefix(t, "EHT capabilities:") {
        b.has_eht = true;
    } else if has_text_in(t, "MCS rate indexes supported:") {
        read_mcs_line(b, t);
    }
}

fn blank_raw_beacon(bssid: [u8; 6], timestamp: u64) -> (b: RawBeacon)
    ensures
        b@ == blank_beacon(bssid@, timestamp),
{
    let b = RawBeacon {
        ssid: None,
        bssid,
        channel: 0,
        band: Band::Ghz2_4,
        signal_dbm: 0,
        noise_dbm: 0,
        ie_data: Vec::new(),
        beacon_interval: 0,
        timestamp,
        uptime_ms: None,
        connected: false,
        link_rates: None,
        local_adapter: None,
        has_ht: false,
        has_vht: false,
        has_he: false,
        has_eht: false,
        spatial_streams: None,
    };
    assert(b@.ie_data =~= Seq::<u8>::empty());
    b
}

fn is_bss_header_exec(t: &Vec<char>) -> (r: bool)
    ensures
        r == is_bss_header(t@),
{
    if !has_prefix(t, "BSS ") || t.len() < 21 {
        return false;
    }
    let mut k: usize = 0;
    while k < 17
        invariant
            t.len() >= 21,
            k <= 17,
            forall|j: int|
                0 <= j < k ==> if j % 3 == 2 {
                    #[trigger] t@[4 + j] == ':'
                } else {
                    is_hex_digit(t@[4 + j])
                },
        decreases 17 - k,
    {
        let c = t[4 + k];
        if k % 3 == 2 {
            if c != ':' {
                return false;
            }
        } else {
            let u = c as u32;
            if !((0x30 <= u && u <= 0x39) || (0x41 <= u && u <= 0x46) || (0x61 <= u && u <= 0x66)) {
                return false;
            }
        }
        k += 1;
    }
    true
}

fn header_bssid_exec(t: &Vec<char>) -> (r: [u8; 6])
    ensures
        r@ == header_bssid(t@),
{
    let f0 = first_field_of(t, '(');
    let mut rest: Vec<char> = Vec::new();
    if has_prefix(&f0, "BSS ") {
        assert("BSS "@.len() == 4) by {
            reveal_strlit("BSS ");
        }
        let mut i: usize = 4;
        while i < f0.len()
            invariant
                4 <= i <= f0.len(),
                rest@ == f0@.subrange(4, i as int),
            decreases f0.len() - i,
        {
            rest.push(f0[i]);
            assert(rest@ =~= f0@.subrange(4, i + 1));
            i += 1;
        }
    } else {
        assert(rest@ =~= Seq::<char>::empty());
    }
    let part = trim_chars(&rest);
    match parse_bssid_chars(&part) {
        Ok(b) => b,
        Err(_) => {
            let z = [0u8; 6];
            assert(z@ =~= seq![0u8, 0, 0, 0, 0, 0]);
            z
        },
    }
}

/// An optional beacon by its values.
pub open spec fn beacon_option(o: Option<RawBeacon>) -> Option<BeaconModel> {
    match o {
        Some(b) => Some(b@),
        None => None,
    }
}

/// The beacons by their values.
pub open spec fn beacons_view(v: Seq<RawBeacon>) -> Seq<BeaconModel> {
    v.map_values(|b: RawBeacon| b@)
}

/// Read `iw dev <iface> scan` output into raw beacons, stamped with the time
/// `now` (seconds since the epoch).
pub fn parse_iw_scan(output: &str, now: u64) -> (r: Result<Vec<RawBeacon>, ScanError>)
    ensures
        r matches Ok(v) && beacons_view(v@) == spec_parse_iw_scan(output@, now),
{
    let chars = chars_of(output);
    let lines = split_lines(&chars);
    let ghost ls = lines@.map_values(|l: Vec<char>| l@);
    let mut results: Vec<RawBeacon> = Vec::new();
    let mut current: Option<RawBeacon> = None;
    let mut ie_data: Vec<u8> = Vec::new();
    let mut i: usize = 0;
    assert(ls.subrange(0, ls.len() as int) =~= ls);
    assert(beacons_view(results@) =~= Seq::<BeaconModel>::empty());
    assert(ie_data@ =~= Seq::<u8>::empty());
    while i < lines.len()
        invariant
            i <= lines.len(),
            ls == lines@.map_values(|l: Vec<char>| l@),
            ls == text_lines(output@),
            iw_scan_walk(
                IwScan {
                    done: beacons_view(results@),
                    current: beacon_option(current),
                    ie: ie_data@,
                },
                ls.subrange(i as int, ls.len() as int),
                now,
            ) == iw_scan_walk(IwScan { done: seq![], current: None, ie: seq![] }, ls, now),
        decreases lines.len() - i,
    {
        let ghost st = IwScan {
            done: beacons_view(results@),
            current: beacon_option(current),
            ie: ie_data@,
        };
        let ghost rest = ls.subrange(i as int, ls.len() as int);
        assert(rest[0] == lines@[i as int]@);
        assert(rest.drop_first() =~= ls.subrange(i + 1, ls.len() as int));
        let t = trim_chars(&lines[i]);
        if is_bss_header_exec(&t) {
            let taken = current;
            current = None;
            match taken {
                Some(mut beacon) => {
                    beacon.ie_data = ie_data.clone();
                    let ghost before = beacons_view(results@);
                    let ghost bv = beacon@;
                    results.push(beacon);
                    assert(beacons_view(results@) =~= before.push(bv));
                },
                None => {},
            }
            ie_data = Vec::new();
            let bssid = header_bssid_exec(&t);
            current = Some(blank_raw_beacon(bssid, now));
            assert(ie_data@ =~= Seq::<u8>::empty());
        } else {
            let taken = current;
            current = None;
            match taken {
                Some(mut beacon) => {
                    read_field_line(&mut beacon, &mut ie_data, &t);
                    current = Some(beacon);
                },
                None => {},
            }
        }
        i += 1;
    }
    assert(ls.subrange(i as int, ls.len() as int) =~= Seq::<Seq<char>>::empty());
    match current {
        Some(mut beacon) => {
            beacon.ie_data = ie_data;
            let ghost before = beacons_view(results@);
            let ghost bv = beacon@;
            results.push(beacon);
            assert(beacons_view(results@) =~= before.push(bv));
        },
        None => {},
    }
    Ok(results)
}

// ============================================================================
// The current link
// ============================================================================

/// A rate such as "292.5" in tenths of a unit: decimal digits with at most
/// one decimal point, the whole part capped at 400000000 and one decimal
/// kept; 0 when the text is not such a number.
pub open spec fn tenths_of(t: Seq<char>) -> u32 {
    let parts = split_on(t, '.');
    let ip = parts[0];
    let frac = if parts.len() > 1 {
        parts[1]
    } else {
        seq![]
    };
    if parts.len() > 2 || !all_digits(ip) || !all_digits(frac) || ip.len() + frac.len() == 0 {
        0
    } else {
        let w = if decimal_value(ip) > 400_000_000 {
            400_000_000
        } else {
            decimal_value(ip)
        };
        (w * 10 + (if frac.len() > 0 {
            frac[0] as u32 - 0x30
        } else {
            0
        })) as u32
    }
}

/// Read a rate in tenths.
pub fn parse_tenths(t: &Vec<char>) -> (r: u32)
    ensures
        r == tenths_of(t@),
{
    let parts = split_chars(t, '.');
    let ghost pv = parts@.map_values(|f: Vec<char>| f@);
    proof {
        crate::textscan::lemma_split_on_nonempty_pub(t@, '.');
    }
    if parts.len() > 2 {
        return 0;
    }
    assert(pv[0] == parts@[0]@);
    let ip = digits_capped(&parts[0], 400_000_000);
    let empty: Vec<char> = Vec::new();
    let frac_ref: &Vec<char> = if parts.len() > 1 {
        &parts[1]
    } else {
        &empty
    };
    proof {
        if parts.len() > 1 {
            assert(pv[1] == parts@[1]@);
        }
    }
    let fr = digits_capped(frac_ref, 0);
    match (ip, fr) {
        (Some(w), Some(_)) => {
            if parts[0].len() == 0 && frac_ref.len() == 0 {
                return 0;
            }
            proof {
                lemma_decimal_nonneg(pv[0]);
            }
            let d: u64 = if frac_ref.len() > 0 {
                assert(crate::textscan::is_digit(frac_ref@[0]));
                (frac_ref[0] as u32 - 0x30) as u64
            } else {
                0
            };
            (w * 10 + d) as u32
        },
        _ => 0,
    }
}

/// "Connected to " gives the BSSID (all zeros when it does not parse).
pub open spec fn connected_bssid(t: Seq<char>) -> Seq<u8> {
    let f0 = first_field(t, '(');
    let part = spec_trim(
        if starts_with(f0, "Connected to "@) {
            f0.subrange(13, f0.len() as int)
        } else {
            seq![]
        },
    );
    match spec_parse_bssid(part) {
        Some(b) => b,
        None => seq![0u8, 0, 0, 0, 0, 0],
    }
}

/// Effect of a (trimmed) line of `iw dev <iface> link` output.
pub open spec fn link_step(b: BeaconModel, t: Seq<char>) -> BeaconModel {
    if starts_with(t, "Connected to "@) {
        BeaconModel { bssid: connected_bssid(t), ..b }
    } else if starts_with(t, "SSID:"@) {
        BeaconModel { ssid: Some(encode_utf8(spec_trim(t.subrange(5, t.len() as int)))), ..b }
    } else if starts_with(t, "freq:"@) {
        freq_line(b, seq![], t).0
    } else if starts_with(t, "signal:"@) {
        let clean = spec_trim(remove_all(field_or(t, ':', 1, "-100 dBm"@), " dBm"@));
        BeaconModel {
            signal_dbm: match parse_signed(clean, i16::MIN as int, i16::MAX as int) {
                Some(v) => v as i16,
                None => -100i16,
            },
            ..b
        }
    } else if starts_with(t, "tx bitrate:"@) {
        let clean = spec_trim(remove_all(field_or(t, ':', 1, "0 MBit/s"@), " MBit/s"@));
        BeaconModel {
            link_rates: Some(LinkRates { rx_rate_tenths: None, tx_rate_tenths: Some(tenths_of(clean)) }),
            ..b
        }
    } else {
        b
    }
}

/// The link after the lines `ls`.
pub open spec fn link_walk(b: BeaconModel, ls: Seq<Seq<char>>) -> BeaconModel
    decreases ls.len(),
{
    if ls.len() == 0 {
        b
    } else {
        link_walk(link_step(b, spec_trim(ls[0])), ls.drop_first())
    }
}

/// The connected network of `iw dev <iface> link` output read at time
/// `now`: none when it says "Not connected".
pub open spec fn spec_parse_iw_link(output: Seq<char>, now: u64) -> Option<BeaconModel> {
    if occurs_in(output, "Not connected"@) {
        None
    } else {
        Some(
            link_walk(
                BeaconModel { connected: true, ..blank_beacon(seq![0u8, 0, 0, 0, 0, 0], now) },
                text_lines(output),
            ),
        )
    }
}

fn connected_bssid_exec(t: &Vec<char>) -> (r: [u8; 6])
    ensures
        r@ == connected_bssid(t@),
{
    let f0 = first_field_of(t, '(');
    let mut rest: Vec<char> = Vec::new();
    if has_prefix(&f0, "Connected to ") {
        assert("Connected to "@.len() == 13) by {
            reveal_strlit("Connected to ");
        }
        let mut i: usize = 13;
        while i < f0.len()
            invariant
                13 <= i <= f0.len(),
                rest@ == f0@.subrange(13, i as int),
            decreases f0.len() - i,
        {
            rest.push(f0[i]);
            assert(rest@ =~= f0@.subrange(13, i + 1));
            i += 1;
        }
    } else {
        assert(rest@ =~= Seq::<char>::empty());
    }
    let part = trim_chars(&rest);
    match parse_bssid_chars(&part) {
        Ok(b) => b,
        Err(_) => {
            let z = [0u8; 6];
            assert(z@ =~= seq![0u8, 0, 0, 0, 0, 0]);
            z
        },
    }
}

fn read_link_line(b: &mut RawBeacon, t: &Vec<char>)
    ensures
        final(b)@ == link_step(old(b)@, t@),
{
    if has_prefix(t, "Connected to ") {
        b.bssid = connected_bssid_exec(t);
    } else if has_prefix(t, "SSID:") {
        let mut ie: Vec<u8> = Vec::new();
        let ghost before = b@;
        read_ssid_line(b, &mut ie, t);
        proof {
            reveal(ssid_line);
        }
    } else if has_prefix(t, "freq:") {
        let mut ie: Vec<u8> = Vec::new();
        read_freq_line(b, &mut ie, t);
        proof {
            reveal(freq_line);
        }
    } else if has_prefix(t, "signal:") {
        let full = field_or_default(t, ':', 1, "-100 dBm");
        let clean = remove_text(&full, " dBm");
        let trimmed = trim_chars(&clean);
        b.signal_dbm = match parse_signed_within(&trimmed, -32768, 32767) {
            Some(v) => v as i16,
            None => -100,
        };
    } else if has_prefix(t, "tx bitrate:") {
        let full = field_or_default(t, ':', 1, "0 MBit/s");
        let clean = remove_text(&full, " MBit/s");
        let trimmed = trim_chars(&clean);
        b.link_rates = Some(LinkRates { rx_rate_tenths: None, tx_rate_tenths: Some(parse_tenths(&trimmed)) });
    }
}

/// Read `iw dev <iface> link` output into the connected network's beacon,
/// stamped with the time `now`.
pub fn parse_iw_link(output: &str, now: u64) -> (r: Option<RawBeacon>)
    ensures
        beacon_option(r) == spec_parse_iw_link(output@, now),
{
    let chars = chars_of(output);
    if has_text_in(&chars, "Not connected") {
        return None;
    }
    let lines = split_lines(&chars);
    let ghost ls = lines@.map_values(|l: Vec<char>| l@);
    let zeros: [u8; 6] = [0u8; 6];
    assert(zeros@ =~= seq![0u8, 0, 0, 0, 0, 0]);
    let mut beacon = blank_raw_beacon(zeros, now);
    beacon.connected = true;
    let ghost start = beacon@;
    let mut i: usize = 0;
    assert(ls.subrange(0, ls.len() as int) =~= ls);
    while i < lines.len()
        invariant
            i <= lines.len(),
            ls == lines@.map_values(|l: Vec<char>| l@),
            ls == text_lines(output@),
            link_walk(beacon@, ls.subrange(i as int, ls.len() as int)) == link_walk(start, ls),
        decreases lines.len() - i,
    {
        let ghost rest = ls.subrange(i as int, ls.len() as int);
        assert(rest[0] == lines@[i as int]@);
        assert(rest.drop_first() =~= ls.subrange(i + 1, ls.len() as int));
        let t = trim_chars(&lines[i]);
        read_link_line(&mut beacon, &t);
        i += 1;
    }
    assert(ls.subrange(i as int, ls.len() as int) =~= Seq::<Seq<char>>::empty());
    Some(beacon)
}

// ============================================================================
// `iw dev`
// ============================================================================

/// The interface that `iw dev` lists first: on the first line that starts
/// (after trimming) with "Interface ", the word after it.  `None` when no
/// line does.
pub open spec fn spec_iw_dev_interface(lines: Seq<Seq<char>>) -> Option<Option<Seq<char>>>
    decreases lines.len(),
{
    if lines.len() == 0 {
        None
    } else {
        let l = spec_trim(lines[0]);
        if starts_with(l, "Interface "@) {
            Some(
                if words(l).len() > 1 {
                    Some(words(l)[1])
                } else {
                    None
                },
            )
        } else {
            spec_iw_dev_interface(lines.drop_first())
        }
    }
}

/// The interface that `iw dev` output lists first.
pub fn interface_from_iw_dev(output: &str) -> (r: Option<Option<String>>)
    ensures
        match r {
            None => spec_iw_dev_interface(text_lines(output@)) is None,
            Some(None) => spec_iw_dev_interface(text_lines(output@)) == Some(
                None::<Seq<char>>,
            ),
            Some(Some(name)) => spec_iw_dev_interface(text_lines(output@)) == Some(
                Some(name@),
            ),
        },
{
    let text = chars_of(output);
    let lines = split_lines(&text);
    let ghost lv = lines@.map_values(|l: Vec<char>| l@);
    let mut i: usize = 0;
    assert(lv.skip(0) =~= lv);
    while i < lines.len()
        invariant
            lv == lines@.map_values(|l: Vec<char>| l@),
            lv == text_lines(output@),
            i <= lines.len(),
            spec_iw_dev_interface(lv) == spec_iw_dev_interface(lv.skip(i as int)),
        decreases lines.len() - i,
    {
        assert(lv.skip(i as int)[0] == lines@[i as int]@);
        let line = trim_chars(&lines[i]);
        if has_prefix(&line, "Interface ") {
            let ws = split_words(&line);
            assert(ws@.map_values(|w: Vec<char>| w@).len() == ws.len());
            if ws.len() > 1 {
                assert(ws@.map_values(|w: Vec<char>| w@)[1] == ws@[1]@);
                return Some(Some(string_of_chars(ws[1].as_slice())));
            }
            return Some(None);
        }
        assert(lv.skip(i as int).drop_first() =~= lv.skip(i + 1));
        i += 1;
    }
    None
}

} // verus!
