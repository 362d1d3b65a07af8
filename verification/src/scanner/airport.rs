//! The macOS airport tool: networks of its XML scan listing and the
//! connection its `-I` report describes.
use vstd::prelude::*;
use vstd::utf8::encode_utf8;
use crate::scanner::iw::{parse_bssid, spec_parse_bssid};
use crate::text::{chars_of, same_text, spec_trim, string_of_chars};
use crate::textscan::{
    field_of, has_prefix, has_text_in, nth_field, occurs_in, parse_signed, parse_signed_within,
    parse_unsigned, parse_unsigned_upto, split_chars, split_lines, split_on, starts_with,
    text_lines, trim_chars,
};
use crate::types::{blank_beacon, spec_band_from_channel, Band, BeaconModel, RawBeacon, ScanError};

verus! {

// ============================================================================
// The scan listing
// ============================================================================

/// One network of the scan listing, with the values its dictionary holds:
/// texts for text entries, integers for integer entries, bytes for data.
#[derive(Clone, Debug)]
pub struct PlistNetwork {
    pub bssid: Option<String>,
    pub ssid: Option<String>,
    pub channel: Option<i128>,
    pub rssi: Option<i128>,
    pub noise: Option<i128>,
    pub ie: Option<Vec<u8>>,
    pub beacon_interval: Option<i128>,
}

/// An integer entry read as a signed 64-bit integer, when it is one.
pub open spec fn signed_entry(v: Option<i128>) -> Option<i64> {
    match v {
        Some(x) => if i64::MIN <= x <= i64::MAX {
            Some(x as i64)
        } else {
            None
        },
        None => None,
    }
}

fn signed_entry_exec(v: Option<i128>) -> (r: Option<i64>)
    ensures
        r == signed_entry(v),
{
    match v {
        Some(x) => if i64::MIN as i128 <= x && x <= i64::MAX as i128 {
            Some(x as i64)
        } else {
            None
        },
        None => None,
    }
}

/// The message of a BSSID of the listing that does not read: the wrong
/// number of parts, or a part that is not a hexadecimal byte.
pub open spec fn listing_bssid_error(s: Seq<char>) -> Seq<char> {
    if split_on(s, ':').len() != 6 {
        "Invalid BSSID format"@
    } else {
        "Invalid BSSID byte"@
    }
}

/// Read a BSSID of the listing.
pub fn listing_bssid(s: &str) -> (r: Result<[u8; 6], ScanError>)
    ensures
        match r {
            Ok(b) => spec_parse_bssid(s@) == Some(b@),
            Err(e) => spec_parse_bssid(s@) is None && (e matches ScanError::ParseError(m) && m@
                == listing_bssid_error(s@)),
        },
{
    match parse_bssid(s) {
        Ok(b) => Ok(b),
        Err(_) => {
            let cs = chars_of(s);
            let parts = split_chars(&cs, ':');
            assert(parts@.map_values(|f: Vec<char>| f@).len() == parts.len());
            if parts.len() != 6 {
                Err(ScanError::ParseError("Invalid BSSID format".to_owned()))
            } else {
                Err(ScanError::ParseError("Invalid BSSID byte".to_owned()))
            }
        },
    }
}

/// The beacon a network of the listing describes, seen at `now`: its
/// BSSID must be there and read; a missing channel is 0, a missing signal
/// or noise -100 dBm, a missing beacon interval 100 TU; integers are cut to
/// the width of their field.
pub open spec fn spec_listing_beacon(e: PlistNetwork, bssid: Seq<u8>, now: u64) -> BeaconModel {
    let channel: u8 = match signed_entry(e.channel) {
        Some(v) => v as u8,
        None => 0,
    };
    BeaconModel {
        ssid: match e.ssid {
            Some(s) => Some(encode_utf8(s@)),
            None => None,
        },
        channel,
        band: spec_band_from_channel(channel),
        signal_dbm: match signed_entry(e.rssi) {
            Some(v) => v as i16,
            None => -100i16,
        },
        noise_dbm: match signed_entry(e.noise) {
            Some(v) => v as i16,
            None => -100i16,
        },
        ie_data: match e.ie {
            Some(d) => d@,
            None => seq![],
        },
        beacon_interval: match signed_entry(e.beacon_interval) {
            Some(v) => v as u16,
            None => 100,
        },
        ..blank_beacon(bssid, now)
    }
}

/// Read one network of the listing.
pub fn network_from_plist(e: PlistNetwork, now: u64) -> (r: Result<RawBeacon, ScanError>)
    ensures
        e.bssid is None ==> (r matches Err(ScanError::ParseError(m)) && m@ == "Missing BSSID"@),
        e.bssid matches Some(t) ==> match spec_parse_bssid(t@) {
            Some(b) => r matches Ok(beacon) && beacon@ == spec_listing_beacon(e, b, now),
            None => r matches Err(ScanError::ParseError(m)) && m@ == listing_bssid_error(t@),
        },
{
    let ghost e0 = e;
    let bssid = match &e.bssid {
        Some(t) => match listing_bssid(t.as_str()) {
            Ok(b) => b,
            Err(err) => {
                return Err(err);
            },
        },
        None => {
            return Err(ScanError::ParseError("Missing BSSID".to_owned()));
        },
    };
    let channel: u8 = match signed_entry_exec(e.channel) {
        Some(v) => v as u8,
        None => 0,
    };
    let signal: i16 = match signed_entry_exec(e.rssi) {
        Some(v) => v as i16,
        None => -100,
    };
    let noise: i16 = match signed_entry_exec(e.noise) {
        Some(v) => v as i16,
        None => -100,
    };
    let interval: u16 = match signed_entry_exec(e.beacon_interval) {
        Some(v) => v as u16,
        None => 100,
    };
    let ssid = match &e.ssid {
        Some(s) => Some(vstd::slice::slice_to_vec(s.as_str().as_bytes())),
        None => None,
    };
    let ie_data = match e.ie {
        Some(d) => d,
        None => Vec::new(),
    };
    let beacon = RawBeacon {
        ssid,
        bssid,
        channel,
        band: Band::from_channel(channel),
        signal_dbm: signal,
        noise_dbm: noise,
        ie_data,
        beacon_interval: interval,
        timestamp: now,
        uptime_ms: None,
        connected: false,
        link_rates: None,
        local_adapter: None,
        has_ht: false,
        has_vht: false,
        has_he: false,
        has_eht: false,
        spatial_streams: None,
    };
    assert(beacon@.ie_data == (match e0.ie {
        Some(d) => d@,
        None => Seq::<u8>::empty(),
    }));
    Ok(beacon)
}

/// The networks of the scan listing seen at `now`, in order: entries that
/// are not dictionaries (`None`) and networks that do not read are left
/// out.
pub open spec fn spec_listing(entries: Seq<Option<PlistNetwork>>, now: u64) -> Seq<BeaconModel>
    decreases entries.len(),
{
    if entries.len() == 0 {
        seq![]
    } else {
        let rest = spec_listing(entries.drop_last(), now);
        match entries.last() {
            Some(e) => match e.bssid {
                Some(t) => match spec_parse_bssid(t@) {
                    Some(b) => rest.push(spec_listing_beacon(e, b, now)),
                    None => rest,
                },
                None => rest,
            },
            None => rest,
        }
    }
}

/// Beacons by their values.
pub open spec fn beacons_view(v: Seq<RawBeacon>) -> Seq<BeaconModel> {
    v.map_values(|b: RawBeacon| b@)
}

/// Read the networks of the scan listing.
pub fn beacons_from_listing(entries: Vec<Option<PlistNetwork>>, now: u64) -> (r: Vec<RawBeacon>)
    ensures
        beacons_view(r@) == spec_listing(entries@, now),
{
    let ghost all = entries@;
    let total = entries.len();
    let mut out: Vec<RawBeacon> = Vec::new();
    let mut rest = entries;
    let mut done: usize = 0;
    assert(all.take(0) =~= Seq::<Option<PlistNetwork>>::empty());
    assert(beacons_view(out@) =~= Seq::<BeaconModel>::empty());
    while rest.len() > 0
        invariant
            all.len() == total,
            done + rest.len() == all.len(),
            rest@ == all.skip(done as int),
            beacons_view(out@) == spec_listing(all.take(done as int), now),
        decreases rest.len(),
    {
        let ghost p = all.take(done as int);
        let item = rest.remove(0);
        assert(item == all[done as int]);
        assert(all.take(done + 1) =~= p.push(item));
        assert(p.push(item).drop_last() =~= p);
        assert(rest@ =~= all.skip(done + 1));
        match item {
            Some(e) => {
                let ghost e0 = e;
                match network_from_plist(e, now) {
                    Ok(b) => {
                        let ghost before = out@;
                        out.push(b);
                        assert(beacons_view(out@) =~= beacons_view(before).push(b@));
                    },
                    Err(_) => {},
                }
            },
            None => {},
        }
        done += 1;
    }
    assert(all.take(all.len() as int) =~= all);
    out
}

// ============================================================================
// The property list
// ============================================================================

/// A value of a property list as the library reads it: arrays,
/// dictionaries (entries in their order), strings, integers (as a signed
/// and as an unsigned 64-bit value, where each fits), booleans, data, and
/// other values (reals, dates, UIDs), which nothing here reads.
#[derive(Debug)]
pub enum PlistItem {
    Array(Vec<PlistItem>),
    Dict(Vec<(String, PlistItem)>),
    Text(String),
    Integer(Option<i64>, Option<u64>),
    Bool(bool),
    Data(Vec<u8>),
    Other,
}

#[verifier::external_type_specification]
#[verifier::external_body]
pub struct ExPlistValue(plist::Value);

/// A `plist::Value` as a `PlistItem`, variant for variant.  It serves the
/// two readers below and converts what `plist` read; a value it does not
/// model (real, date, UID) becomes `Other`.
#[verifier::external_body]
fn plist_item(v: &plist::Value) -> PlistItem {
    match v {
        plist::Value::Array(a) => PlistItem::Array(a.iter().map(plist_item).collect()),
        plist::Value::Dictionary(d) => PlistItem::Dict(d.iter().map(|(k, x)| (k.clone(), plist_item(x))).collect()),
        plist::Value::String(t) => PlistItem::Text(t.clone()),
        plist::Value::Integer(i) => PlistItem::Integer(i.as_signed(), i.as_unsigned()),
        plist::Value::Boolean(b) => PlistItem::Bool(*b),
        plist::Value::Data(b) => PlistItem::Data(b.clone()),
        _ => PlistItem::Other,
    }
}

/// The property list that a text holds, as `plist::Value::from_reader`
/// reads it from the text's bytes, or the text of its error.
pub uninterp spec fn plist_of_xml(xml: Seq<char>) -> Result<PlistItem, Seq<char>>;

/// Read a property list from text.
///
/// Calls `plist::Value::from_reader` on the text's bytes; its result, a
/// function of the text alone, is named by `plist_of_xml`.
#[verifier::external_body]
pub(crate) fn read_plist(xml: &str) -> (r: Result<PlistItem, String>)
    ensures
        match r {
            Ok(v) => plist_of_xml(xml@) == Ok::<PlistItem, Seq<char>>(v),
            Err(m) => plist_of_xml(xml@) == Err::<PlistItem, Seq<char>>(m@),
        },
{
    match plist::Value::from_reader(std::io::Cursor::new(xml.as_bytes())) {
        Ok(v) => Ok(plist_item(&v)),
        Err(e) => Err(e.to_string()),
    }
}

/// The dictionary that a text holds, as `plist::from_bytes` deserializes a
/// `plist::Dictionary` from the text's bytes (entries in order), or the text
/// of its error.
pub uninterp spec fn plist_dict_of_xml(xml: Seq<char>) -> Result<Seq<(String, PlistItem)>, Seq<char>>;

/// Read a property-list dictionary from text.
///
/// Calls `plist::from_bytes::<plist::Dictionary>` on the text's bytes; its
/// result, a function of the text alone, is named by `plist_dict_of_xml`.
#[verifier::external_body]
pub(crate) fn read_plist_dict(xml: &str) -> (r: Result<Vec<(String, PlistItem)>, String>)
    ensures
        match r {
            Ok(d) => plist_dict_of_xml(xml@) == Ok::<Seq<(String, PlistItem)>, Seq<char>>(d@),
            Err(m) => plist_dict_of_xml(xml@) == Err::<Seq<(String, PlistItem)>, Seq<char>>(m@),
        },
{
    match plist::from_bytes::<plist::Dictionary>(xml.as_bytes()) {
        Ok(d) => Ok(d.iter().map(|(k, x)| (k.clone(), plist_item(x))).collect()),
        Err(e) => Err(e.to_string()),
    }
}

/// The value of the first entry of a dictionary under `key`.
pub open spec fn dict_get(d: Seq<(String, PlistItem)>, key: Seq<char>) -> Option<PlistItem>
    decreases d.len(),
{
    if d.len() == 0 {
        None
    } else if d[0].0@ == key {
        Some(d[0].1)
    } else {
        dict_get(d.drop_first(), key)
    }
}

/// A string entry.
pub open spec fn item_text(o: Option<PlistItem>) -> Option<String> {
    match o {
        Some(PlistItem::Text(t)) => Some(t),
        _ => None,
    }
}

/// An integer entry, read as signed where it fits, else as unsigned.
pub open spec fn item_integer(o: Option<PlistItem>) -> Option<i128> {
    match o {
        Some(PlistItem::Integer(sv, uv)) => match sv {
            Some(x) => Some(x as i128),
            None => match uv {
                Some(y) => Some(y as i128),
                None => None,
            },
        },
        _ => None,
    }
}

/// A data entry.
pub open spec fn item_data(o: Option<PlistItem>) -> Option<Vec<u8>> {
    match o {
        Some(PlistItem::Data(b)) => Some(b),
        _ => None,
    }
}

/// The network a dictionary of the listing describes: "BSSID" and
/// "SSID_STR" strings, "CHANNEL", "RSSI", "NOISE" and "BEACON_INT" integers
/// and "IE" data.
pub open spec fn spec_network_entry(d: Seq<(String, PlistItem)>) -> PlistNetwork {
    PlistNetwork {
        bssid: item_text(dict_get(d, "BSSID"@)),
        ssid: item_text(dict_get(d, "SSID_STR"@)),
        channel: item_integer(dict_get(d, "CHANNEL"@)),
        rssi: item_integer(dict_get(d, "RSSI"@)),
        noise: item_integer(dict_get(d, "NOISE"@)),
        ie: item_data(dict_get(d, "IE"@)),
        beacon_interval: item_integer(dict_get(d, "BEACON_INT"@)),
    }
}

/// The networks of a listing array: one per dictionary, `None` for any
/// other value.
pub open spec fn spec_entries(items: Seq<PlistItem>) -> Seq<Option<PlistNetwork>> {
    items.map_values(
        |i: PlistItem|
            match i {
                PlistItem::Dict(d) => Some(spec_network_entry(d@)),
                _ => None,
            },
    )
}

fn integer_of(v: PlistItem) -> (r: Option<i128>)
    ensures
        r == item_integer(Some(v)),
{
    match v {
        PlistItem::Integer(sv, uv) => match sv {
            Some(x) => Some(x as i128),
            None => match uv {
                Some(y) => Some(y as i128),
                None => None,
            },
        },
        _ => None,
    }
}

/// Which field of a network an entry key names.
fn key_slot(k: &String) -> (r: u8)
    ensures
        r == 1 <==> k@ == "BSSID"@,
        r == 2 <==> k@ == "SSID_STR"@,
        r == 3 <==> k@ == "CHANNEL"@,
        r == 4 <==> k@ == "RSSI"@,
        r == 5 <==> k@ == "NOISE"@,
        r == 6 <==> k@ == "IE"@,
        r == 7 <==> k@ == "BEACON_INT"@,
{
    proof {
        reveal_strlit("BSSID");
        reveal_strlit("SSID_STR");
        reveal_strlit("CHANNEL");
        reveal_strlit("RSSI");
        reveal_strlit("NOISE");
        reveal_strlit("IE");
        reveal_strlit("BEACON_INT");
        assert("BSSID"@.len() == 5 && "BSSID"@[0] == 'B');
        assert("SSID_STR"@.len() == 8);
        assert("CHANNEL"@.len() == 7);
        assert("RSSI"@.len() == 4);
        assert("NOISE"@.len() == 5 && "NOISE"@[0] == 'N');
        assert("IE"@.len() == 2);
        assert("BEACON_INT"@.len() == 10);
    }
    if same_text(k.as_str(), "BSSID") {
        1
    } else if same_text(k.as_str(), "SSID_STR") {
        2
    } else if same_text(k.as_str(), "CHANNEL") {
        3
    } else if same_text(k.as_str(), "RSSI") {
        4
    } else if same_text(k.as_str(), "NOISE") {
        5
    } else if same_text(k.as_str(), "IE") {
        6
    } else if same_text(k.as_str(), "BEACON_INT") {
        7
    } else {
        0
    }
}

/// The first entry decides: looking up a key in a dictionary that starts
/// with one more entry.
proof fn lemma_dict_get_front(d: Seq<(String, PlistItem)>, i: int, key: Seq<char>)
    requires
        0 <= i < d.len(),
    ensures
        dict_get(d.subrange(i, d.len() as int), key) == if d[i].0@ == key {
            Some(d[i].1)
        } else {
            dict_get(d.subrange(i + 1, d.len() as int), key)
        },
{
    let s = d.subrange(i, d.len() as int);
    assert(s[0] == d[i]);
    assert(s.drop_first() =~= d.subrange(i + 1, d.len() as int));
}

/// The network a dictionary of the listing describes.
pub fn network_entry(d: Vec<(String, PlistItem)>) -> (e: PlistNetwork)
    ensures
        e == spec_network_entry(d@),
{
    let ghost all = d@;
    let mut d = d;
    let mut bssid: Option<String> = None;
    let mut ssid: Option<String> = None;
    let mut channel: Option<i128> = None;
    let mut rssi: Option<i128> = None;
    let mut noise: Option<i128> = None;
    let mut ie: Option<Vec<u8>> = None;
    let mut beacon_interval: Option<i128> = None;
    assert(all.subrange(all.len() as int, all.len() as int) =~= Seq::<(String, PlistItem)>::empty());
    while d.len() > 0
        invariant
            d@ == all.subrange(0, d.len() as int),
            d.len() <= all.len(),
            bssid == item_text(dict_get(all.subrange(d.len() as int, all.len() as int), "BSSID"@)),
            ssid == item_text(dict_get(all.subrange(d.len() as int, all.len() as int), "SSID_STR"@)),
            channel == item_integer(dict_get(all.subrange(d.len() as int, all.len() as int), "CHANNEL"@)),
            rssi == item_integer(dict_get(all.subrange(d.len() as int, all.len() as int), "RSSI"@)),
            noise == item_integer(dict_get(all.subrange(d.len() as int, all.len() as int), "NOISE"@)),
            ie == item_data(dict_get(all.subrange(d.len() as int, all.len() as int), "IE"@)),
            beacon_interval == item_integer(
                dict_get(all.subrange(d.len() as int, all.len() as int), "BEACON_INT"@),
            ),
        decreases d.len(),
    {
        let ghost i = d.len() - 1;
        proof {
            lemma_dict_get_front(all, i, "BSSID"@);
            lemma_dict_get_front(all, i, "SSID_STR"@);
            lemma_dict_get_front(all, i, "CHANNEL"@);
            lemma_dict_get_front(all, i, "RSSI"@);
            lemma_dict_get_front(all, i, "NOISE"@);
            lemma_dict_get_front(all, i, "IE"@);
            lemma_dict_get_front(all, i, "BEACON_INT"@);
        }
        let (k, v) = d.pop().unwrap();
        assert((k, v) == all[i]);
        assert(d@ =~= all.subrange(0, d.len() as int));
        let slot = key_slot(&k);
        if slot == 1 {
            bssid = match v {
                PlistItem::Text(t) => Some(t),
                _ => None,
            };
        } else if slot == 2 {
            ssid = match v {
                PlistItem::Text(t) => Some(t),
                _ => None,
            };
        } else if slot == 3 {
            channel = integer_of(v);
        } else if slot == 4 {
            rssi = integer_of(v);
        } else if slot == 5 {
            noise = integer_of(v);
        } else if slot == 6 {
            ie = match v {
                PlistItem::Data(b) => Some(b),
                _ => None,
            };
        } else if slot == 7 {
            beacon_interval = integer_of(v);
        }
    }
    assert(all.subrange(0, all.len() as int) =~= all);
    PlistNetwork { bssid, ssid, channel, rssi, noise, ie, beacon_interval }
}

/// The networks of a listing array, in order.
pub fn entries_of(items: Vec<PlistItem>) -> (r: Vec<Option<PlistNetwork>>)
    ensures
        r@ == spec_entries(items@),
{
    let ghost all = items@;
    let total = items.len();
    let mut rest = items;
    let mut out: Vec<Option<PlistNetwork>> = Vec::new();
    let mut done: usize = 0;
    while rest.len() > 0
        invariant
            all.len() == total,
            done + rest.len() == total,
            rest@ == all.skip(done as int),
            out@ == spec_entries(all.take(done as int)),
        decreases rest.len(),
    {
        let item = rest.remove(0);
        assert(item == all[done as int]);
        assert(rest@ =~= all.skip(done + 1));
        let e = match item {
            PlistItem::Dict(d) => Some(network_entry(d)),
            _ => None,
        };
        out.push(e);
        assert(out@ =~= spec_entries(all.take(done + 1)));
        done += 1;
    }
    assert(all.take(total as int) =~= all);
    out
}

/// The beacons of an airport `-s -x` listing, read at `now`: the text must
/// hold a property list whose top value is an array; each dictionary of
/// the array that describes a network gives a beacon.
pub fn parse_airport_xml(xml: &str, now: u64) -> (r: Result<Vec<RawBeacon>, ScanError>)
    ensures
        match plist_of_xml(xml@) {
            Err(m) => r matches Err(ScanError::ParseError(t)) && t@ == m,
            Ok(PlistItem::Array(items)) => r matches Ok(v) && beacons_view(v@) == spec_listing(
                spec_entries(items@),
                now,
            ),
            Ok(_) => r matches Err(ScanError::ParseError(t)) && t@ == "Expected array"@,
        },
{
    match read_plist(xml) {
        Err(m) => Err(ScanError::ParseError(m)),
        Ok(PlistItem::Array(items)) => {
            let entries = entries_of(items);
            Ok(beacons_from_listing(entries, now))
        },
        Ok(_) => {
            proof {
                reveal_strlit("Expected array");
            }
            Err(ScanError::ParseError("Expected array".to_owned()))
        },
    }
}

// ============================================================================
// The `-I` report
// ============================================================================

/// What the report has said so far.
pub struct InfoState {
    pub ssid: Option<Seq<u8>>,
    pub bssid: Seq<u8>,
    pub channel: u8,
    pub signal: i16,
}

/// Effect of one (trimmed) line of the report.
pub open spec fn info_step(st: InfoState, t: Seq<char>) -> InfoState {
    if starts_with(t, "SSID:"@) {
        InfoState { ssid: Some(encode_utf8(spec_trim(t.subrange(5, t.len() as int)))), ..st }
    } else if starts_with(t, "BSSID:"@) {
        match spec_parse_bssid(spec_trim(t.subrange(6, t.len() as int))) {
            Some(b) => InfoState { bssid: b, ..st },
            None => st,
        }
    } else if starts_with(t, "agrCtlRSSI:"@) {
        InfoState {
            signal: match parse_signed(
                spec_trim(t.subrange(11, t.len() as int)),
                i16::MIN as int,
                i16::MAX as int,
            ) {
                Some(v) => v as i16,
                None => -100i16,
            },
            ..st
        }
    } else if starts_with(t, "channel:"@) {
        InfoState {
            channel: match field_of(spec_trim(t.subrange(8, t.len() as int)), ',', 0) {
                Some(f) => match parse_unsigned(f, 255) {
                    Some(v) => v as u8,
                    None => 0u8,
                },
                None => 0u8,
            },
            ..st
        }
    } else {
        st
    }
}

/// The state after the lines `ls`.
pub open spec fn info_walk(st: InfoState, ls: Seq<Seq<char>>) -> InfoState
    decreases ls.len(),
{
    if ls.len() == 0 {
        st
    } else {
        info_walk(info_step(st, spec_trim(ls[0])), ls.drop_first())
    }
}

/// The connected network that the report describes, seen at `now`: none
/// when it names no SSID.
pub open spec fn spec_current_info(output: Seq<char>, now: u64) -> Option<BeaconModel> {
    let st = info_walk(
        InfoState { ssid: None, bssid: seq![0u8, 0, 0, 0, 0, 0], channel: 0, signal: -100i16 },
        text_lines(output),
    );
    match st.ssid {
        Some(s) => Some(
            BeaconModel {
                ssid: Some(s),
                channel: st.channel,
                band: spec_band_from_channel(st.channel),
                signal_dbm: st.signal,
                noise_dbm: -90i16,
                beacon_interval: 100,
                connected: true,
                ..blank_beacon(st.bssid, now)
            },
        ),
        None => None,
    }
}

/// The characters of `t` from position `n` on.
fn tail_from(t: &Vec<char>, n: usize) -> (r: Vec<char>)
    requires
        n <= t.len(),
    ensures
        r@ == t@.subrange(n as int, t.len() as int),
{
    let mut r: Vec<char> = Vec::new();
    let mut i: usize = n;
    while i < t.len()
        invariant
            n <= i <= t.len(),
            r@ == t@.subrange(n as int, i as int),
        decreases t.len() - i,
    {
        r.push(t[i]);
        assert(r@ =~= t@.subrange(n as int, i + 1));
        i += 1;
    }
    r
}

/// Read the connected network from the airport `-I` report.
pub fn parse_current_info(output: &str, now: u64) -> (r: Option<RawBeacon>)
    ensures
        match r {
            Some(b) => spec_current_info(output@, now) == Some(b@),
            None => spec_current_info(output@, now) is None,
        },
{
    let text = chars_of(output);
    let lines = split_lines(&text);
    let ghost ls = lines@.map_values(|l: Vec<char>| l@);
    let ghost start = InfoState {
        ssid: None,
        bssid: seq![0u8, 0, 0, 0, 0, 0],
        channel: 0,
        signal: -100i16,
    };
    let mut ssid: Option<Vec<u8>> = None;
    let mut bssid: [u8; 6] = [0u8; 6];
    let mut channel: u8 = 0;
    let mut signal: i16 = -100;
    assert(bssid@ =~= seq![0u8, 0, 0, 0, 0, 0]);
    assert(ls.skip(0) =~= ls);
    proof {
        reveal_strlit("SSID:");
        reveal_strlit("BSSID:");
        reveal_strlit("agrCtlRSSI:");
        reveal_strlit("channel:");
    }
    let mut i: usize = 0;
    while i < lines.len()
        invariant
            ls == lines@.map_values(|l: Vec<char>| l@),
            ls == text_lines(output@),
            i <= lines.len(),
            "SSID:"@.len() == 5,
            "BSSID:"@.len() == 6,
            "agrCtlRSSI:"@.len() == 11,
            "channel:"@.len() == 8,
            info_walk(start, ls) == info_walk(
                InfoState {
                    ssid: match ssid {
                        Some(v) => Some(v@),
                        None => None,
                    },
                    bssid: bssid@,
                    channel,
                    signal,
                },
                ls.skip(i as int),
            ),
        decreases lines.len() - i,
    {
        assert(ls.skip(i as int)[0] == lines@[i as int]@);
        assert(ls.skip(i as int).drop_first() =~= ls.skip(i + 1));
        let t = trim_chars(&lines[i]);
        if has_prefix(&t, "SSID:") {
            let rest = tail_from(&t, 5);
            let trimmed = trim_chars(&rest);
            let s = string_of_chars(trimmed.as_slice());
            ssid = Some(vstd::slice::slice_to_vec(s.as_str().as_bytes()));
        } else if has_prefix(&t, "BSSID:") {
            let rest = tail_from(&t, 6);
            let trimmed = trim_chars(&rest);
            let s = string_of_chars(trimmed.as_slice());
            match parse_bssid(s.as_str()) {
                Ok(b) => {
                    bssid = b;
                },
                Err(_) => {},
            }
        } else if has_prefix(&t, "agrCtlRSSI:") {
            let rest = tail_from(&t, 11);
            let trimmed = trim_chars(&rest);
            signal = match parse_signed_within(&trimmed, -32768, 32767) {
                Some(v) => v as i16,
                None => -100,
            };
        } else if has_prefix(&t, "channel:") {
            let rest = tail_from(&t, 8);
            let trimmed = trim_chars(&rest);
            channel = match nth_field(&trimmed, ',', 0) {
                Some(f) => match parse_unsigned_upto(&f, 255) {
                    Some(v) => v as u8,
                    None => 0,
                },
                None => 0,
            };
        }
        i += 1;
    }
    assert(ls.skip(i as int) =~= Seq::<Seq<char>>::empty());
    match ssid {
        Some(s) => Some(
            RawBeacon {
                ssid: Some(s),
                bssid,
                channel,
                band: Band::from_channel(channel),
                signal_dbm: signal,
                noise_dbm: -90i16,
                ie_data: Vec::new(),
                beacon_interval: 100,
                timestamp: now,
                uptime_ms: None,
                connected: true,
                link_rates: None,
                local_adapter: None,
                has_ht: false,
                has_vht: false,
                has_he: false,
                has_eht: false,
                spatial_streams: None,
            },
        ),
        None => None,
    }
}

/// The connected network of the airport `-I` report: none when WiFi is off
/// or the report is empty.
pub fn current_from_info(output: &str, now: u64) -> (r: Option<RawBeacon>)
    ensures
        (occurs_in(output@, "AirPort: Off"@) || output@.len() == 0) ==> r is None,
        !(occurs_in(output@, "AirPort: Off"@) || output@.len() == 0) ==> match r {
            Some(b) => spec_current_info(output@, now) == Some(b@),
            None => spec_current_info(output@, now) is None,
        },
{
    let text = chars_of(output);
    if has_text_in(&text, "AirPort: Off") || text.len() == 0 {
        return None;
    }
    parse_current_info(output, now)
}

} // verus!
