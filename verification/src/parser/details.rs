//! Element-by-element description of a beacon for display: every element's
//! name, raw bytes in hexadecimal, the values read from it, a one-line
//! summary and labelled fields.
use vstd::prelude::*;
use vstd::utf8::{decode_utf8, valid_utf8};
use crate::parser::capabilities::{country_code_of, country_of};
use crate::parser::elements::{
    elements, lemma_elements_start, lemma_elements_step, lemma_elements_stop, Element,
};
use crate::parser::names::{ext_ie_name, ie_name, spec_ext_ie_name, spec_ie_name};
use crate::parser::phy::{count_supported_streams_from_mcs_map, le16, mcs_map_streams};
use crate::parser::rsn::{parse_rsn, spec_parse_rsn};
use crate::vendor::{lookup_oui, spec_lookup_oui};
use crate::text::{
    ascii_upper, ascii_uppercase, decimal_string, decode_utf8_exact, hex_digit, hex_digit_exec,
    hex_digit_lower, hex_encode, lower_hex, push_decimal, push_str, spec_decimal, string_of_chars,
    decode_hex_data, spec_hex_decode,
};
use vstd::string::StringSliceAdditionalSpecFns;

verus! {

// ============================================================================
// Types
// ============================================================================

/// A labelled value shown for an element.
#[derive(Clone, Debug)]
pub struct ParsedField {
    pub label: String,
    pub value: String,
    pub highlighted: bool,
}

/// A displayed field by its characters.
pub struct FieldModel {
    pub label: Seq<char>,
    pub value: Seq<char>,
    pub highlighted: bool,
}

impl View for ParsedField {
    type V = FieldModel;

    open spec fn view(&self) -> FieldModel {
        FieldModel { label: self.label@, value: self.value@, highlighted: self.highlighted }
    }
}

/// Fields by their characters.
pub open spec fn fields_view(v: Seq<ParsedField>) -> Seq<FieldModel> {
    v.map_values(|f: ParsedField| f@)
}

/// A plain field.
pub open spec fn fm(label: Seq<char>, value: Seq<char>) -> FieldModel {
    FieldModel { label, value, highlighted: false }
}

/// A highlighted field.
pub open spec fn hfm(label: Seq<char>, value: Seq<char>) -> FieldModel {
    FieldModel { label, value, highlighted: true }
}

/// A description: summary, vendor name and fields.
pub type Description = (Seq<char>, Option<Seq<char>>, Seq<FieldModel>);

/// A description by its characters.
pub open spec fn description_view(d: (String, Option<String>, Vec<ParsedField>)) -> Description {
    (
        d.0@,
        match d.1 {
            Some(v) => Some(v@),
            None => None,
        },
        fields_view(d.2@),
    )
}

/// Values read from an element.
#[derive(Clone, Debug)]
pub struct IeContent {
    /// SSID element: the SSID when its bytes are valid UTF-8.
    pub ssid: Option<String>,
    /// Rates elements: the rates, as "1 Mbps, 5.5 Mbps, ...".
    pub rates: Option<String>,
    /// DS parameter set: the channel.
    pub channel: Option<u8>,
    /// BSS load: associated stations.
    pub station_count: Option<u16>,
    /// BSS load: channel utilization (0-255).
    pub channel_utilization: Option<u8>,
    /// Extended element: extension id.
    pub extension_id: Option<u8>,
    /// Extended element: extension name.
    pub extension_name: Option<String>,
}

/// The values of an element by their characters.
pub struct ContentModel {
    pub ssid: Option<Seq<char>>,
    pub rates: Option<Seq<char>>,
    pub channel: Option<u8>,
    pub station_count: Option<u16>,
    pub channel_utilization: Option<u8>,
    pub extension_id: Option<u8>,
    pub extension_name: Option<Seq<char>>,
}

/// An optional string by its characters.
pub open spec fn opt_text(o: Option<String>) -> Option<Seq<char>> {
    match o {
        Some(s) => Some(s@),
        None => None,
    }
}

impl View for IeContent {
    type V = ContentModel;

    open spec fn view(&self) -> ContentModel {
        ContentModel {
            ssid: opt_text(self.ssid),
            rates: opt_text(self.rates),
            channel: self.channel,
            station_count: self.station_count,
            channel_utilization: self.channel_utilization,
            extension_id: self.extension_id,
            extension_name: opt_text(self.extension_name),
        }
    }
}

// ============================================================================
// Values of an element
// ============================================================================

/// One rate in Mbps: the low seven bits count half megabits ("5.5 Mbps",
/// "11 Mbps").
pub open spec fn rate_text(b: u8) -> Seq<char> {
    let v = b & 0x7F;
    spec_decimal((v / 2) as u64) + (if v % 2 == 1 {
        ".5"@
    } else {
        seq![]
    }) + " Mbps"@
}

/// The rates of a rates element, separated by ", ".
pub open spec fn rates_text(d: Seq<u8>) -> Seq<char>
    decreases d.len(),
{
    if d.len() == 0 {
        seq![]
    } else if d.len() == 1 {
        rate_text(d[0])
    } else {
        rates_text(d.drop_last()) + ", "@ + rate_text(d.last())
    }
}

/// The values read from an element body.
pub open spec fn spec_content(id: u8, d: Seq<u8>) -> ContentModel {
    ContentModel {
        ssid: if id == 0 && valid_utf8(d) {
            Some(decode_utf8(d))
        } else {
            None
        },
        rates: if id == 1 || id == 50 {
            Some(rates_text(d))
        } else {
            None
        },
        channel: if id == 3 && d.len() > 0 {
            Some(d[0])
        } else {
            None
        },
        station_count: if id == 11 && d.len() >= 5 {
            Some(le16(d[0], d[1]))
        } else {
            None
        },
        channel_utilization: if id == 11 && d.len() >= 5 {
            Some(d[2])
        } else {
            None
        },
        extension_id: if id == 255 && d.len() >= 1 {
            Some(d[0])
        } else {
            None
        },
        extension_name: if id == 255 && d.len() >= 1 {
            Some(spec_ext_ie_name(d[0])@)
        } else {
            None
        },
    }
}

fn push_rate(v: &mut Vec<char>, b: u8)
    ensures
        final(v)@ == old(v)@ + rate_text(b),
{
    let r = b & 0x7F;
    push_decimal(v, (r / 2) as u64);
    let ghost mid = v@;
    if r % 2 == 1 {
        push_str(v, ".5");
    } else {
        assert(v@ =~= mid + Seq::<char>::empty());
    }
    push_str(v, " Mbps");
    assert(v@ =~= old(v)@ + rate_text(b));
}

fn rates_string(d: &[u8]) -> (s: String)
    ensures
        s@ == rates_text(d@),
{
    let mut v: Vec<char> = Vec::new();
    let mut i: usize = 0;
    while i < d.len()
        invariant
            i <= d.len(),
            v@ == rates_text(d@.subrange(0, i as int)),
        decreases d.len() - i,
    {
        let ghost prev = d@.subrange(0, i as int);
        assert(d@.subrange(0, i + 1).drop_last() =~= prev);
        assert(d@.subrange(0, i + 1).last() == d@[i as int]);
        if i > 0 {
            push_str(&mut v, ", ");
        }
        push_rate(&mut v, d[i]);
        i += 1;
    }
    assert(d@.subrange(0, d.len() as int) =~= d@);
    string_of_chars(v.as_slice())
}

/// Read the values an element carries.
pub fn parse_ie_content(id: u8, data: &[u8]) -> (c: IeContent)
    ensures
        c@ == spec_content(id, data@),
{
    let mut c = IeContent {
        ssid: None,
        rates: None,
        channel: None,
        station_count: None,
        channel_utilization: None,
        extension_id: None,
        extension_name: None,
    };
    if id == 0 {
        c.ssid = decode_utf8_exact(data);
    } else if id == 1 || id == 50 {
        c.rates = Some(rates_string(data));
    } else if id == 3 {
        if data.len() > 0 {
            c.channel = Some(data[0]);
        }
    } else if id == 11 {
        if data.len() >= 5 {
            c.station_count = Some((data[0] as u16) | ((data[1] as u16) << 8u16));
            c.channel_utilization = Some(data[2]);
        }
    } else if id == 255 && data.len() >= 1 {
        c.extension_id = Some(data[0]);
        c.extension_name = Some(ext_ie_name(data[0]).to_owned());
    }
    c
}

// ============================================================================
// Fields
// ============================================================================

fn field(label: &str, value: String) -> (f: ParsedField)
    ensures
        f@ == fm(label@, value@),
{
    ParsedField { label: label.to_owned(), value, highlighted: false }
}

fn highlighted_field(label: &str, value: String) -> (f: ParsedField)
    ensures
        f@ == hfm(label@, value@),
{
    ParsedField { label: label.to_owned(), value, highlighted: true }
}

/// "Supported" or "Not supported".
pub open spec fn support_text(b: bool) -> Seq<char> {
    if b {
        "Supported"@
    } else {
        "Not supported"@
    }
}

fn bool_text(value: bool) -> (s: &'static str)
    ensures
        s@ == support_text(value),
{
    if value {
        "Supported"
    } else {
        "Not supported"
    }
}

/// Upper-case hexadecimal digits of a byte.
pub open spec fn hex_pair_upper(b: u8) -> Seq<char> {
    seq![hex_digit(b / 16), hex_digit(b % 16)]
}

/// The OUI of a vendor-specific body as "00:50:F2".
pub open spec fn oui_text(d: Seq<u8>) -> Seq<char> {
    hex_pair_upper(d[0]) + ":"@ + hex_pair_upper(d[1]) + ":"@ + hex_pair_upper(d[2])
}

fn push_hex_pair(v: &mut Vec<char>, b: u8)
    ensures
        final(v)@ == old(v)@ + hex_pair_upper(b),
{
    v.push(hex_digit_exec(b / 16));
    v.push(hex_digit_exec(b % 16));
    assert(v@ =~= old(v)@ + hex_pair_upper(b));
}

fn format_vendor_oui(data: &[u8]) -> (r: Option<String>)
    ensures
        opt_text(r) == (if data.len() < 3 {
            None
        } else {
            Some(oui_text(data@))
        }),
{
    if data.len() < 3 {
        return None;
    }
    let mut v: Vec<char> = Vec::new();
    push_hex_pair(&mut v, data[0]);
    push_str(&mut v, ":");
    push_hex_pair(&mut v, data[1]);
    push_str(&mut v, ":");
    push_hex_pair(&mut v, data[2]);
    assert(v@ =~= oui_text(data@));
    Some(string_of_chars(v.as_slice()))
}

/// Text made of pieces.
fn concat_text(a: &str, b: &str) -> (s: String)
    ensures
        s@ == a@ + b@,
{
    let mut v: Vec<char> = Vec::new();
    push_str(&mut v, a);
    push_str(&mut v, b);
    assert(v@ =~= a@ + b@);
    string_of_chars(v.as_slice())
}

// ============================================================================
// Per-element descriptions
// ============================================================================

/// HT capabilities: width from bit 1 of byte 0, short GI from bits 6-7 of
/// byte 0, transmit beamforming from bit 4 of byte 1, streams from the
/// non-zero bytes among the first four MCS bytes (3-6), at least one.
pub open spec fn spec_describe_ht_capabilities(d: Seq<u8>) -> Description {
    if d.len() < 3 {
        ("HT capabilities"@, None, seq![])
    } else {
        let width = if d[0] & 0x02 != 0 {
            "20/40 MHz"@
        } else {
            "20 MHz"@
        };
        let short_gi = d[0] & 0x40 != 0 || d[0] & 0x80 != 0;
        let txbf = d[1] & 0x10 != 0;
        let streams: u64 = if d.len() >= 19 {
            let n = (if d[3] != 0 {
                1int
            } else {
                0
            }) + (if d[4] != 0 {
                1int
            } else {
                0
            }) + (if d[5] != 0 {
                1int
            } else {
                0
            }) + (if d[6] != 0 {
                1int
            } else {
                0
            });
            if n > 1 {
                n as u64
            } else {
                1
            }
        } else {
            1
        };
        (
            "Wi-Fi 4 PHY, "@ + spec_decimal(streams) + " stream(s), "@ + width,
            None,
            seq![
                hfm("Channel width"@, width),
                hfm("Spatial streams"@, spec_decimal(streams)),
                fm("Short GI"@, support_text(short_gi)),
                fm("Tx beamforming"@, support_text(txbf)),
            ],
        )
    }
}

fn describe_ht_capabilities(data: &[u8]) -> (r: (String, Option<String>, Vec<ParsedField>))
    ensures
        description_view(r) == spec_describe_ht_capabilities(data@),
{
    if data.len() < 3 {
        let r = ("HT capabilities".to_owned(), None, Vec::new());
        assert(fields_view(r.2@) =~= Seq::<FieldModel>::empty());
        return r;
    }
    let width = if (data[0] & 0x02) != 0 {
        "20/40 MHz"
    } else {
        "20 MHz"
    };
    let short_gi = (data[0] & 0x40) != 0 || (data[0] & 0x80) != 0;
    let txbf = (data[1] & 0x10) != 0;
    let streams: u64 = if data.len() >= 19 {
        let mut n: u64 = 0;
        if data[3] != 0 {
            n += 1;
        }
        if data[4] != 0 {
            n += 1;
        }
        if data[5] != 0 {
            n += 1;
        }
        if data[6] != 0 {
            n += 1;
        }
        if n > 1 {
            n
        } else {
            1
        }
    } else {
        1
    };
    let mut summary: Vec<char> = Vec::new();
    push_str(&mut summary, "Wi-Fi 4 PHY, ");
    push_decimal(&mut summary, streams);
    push_str(&mut summary, " stream(s), ");
    push_str(&mut summary, width);
    let fields = vec![
        highlighted_field("Channel width", width.to_owned()),
        highlighted_field("Spatial streams", decimal_string(streams)),
        field("Short GI", bool_text(short_gi).to_owned()),
        field("Tx beamforming", bool_text(txbf).to_owned()),
    ];
    let r = (string_of_chars(summary.as_slice()), None, fields);
    assert(fields_view(r.2@) =~= spec_describe_ht_capabilities(data@).2);
    r
}

/// PMF state of RSN details.
pub open spec fn pmf_text(required: bool, capable: bool) -> Seq<char> {
    if required {
        "Required"@
    } else if capable {
        "Capable"@
    } else {
        "Not advertised"@
    }
}

/// RSN: the security type in upper case, authentication, cipher and PMF.
pub open spec fn spec_describe_rsn(d: Seq<u8>) -> Description {
    let (sec, det) = spec_parse_rsn(d);
    let upper = sec.map_values(|c: char| ascii_upper(c));
    (
        upper + " security"@,
        None,
        seq![
            hfm("Security"@, upper),
            fm("Authentication"@, det.auth_method),
            fm("Cipher"@, det.cipher),
            fm("PMF"@, pmf_text(det.pmf_required, det.pmf_capable)),
        ],
    )
}

fn describe_rsn_information(data: &[u8]) -> (r: (String, Option<String>, Vec<ParsedField>))
    ensures
        description_view(r) == spec_describe_rsn(data@),
{
    let (security, details) = parse_rsn(data);
    let upper = ascii_uppercase(security.as_str());
    let summary = concat_text(upper.as_str(), " security");
    let pmf = if details.pmf_required {
        "Required"
    } else if details.pmf_capable {
        "Capable"
    } else {
        "Not advertised"
    };
    let fields = vec![
        highlighted_field("Security", upper),
        field("Authentication", details.auth_method),
        field("Cipher", details.cipher),
        field("PMF", pmf.to_owned()),
    ];
    let r = (summary, None, fields);
    assert(fields_view(r.2@) =~= spec_describe_rsn(data@).2);
    r
}

/// HT operation: primary channel from byte 0, secondary channel offset from
/// the low two bits of byte 1 (1 above, 3 below).
pub open spec fn spec_describe_ht_operation(d: Seq<u8>) -> Description {
    if d.len() < 2 {
        ("HT operation"@, None, seq![])
    } else {
        let off = d[1] & 0x03;
        let offset = if off == 1 {
            "above"@
        } else if off == 3 {
            "below"@
        } else {
            "none"@
        };
        let width = if off == 1 || off == 3 {
            "40 MHz"@
        } else {
            "20 MHz"@
        };
        (
            "Primary CH "@ + spec_decimal(d[0] as u64) + ", "@ + width,
            None,
            seq![
                hfm("Primary channel"@, spec_decimal(d[0] as u64)),
                fm("Secondary channel"@, offset),
                fm("Operating width"@, width),
            ],
        )
    }
}

fn describe_ht_operation(data: &[u8]) -> (r: (String, Option<String>, Vec<ParsedField>))
    ensures
        description_view(r) == spec_describe_ht_operation(data@),
{
    if data.len() < 2 {
        let r = ("HT operation".to_owned(), None, Vec::new());
        assert(fields_view(r.2@) =~= Seq::<FieldModel>::empty());
        return r;
    }
    let off = data[1] & 0x03;
    let offset = if off == 1 {
        "above"
    } else if off == 3 {
        "below"
    } else {
        "none"
    };
    let width = if off == 1 || off == 3 {
        "40 MHz"
    } else {
        "20 MHz"
    };
    let mut summary: Vec<char> = Vec::new();
    push_str(&mut summary, "Primary CH ");
    push_decimal(&mut summary, data[0] as u64);
    push_str(&mut summary, ", ");
    push_str(&mut summary, width);
    let fields = vec![
        highlighted_field("Primary channel", decimal_string(data[0] as u64)),
        field("Secondary channel", offset.to_owned()),
        field("Operating width", width.to_owned()),
    ];
    let r = (string_of_chars(summary.as_slice()), None, fields);
    assert(fields_view(r.2@) =~= spec_describe_ht_operation(data@).2);
    r
}

/// Extended capabilities: BSS transition from bit 3 and WNM sleep from bit
/// 6 of byte 2 (unsupported when absent).
pub open spec fn spec_describe_extended_capabilities(d: Seq<u8>) -> Description {
    let bss = d.len() > 2 && d[2] & 0x08 != 0;
    let wnm = d.len() > 2 && d[2] & 0x40 != 0;
    (
        "Extended roaming and management capabilities"@,
        None,
        seq![hfm("BSS transition (11v)"@, support_text(bss)), fm("WNM sleep"@, support_text(wnm))],
    )
}

fn describe_extended_capabilities(data: &[u8]) -> (r: (String, Option<String>, Vec<ParsedField>))
    ensures
        description_view(r) == spec_describe_extended_capabilities(data@),
{
    let bss = data.len() > 2 && (data[2] & 0x08) != 0;
    let wnm = data.len() > 2 && (data[2] & 0x40) != 0;
    let fields = vec![
        highlighted_field("BSS transition (11v)", bool_text(bss).to_owned()),
        field("WNM sleep", bool_text(wnm).to_owned()),
    ];
    let r = ("Extended roaming and management capabilities".to_owned(), None, fields);
    assert(fields_view(r.2@) =~= spec_describe_extended_capabilities(data@).2);
    r
}

/// VHT capabilities: streams from the receive MCS map (bytes 4-5, at least
/// one); short GI 80/160 from bits 5 and 6 of byte 0; SU beamformer,
/// beamformee and MU beamformer from bits 3, 4, 5 of byte 2.
pub open spec fn spec_describe_vht_capabilities(d: Seq<u8>) -> Description {
    if d.len() < 8 {
        ("VHT capabilities"@, None, seq![])
    } else {
        let n = mcs_map_streams(le16(d[4], d[5]));
        let streams: u64 = if n > 1 {
            n as u64
        } else {
            1
        };
        (
            "Wi-Fi 5 PHY, "@ + spec_decimal(streams) + " stream(s), VHT beamforming"@,
            None,
            seq![
                hfm("Spatial streams"@, spec_decimal(streams)),
                fm("Short GI 80 MHz"@, support_text(d[0] & 0x20 != 0)),
                fm("Short GI 160 MHz"@, support_text(d[0] & 0x40 != 0)),
                fm("SU beamformer"@, support_text(d[2] & 0x08 != 0)),
                fm("SU beamformee"@, support_text(d[2] & 0x10 != 0)),
                fm("MU beamformer"@, support_text(d[2] & 0x20 != 0)),
            ],
        )
    }
}

fn describe_vht_capabilities(data: &[u8]) -> (r: (String, Option<String>, Vec<ParsedField>))
    ensures
        description_view(r) == spec_describe_vht_capabilities(data@),
{
    if data.len() < 8 {
        let r = ("VHT capabilities".to_owned(), None, Vec::new());
        assert(fields_view(r.2@) =~= Seq::<FieldModel>::empty());
        return r;
    }
    let rx_mcs = (data[4] as u16) | ((data[5] as u16) << 8u16);
    let n = count_supported_streams_from_mcs_map(rx_mcs);
    let streams: u64 = if n > 1 {
        n as u64
    } else {
        1
    };
    let mut summary: Vec<char> = Vec::new();
    push_str(&mut summary, "Wi-Fi 5 PHY, ");
    push_decimal(&mut summary, streams);
    push_str(&mut summary, " stream(s), VHT beamforming");
    let fields = vec![
        highlighted_field("Spatial streams", decimal_string(streams)),
        field("Short GI 80 MHz", bool_text((data[0] & 0x20) != 0).to_owned()),
        field("Short GI 160 MHz", bool_text((data[0] & 0x40) != 0).to_owned()),
        field("SU beamformer", bool_text((data[2] & 0x08) != 0).to_owned()),
        field("SU beamformee", bool_text((data[2] & 0x10) != 0).to_owned()),
        field("MU beamformer", bool_text((data[2] & 0x20) != 0).to_owned()),
    ];
    let r = (string_of_chars(summary.as_slice()), None, fields);
    assert(fields_view(r.2@) =~= spec_describe_vht_capabilities(data@).2);
    r
}

/// VHT operation width by byte 0.
pub open spec fn vht_width_text(w: u8) -> Seq<char> {
    if w == 1 {
        "80 MHz"@
    } else if w == 2 {
        "160 MHz"@
    } else if w == 3 {
        "80+80 MHz"@
    } else {
        "20/40 MHz"@
    }
}

/// VHT operation: width from byte 0, centre segments from bytes 1 and 2.
pub open spec fn spec_describe_vht_operation(d: Seq<u8>) -> Description {
    if d.len() < 3 {
        ("VHT operation"@, None, seq![])
    } else {
        let width = vht_width_text(d[0]);
        (
            width + " operation, center segment "@ + spec_decimal(d[1] as u64),
            None,
            seq![
                hfm("Operating width"@, width),
                fm("Center segment 0"@, spec_decimal(d[1] as u64)),
                fm("Center segment 1"@, spec_decimal(d[2] as u64)),
            ],
        )
    }
}

fn describe_vht_operation(data: &[u8]) -> (r: (String, Option<String>, Vec<ParsedField>))
    ensures
        description_view(r) == spec_describe_vht_operation(data@),
{
    if data.len() < 3 {
        let r = ("VHT operation".to_owned(), None, Vec::new());
        assert(fields_view(r.2@) =~= Seq::<FieldModel>::empty());
        return r;
    }
    let width = if data[0] == 1 {
        "80 MHz"
    } else if data[0] == 2 {
        "160 MHz"
    } else if data[0] == 3 {
        "80+80 MHz"
    } else {
        "20/40 MHz"
    };
    let mut summary: Vec<char> = Vec::new();
    push_str(&mut summary, width);
    push_str(&mut summary, " operation, center segment ");
    push_decimal(&mut summary, data[1] as u64);
    let fields = vec![
        highlighted_field("Operating width", width.to_owned()),
        field("Center segment 0", decimal_string(data[1] as u64)),
        field("Center segment 1", decimal_string(data[2] as u64)),
    ];
    let r = (string_of_chars(summary.as_slice()), None, fields);
    assert(fields_view(r.2@) =~= spec_describe_vht_operation(data@).2);
    r
}

/// HE capabilities (body of at least 20 bytes): width from bits 2-3 of byte
/// 7, streams from the receive MCS map at bytes 18-19 (at least one), LDPC
/// and STBC from bits 5 and 7 of byte 8, UL MU-MIMO, SU beamformer,
/// beamformee and MU beamformer from bits 5, 7, 0 and 1 of byte 10.
pub open spec fn spec_describe_he_capabilities(d: Seq<u8>) -> Description {
    if d.len() < 20 {
        ("HE capabilities"@, None, seq![])
    } else {
        let n = mcs_map_streams(le16(d[18], d[19]));
        let streams: u64 = if n > 1 {
            n as u64
        } else {
            1
        };
        let width = if d[7] & 0x08 != 0 {
            "20/40/80/160 MHz"@
        } else if d[7] & 0x04 != 0 {
            "20/40/80 MHz"@
        } else {
            "20/40 MHz"@
        };
        (
            "Wi-Fi 6 PHY, "@ + spec_decimal(streams) + " stream(s), "@ + width,
            None,
            seq![
                hfm("Channel widths"@, width),
                hfm("Spatial streams"@, spec_decimal(streams)),
                fm("LDPC coding"@, support_text(d[8] & 0x20 != 0)),
                fm("STBC Rx <= 80 MHz"@, support_text(d[8] & 0x80 != 0)),
                fm("Full-bandwidth UL MU-MIMO"@, support_text(d[10] & 0x20 != 0)),
                fm("SU beamformer"@, support_text(d[10] & 0x80 != 0)),
                fm("SU beamformee"@, support_text(d[10] & 0x01 != 0)),
                fm("MU beamformer"@, support_text(d[10] & 0x02 != 0)),
            ],
        )
    }
}

fn describe_he_capabilities(data: &[u8]) -> (r: (String, Option<String>, Vec<ParsedField>))
    ensures
        description_view(r) == spec_describe_he_capabilities(data@),
{
    if data.len() < 20 {
        let r = ("HE capabilities".to_owned(), None, Vec::new());
        assert(fields_view(r.2@) =~= Seq::<FieldModel>::empty());
        return r;
    }
    let phy0 = data[7];
    let phy1 = data[8];
    let phy3 = data[10];
    let rx_mcs = (data[18] as u16) | ((data[19] as u16) << 8u16);
    let n = count_supported_streams_from_mcs_map(rx_mcs);
    let streams: u64 = if n > 1 {
        n as u64
    } else {
        1
    };
    let width = if (phy0 & 0x08) != 0 {
        "20/40/80/160 MHz"
    } else if (phy0 & 0x04) != 0 {
        "20/40/80 MHz"
    } else {
        "20/40 MHz"
    };
    let mut summary: Vec<char> = Vec::new();
    push_str(&mut summary, "Wi-Fi 6 PHY, ");
    push_decimal(&mut summary, streams);
    push_str(&mut summary, " stream(s), ");
    push_str(&mut summary, width);
    let fields = vec![
        highlighted_field("Channel widths", width.to_owned()),
        highlighted_field("Spatial streams", decimal_string(streams)),
        field("LDPC coding", bool_text((phy1 & 0x20) != 0).to_owned()),
        field("STBC Rx <= 80 MHz", bool_text((phy1 & 0x80) != 0).to_owned()),
        field("Full-bandwidth UL MU-MIMO", bool_text((phy3 & 0x20) != 0).to_owned()),
        field("SU beamformer", bool_text((phy3 & 0x80) != 0).to_owned()),
        field("SU beamformee", bool_text((phy3 & 0x01) != 0).to_owned()),
        field("MU beamformer", bool_text((phy3 & 0x02) != 0).to_owned()),
    ];
    let r = (string_of_chars(summary.as_slice()), None, fields);
    assert(fields_view(r.2@) =~= spec_describe_he_capabilities(data@).2);
    r
}

/// HE operation (body of at least 8 bytes): BSS color from the low six bits
/// of byte 6, default PE duration from byte 3.
pub open spec fn spec_describe_he_operation(d: Seq<u8>) -> Description {
    if d.len() < 8 {
        ("HE operation"@, None, seq![])
    } else {
        let color = (d[6] & 0x3f) as u64;
        (
            "HE operation, BSS color "@ + spec_decimal(color),
            None,
            seq![
                hfm("BSS color"@, spec_decimal(color)),
                fm("Default PE duration"@, spec_decimal(d[3] as u64)),
            ],
        )
    }
}

fn describe_he_operation(data: &[u8]) -> (r: (String, Option<String>, Vec<ParsedField>))
    ensures
        description_view(r) == spec_describe_he_operation(data@),
{
    if data.len() < 8 {
        let r = ("HE operation".to_owned(), None, Vec::new());
        assert(fields_view(r.2@) =~= Seq::<FieldModel>::empty());
        return r;
    }
    let color = (data[6] & 0x3f) as u64;
    let mut summary: Vec<char> = Vec::new();
    push_str(&mut summary, "HE operation, BSS color ");
    push_decimal(&mut summary, color);
    let fields = vec![
        highlighted_field("BSS color", decimal_string(color)),
        field("Default PE duration", decimal_string(data[3] as u64)),
    ];
    let r = (string_of_chars(summary.as_slice()), None, fields);
    assert(fields_view(r.2@) =~= spec_describe_he_operation(data@).2);
    r
}

/// EHT capabilities width by the low two bits of byte 5.
pub open spec fn eht_width_text(b: u8) -> Seq<char> {
    let w = b & 0x03;
    if w == 3 {
        "Up to 320 MHz"@
    } else if w == 2 {
        "Up to 160 MHz"@
    } else if w == 1 {
        "Up to 80 MHz"@
    } else {
        "20/40 MHz"@
    }
}

/// EHT capabilities (body of at least 9 bytes): width from byte 5, 4096-QAM
/// from the low nibble of byte 7.
pub open spec fn spec_describe_eht_capabilities(d: Seq<u8>) -> Description {
    if d.len() < 9 {
        ("EHT capabilities"@, None, seq![])
    } else {
        let width = eht_width_text(d[5]);
        (
            "Wi-Fi 7 PHY, "@ + width,
            None,
            seq![
                hfm("Channel widths"@, width),
                fm("4096-QAM"@, support_text(d[7] & 0x0F != 0)),
                fm("Multi-link support"@, "Check MLO extension element"@),
            ],
        )
    }
}

fn describe_eht_capabilities(data: &[u8]) -> (r: (String, Option<String>, Vec<ParsedField>))
    ensures
        description_view(r) == spec_describe_eht_capabilities(data@),
{
    if data.len() < 9 {
        let r = ("EHT capabilities".to_owned(), None, Vec::new());
        assert(fields_view(r.2@) =~= Seq::<FieldModel>::empty());
        return r;
    }
    let w = data[5] & 0x03;
    let width = if w == 3 {
        "Up to 320 MHz"
    } else if w == 2 {
        "Up to 160 MHz"
    } else if w == 1 {
        "Up to 80 MHz"
    } else {
        "20/40 MHz"
    };
    let summary = concat_text("Wi-Fi 7 PHY, ", width);
    let fields = vec![
        highlighted_field("Channel widths", width.to_owned()),
        field("4096-QAM", bool_text((data[7] & 0x0F) != 0).to_owned()),
        field("Multi-link support", "Check MLO extension element".to_owned()),
    ];
    let r = (summary, None, fields);
    assert(fields_view(r.2@) =~= spec_describe_eht_capabilities(data@).2);
    r
}

/// The vendor named by a vendor-specific body's OUI.
pub open spec fn body_vendor(d: Seq<u8>) -> Option<Seq<char>> {
    if d.len() < 3 {
        None
    } else {
        spec_lookup_oui(oui_text(d))
    }
}

/// Fields of a vendor-specific body: the vendor when known, the OUI and the
/// subtype (byte 3) as "0x.." when present.
pub open spec fn vendor_fields(d: Seq<u8>) -> Seq<FieldModel> {
    (match body_vendor(d) {
        Some(n) => seq![hfm("Vendor"@, n)],
        None => seq![],
    }) + (if d.len() >= 3 {
        seq![fm("OUI"@, oui_text(d))]
    } else {
        seq![]
    }) + (if d.len() >= 4 {
        seq![fm("Subtype"@, "0x"@ + hex_pair_upper(d[3]))]
    } else {
        seq![]
    })
}

/// Vendor-specific element: Microsoft WMM/WME (type 2) and WPS (type 4) are
/// named as such; otherwise the vendor (or "Vendor-specific").
pub open spec fn spec_describe_vendor(d: Seq<u8>) -> Description {
    let microsoft = d.len() >= 4 && d[0] == 0x00 && d[1] == 0x50 && d[2] == 0xF2;
    if microsoft && d[3] == 0x02 {
        (
            "Microsoft WMM/WME information"@,
            Some("Microsoft"@),
            vendor_fields(d).push(hfm("Feature"@, "WMM / WME"@)),
        )
    } else if microsoft && d[3] == 0x04 {
        (
            "Microsoft WPS information"@,
            Some("Microsoft"@),
            vendor_fields(d).push(hfm("Feature"@, "WPS"@)),
        )
    } else {
        (
            (match body_vendor(d) {
                Some(n) => n,
                None => "Vendor-specific"@,
            }) + " vendor information"@,
            body_vendor(d),
            vendor_fields(d),
        )
    }
}

fn describe_vendor_specific(data: &[u8]) -> (r: (String, Option<String>, Vec<ParsedField>))
    ensures
        description_view(r) == spec_describe_vendor(data@),
{
    let vendor_oui = format_vendor_oui(data);
    let vendor_name: Option<String> = match &vendor_oui {
        Some(oui) => match lookup_oui(oui.as_str()) {
            Some(v) => Some(v.to_owned()),
            None => None,
        },
        None => None,
    };
    assert(opt_text(vendor_name) == body_vendor(data@));
    let mut fields: Vec<ParsedField> = Vec::new();
    match &vendor_name {
        Some(name) => {
            fields.push(highlighted_field("Vendor", name.clone()));
        },
        None => {},
    }
    let ghost f1 = fields_view(fields@);
    match &vendor_oui {
        Some(oui) => {
            fields.push(field("OUI", oui.clone()));
        },
        None => {},
    }
    let ghost f2 = fields_view(fields@);
    if data.len() >= 4 {
        let mut v: Vec<char> = Vec::new();
        push_str(&mut v, "0x");
        push_hex_pair(&mut v, data[3]);
        fields.push(field("Subtype", string_of_chars(v.as_slice())));
    }
    assert(fields_view(fields@) =~= vendor_fields(data@));
    if data.len() >= 4 && data[0] == 0x00 && data[1] == 0x50 && data[2] == 0xF2 {
        if data[3] == 0x02 {
            fields.push(highlighted_field("Feature", "WMM / WME".to_owned()));
            let r = ("Microsoft WMM/WME information".to_owned(), Some("Microsoft".to_owned()), fields);
            assert(fields_view(r.2@) =~= spec_describe_vendor(data@).2);
            return r;
        } else if data[3] == 0x04 {
            fields.push(highlighted_field("Feature", "WPS".to_owned()));
            let r = ("Microsoft WPS information".to_owned(), Some("Microsoft".to_owned()), fields);
            assert(fields_view(r.2@) =~= spec_describe_vendor(data@).2);
            return r;
        }
    }
    let summary = match &vendor_name {
        Some(n) => concat_text(n.as_str(), " vendor information"),
        None => concat_text("Vendor-specific", " vendor information"),
    };
    (summary, vendor_name, fields)
}

// ============================================================================
// Any element
// ============================================================================

/// A country element's description: the trimmed country code of its first
/// two bytes and, with 6 bytes, the first channel triplet (first channel,
/// last channel, maximum power).
pub open spec fn spec_describe_country(d: Seq<u8>) -> Description {
    if d.len() >= 2 && country_code_of(d).len() > 0 {
        let c = country_code_of(d);
        let last = (d[2] + (if d[3] > 0 {
            d[3] - 1
        } else {
            0
        })) as u64;
        (
            "Country "@ + c,
            None,
            if d.len() >= 6 {
                seq![
                    hfm("Country"@, c),
                    fm(
                        "Triplet"@,
                        "CH "@ + spec_decimal(d[2] as u64) + "-"@ + spec_decimal(last) + " / "@
                            + spec_decimal(d[4] as u64) + " dBm"@,
                    ),
                ]
            } else {
                seq![hfm("Country"@, c)]
            },
        )
    } else {
        ("Country information"@, None, seq![])
    }
}

/// Elements whose description stays inside the range of its numbers: a
/// country triplet's last channel (first channel plus count less one) fits
/// in a byte.
pub open spec fn describe_in_range(id: u8, d: Seq<u8>) -> bool {
    (id == 7 && d.len() >= 6 && country_code_of(d).len() > 0) ==> d[2] + (if d[3] > 0 {
        d[3] - 1
    } else {
        0
    }) <= 255
}

fn describe_country(data: &[u8]) -> (r: (String, Option<String>, Vec<ParsedField>))
    requires
        describe_in_range(7, data@),
    ensures
        description_view(r) == spec_describe_country(data@),
{
    if data.len() >= 2 {
        if let Some(country) = country_of(data) {
            let mut fields: Vec<ParsedField> = Vec::new();
            fields.push(highlighted_field("Country", country.clone()));
            if data.len() >= 6 {
                let count_less_one = if data[3] > 0 {
                    data[3] - 1
                } else {
                    0
                };
                let mut t: Vec<char> = Vec::new();
                push_str(&mut t, "CH ");
                push_decimal(&mut t, data[2] as u64);
                push_str(&mut t, "-");
                push_decimal(&mut t, (data[2] + count_less_one) as u64);
                push_str(&mut t, " / ");
                push_decimal(&mut t, data[4] as u64);
                push_str(&mut t, " dBm");
                fields.push(field("Triplet", string_of_chars(t.as_slice())));
            }
            let summary = concat_text("Country ", country.as_str());
            let r = (summary, None, fields);
            assert(fields_view(r.2@) =~= spec_describe_country(data@).2);
            return r;
        }
    }
    let r = ("Country information".to_owned(), None, Vec::new());
    assert(fields_view(r.2@) =~= Seq::<FieldModel>::empty());
    r
}

/// Channel utilization (0-255) as a whole percentage, rounded.
pub open spec fn utilization_percent(raw: u8) -> u64 {
    ((raw * 200 + 255) / 510) as u64
}

/// The description of any element from its id, body and values.
pub open spec fn spec_describe_ie(id: u8, d: Seq<u8>, c: ContentModel) -> Description {
    if id == 0 {
        let ssid = match c.ssid {
            Some(t) => if t.len() > 0 {
                t
            } else {
                "<hidden>"@
            },
            None => "<hidden>"@,
        };
        ("SSID "@ + ssid, None, seq![hfm("SSID"@, ssid)])
    } else if id == 1 || id == 50 {
        let rates = match c.rates {
            Some(t) => t,
            None => "No rate information"@,
        };
        ("Supported legacy/basic rates"@, None, seq![fm("Rates"@, rates)])
    } else if id == 3 {
        let ch: u64 = match c.channel {
            Some(x) => x as u64,
            None => 0,
        };
        ("Primary channel "@ + spec_decimal(ch), None, seq![hfm("Primary channel"@, spec_decimal(ch))])
    } else if id == 7 {
        spec_describe_country(d)
    } else if id == 11 {
        let stations: u64 = match c.station_count {
            Some(x) => x as u64,
            None => 0,
        };
        let util: u64 = match c.channel_utilization {
            Some(x) => utilization_percent(x),
            None => 0,
        };
        (
            spec_decimal(stations) + " stations, "@ + spec_decimal(util) + "% channel utilization"@,
            None,
            seq![
                hfm("Associated stations"@, spec_decimal(stations)),
                fm("Channel utilization"@, spec_decimal(util) + "%"@),
            ],
        )
    } else if id == 45 {
        spec_describe_ht_capabilities(d)
    } else if id == 48 {
        spec_describe_rsn(d)
    } else if id == 61 {
        spec_describe_ht_operation(d)
    } else if id == 70 {
        ("802.11k radio measurement enabled"@, None, seq![hfm("RRM"@, "Enabled"@)])
    } else if id == 127 {
        spec_describe_extended_capabilities(d)
    } else if id == 191 {
        spec_describe_vht_capabilities(d)
    } else if id == 192 {
        spec_describe_vht_operation(d)
    } else if id == 221 {
        spec_describe_vendor(d)
    } else if id == 255 && d.len() > 0 {
        if d[0] == 35 {
            spec_describe_he_capabilities(d)
        } else if d[0] == 36 {
            spec_describe_he_operation(d)
        } else if d[0] == 107 {
            ("Multi-Link Operation element"@, None, seq![hfm("MLO"@, "Present"@)])
        } else if d[0] == 108 {
            spec_describe_eht_capabilities(d)
        } else {
            (
                "Extension element "@ + spec_decimal(d[0] as u64),
                None,
                seq![fm("Extension ID"@, spec_decimal(d[0] as u64))],
            )
        }
    } else {
        ("Raw information element"@, None, seq![fm("Bytes"@, spec_decimal(d.len() as u64))])
    }
}

fn single_field(f: ParsedField) -> (v: Vec<ParsedField>)
    ensures
        fields_view(v@) == seq![f@],
{
    let v = vec![f];
    assert(fields_view(v@) =~= seq![f@]);
    v
}

fn describe_ie(id: u8, data: &[u8], parsed: &IeContent) -> (r: (String, Option<String>, Vec<ParsedField>))
    requires
        describe_in_range(id, data@),
    ensures
        description_view(r) == spec_describe_ie(id, data@, parsed@),
{
    if id == 0 {
        let ssid: String = match &parsed.ssid {
            Some(t) => if t.as_str().is_empty() {
                "<hidden>".to_owned()
            } else {
                t.clone()
            },
            None => "<hidden>".to_owned(),
        };
        let summary = concat_text("SSID ", ssid.as_str());
        (summary, None, single_field(highlighted_field("SSID", ssid)))
    } else if id == 1 || id == 50 {
        let rates: String = match &parsed.rates {
            Some(t) => t.clone(),
            None => "No rate information".to_owned(),
        };
        ("Supported legacy/basic rates".to_owned(), None, single_field(field("Rates", rates)))
    } else if id == 3 {
        let ch: u64 = match parsed.channel {
            Some(x) => x as u64,
            None => 0,
        };
        let mut v: Vec<char> = Vec::new();
        push_str(&mut v, "Primary channel ");
        push_decimal(&mut v, ch);
        (
            string_of_chars(v.as_slice()),
            None,
            single_field(highlighted_field("Primary channel", decimal_string(ch))),
        )
    } else if id == 7 {
        describe_country(data)
    } else if id == 11 {
        let stations: u64 = match parsed.station_count {
            Some(x) => x as u64,
            None => 0,
        };
        let util: u64 = match parsed.channel_utilization {
            Some(x) => ((x as u64) * 200 + 255) / 510,
            None => 0,
        };
        let mut v: Vec<char> = Vec::new();
        push_decimal(&mut v, stations);
        push_str(&mut v, " stations, ");
        push_decimal(&mut v, util);
        push_str(&mut v, "% channel utilization");
        let mut p: Vec<char> = Vec::new();
        push_decimal(&mut p, util);
        push_str(&mut p, "%");
        let fields = vec![
            highlighted_field("Associated stations", decimal_string(stations)),
            field("Channel utilization", string_of_chars(p.as_slice())),
        ];
        let r = (string_of_chars(v.as_slice()), None, fields);
        assert(fields_view(r.2@) =~= spec_describe_ie(id, data@, parsed@).2);
        r
    } else if id == 45 {
        describe_ht_capabilities(data)
    } else if id == 48 {
        describe_rsn_information(data)
    } else if id == 61 {
        describe_ht_operation(data)
    } else if id == 70 {
        (
            "802.11k radio measurement enabled".to_owned(),
            None,
            single_field(highlighted_field("RRM", "Enabled".to_owned())),
        )
    } else if id == 127 {
        describe_extended_capabilities(data)
    } else if id == 191 {
        describe_vht_capabilities(data)
    } else if id == 192 {
        describe_vht_operation(data)
    } else if id == 221 {
        describe_vendor_specific(data)
    } else if id == 255 && data.len() > 0 {
        if data[0] == 35 {
            describe_he_capabilities(data)
        } else if data[0] == 36 {
            describe_he_operation(data)
        } else if data[0] == 107 {
            (
                "Multi-Link Operation element".to_owned(),
                None,
                single_field(highlighted_field("MLO", "Present".to_owned())),
            )
        } else if data[0] == 108 {
            describe_eht_capabilities(data)
        } else {
            let mut v: Vec<char> = Vec::new();
            push_str(&mut v, "Extension element ");
            push_decimal(&mut v, data[0] as u64);
            (
                string_of_chars(v.as_slice()),
                None,
                single_field(field("Extension ID", decimal_string(data[0] as u64))),
            )
        }
    } else {
        (
            "Raw information element".to_owned(),
            None,
            single_field(field("Bytes", decimal_string(data.len() as u64))),
        )
    }
}

// ============================================================================
// All elements
// ============================================================================

/// One element as displayed.
#[derive(Clone, Debug)]
pub struct ParsedIE {
    pub element_id: u8,
    pub element_id_hex: String,
    pub name: String,
    pub length: u8,
    pub data_hex: String,
    pub summary: String,
    pub vendor_name: Option<String>,
    pub display_fields: Vec<ParsedField>,
    pub parsed: IeContent,
}

/// A displayed element by its characters.
pub struct ParsedIEModel {
    pub element_id: u8,
    pub element_id_hex: Seq<char>,
    pub name: Seq<char>,
    pub length: u8,
    pub data_hex: Seq<char>,
    pub summary: Seq<char>,
    pub vendor_name: Option<Seq<char>>,
    pub display_fields: Seq<FieldModel>,
    pub parsed: ContentModel,
}

impl View for ParsedIE {
    type V = ParsedIEModel;

    open spec fn view(&self) -> ParsedIEModel {
        ParsedIEModel {
            element_id: self.element_id,
            element_id_hex: self.element_id_hex@,
            name: self.name@,
            length: self.length,
            data_hex: self.data_hex@,
            summary: self.summary@,
            vendor_name: opt_text(self.vendor_name),
            display_fields: fields_view(self.display_fields@),
            parsed: self.parsed@,
        }
    }
}

/// Which PHY elements a beacon carries, and the standard they point to.
#[derive(Clone, Debug)]
pub struct DetectionSummary {
    pub has_eht_capabilities: bool,
    pub has_eht_operation: bool,
    pub has_he_capabilities: bool,
    pub has_he_operation: bool,
    pub has_vht_capabilities: bool,
    pub has_vht_operation: bool,
    pub has_ht_capabilities: bool,
    pub has_ht_operation: bool,
    pub detected_standard: String,
}

/// The PHY elements seen so far.
pub struct DetectionFlags {
    pub eht_cap: bool,
    pub eht_op: bool,
    pub he_cap: bool,
    pub he_op: bool,
    pub vht_cap: bool,
    pub vht_op: bool,
    pub ht_cap: bool,
    pub ht_op: bool,
}

/// No PHY element seen yet.
pub open spec fn no_detection() -> DetectionFlags {
    DetectionFlags {
        eht_cap: false,
        eht_op: false,
        he_cap: false,
        he_op: false,
        vht_cap: false,
        vht_op: false,
        ht_cap: false,
        ht_op: false,
    }
}

/// Effect of one element on the flags: HT capabilities (45) and operation
/// (61), VHT capabilities (191) and operation (192), and the extended
/// elements HE capabilities (35) and operation (36), EHT operation (106)
/// and capabilities (108).
pub open spec fn detection_step(f: DetectionFlags, e: Element) -> DetectionFlags {
    let (id, d) = e;
    if id == 45 {
        DetectionFlags { ht_cap: true, ..f }
    } else if id == 61 {
        DetectionFlags { ht_op: true, ..f }
    } else if id == 191 {
        DetectionFlags { vht_cap: true, ..f }
    } else if id == 192 {
        DetectionFlags { vht_op: true, ..f }
    } else if id == 255 && d.len() >= 1 {
        if d[0] == 35 {
            DetectionFlags { he_cap: true, ..f }
        } else if d[0] == 36 {
            DetectionFlags { he_op: true, ..f }
        } else if d[0] == 106 {
            DetectionFlags { eht_op: true, ..f }
        } else if d[0] == 108 {
            DetectionFlags { eht_cap: true, ..f }
        } else {
            f
        }
    } else {
        f
    }
}

/// The flags after walking `els` from `f`.
pub open spec fn detection_walk(f: DetectionFlags, els: Seq<Element>) -> DetectionFlags
    decreases els.len(),
{
    if els.len() == 0 {
        f
    } else {
        detection_walk(detection_step(f, els[0]), els.drop_first())
    }
}

/// The standard the capability elements point to.
pub open spec fn detected_standard(f: DetectionFlags) -> Seq<char> {
    if f.eht_cap {
        "WiFi 7 (802.11be)"@
    } else if f.he_cap {
        "WiFi 6 (802.11ax)"@
    } else if f.vht_cap {
        "WiFi 5 (802.11ac)"@
    } else if f.ht_cap {
        "WiFi 4 (802.11n)"@
    } else {
        "Legacy"@
    }
}

/// Whether a summary holds these flags and their standard.
pub open spec fn summary_matches(s: DetectionSummary, f: DetectionFlags) -> bool {
    &&& s.has_eht_capabilities == f.eht_cap
    &&& s.has_eht_operation == f.eht_op
    &&& s.has_he_capabilities == f.he_cap
    &&& s.has_he_operation == f.he_op
    &&& s.has_vht_capabilities == f.vht_cap
    &&& s.has_vht_operation == f.vht_op
    &&& s.has_ht_capabilities == f.ht_cap
    &&& s.has_ht_operation == f.ht_op
    &&& s.detected_standard@ == detected_standard(f)
}

/// Two lower-case hexadecimal digits of a byte.
pub open spec fn hex_pair_lower(b: u8) -> Seq<char> {
    seq![hex_digit_lower(b / 16), hex_digit_lower(b % 16)]
}

/// How one element is displayed.
pub open spec fn spec_parsed_ie(e: Element) -> ParsedIEModel {
    let (id, d) = e;
    let c = spec_content(id, d);
    let desc = spec_describe_ie(id, d, c);
    ParsedIEModel {
        element_id: id,
        element_id_hex: "0x"@ + hex_pair_lower(id),
        name: if id == 255 && d.len() >= 1 {
            spec_ext_ie_name(d[0])@
        } else {
            spec_ie_name(id)@
        },
        length: d.len() as u8,
        data_hex: lower_hex(d),
        summary: desc.0,
        vendor_name: desc.1,
        display_fields: desc.2,
        parsed: c,
    }
}

/// Every element of a list can be described.
pub open spec fn all_describable(els: Seq<Element>) -> bool
    decreases els.len(),
{
    els.len() == 0 || (describe_in_range(els[0].0, els[0].1) && all_describable(els.drop_first()))
}

/// Every element of an element list can be described.
pub open spec fn details_in_range(ie: Seq<u8>) -> bool {
    all_describable(elements(ie))
}

/// Every element of an element list, with the PHY elements it carries.
#[derive(Clone, Debug)]
pub struct IEDetails {
    pub raw_hex: String,
    pub total_length: usize,
    pub elements: Vec<ParsedIE>,
    pub detection_summary: DetectionSummary,
}

fn element_id_hex(id: u8) -> (s: String)
    ensures
        s@ == "0x"@ + hex_pair_lower(id),
{
    let mut v: Vec<char> = Vec::new();
    push_str(&mut v, "0x");
    let hi = id / 16;
    let lo = id % 16;
    v.push(if hi < 10 {
        (hi + 0x30) as char
    } else {
        (hi + 0x57) as char
    });
    v.push(if lo < 10 {
        (lo + 0x30) as char
    } else {
        (lo + 0x57) as char
    });
    assert(v@ =~= "0x"@ + hex_pair_lower(id));
    string_of_chars(v.as_slice())
}

fn parsed_ie(id: u8, data: &[u8]) -> (p: ParsedIE)
    requires
        describe_in_range(id, data@),
        data.len() <= 255,
    ensures
        p@ == spec_parsed_ie((id, data@)),
{
    let parsed = parse_ie_content(id, data);
    let (summary, vendor_name, display_fields) = describe_ie(id, data, &parsed);
    let name = if id == 255 && data.len() >= 1 {
        ext_ie_name(data[0]).to_owned()
    } else {
        ie_name(id).to_owned()
    };
    ParsedIE {
        element_id: id,
        element_id_hex: element_id_hex(id),
        name,
        length: data.len() as u8,
        data_hex: hex_encode(data),
        summary,
        vendor_name,
        display_fields,
        parsed,
    }
}

/// The elements by how they are displayed.
pub open spec fn parsed_ies_view(v: Seq<ParsedIE>) -> Seq<ParsedIEModel> {
    v.map_values(|p: ParsedIE| p@)
}

/// Describe every element of an element list.
pub fn parse_all_ies(ie_data: &[u8]) -> (r: IEDetails)
    requires
        details_in_range(ie_data@),
    ensures
        r.raw_hex@ == lower_hex(ie_data@),
        r.total_length == ie_data.len(),
        parsed_ies_view(r.elements@) == elements(ie_data@).map_values(
            |e: Element| spec_parsed_ie(e),
        ),
        summary_matches(r.detection_summary, detection_walk(no_detection(), elements(ie_data@))),
{
    let ghost data = ie_data@;
    let ghost all = elements(data);
    let mut out: Vec<ParsedIE> = Vec::new();
    let mut eht_cap = false;
    let mut eht_op = false;
    let mut he_cap = false;
    let mut he_op = false;
    let mut vht_cap = false;
    let mut vht_op = false;
    let mut ht_cap = false;
    let mut ht_op = false;
    let mut pos: usize = 0;
    proof {
        lemma_elements_start(data);
    }
    while ie_data.len() - pos >= 2
        invariant
            data == ie_data@,
            all == elements(data),
            pos <= ie_data.len(),
            parsed_ies_view(out@) + elements(data.subrange(pos as int, data.len() as int)).map_values(
                |e: Element| spec_parsed_ie(e),
            ) == all.map_values(|e: Element| spec_parsed_ie(e)),
            detection_walk(
                DetectionFlags { eht_cap, eht_op, he_cap, he_op, vht_cap, vht_op, ht_cap, ht_op },
                elements(data.subrange(pos as int, data.len() as int)),
            ) == detection_walk(no_detection(), all),
            all_describable(elements(data.subrange(pos as int, data.len() as int))),
        ensures
            elements(data.subrange(pos as int, data.len() as int)) == Seq::<Element>::empty(),
        decreases ie_data.len() - pos,
    {
        let id = ie_data[pos];
        let len = ie_data[pos + 1] as usize;
        if len > ie_data.len() - pos - 2 {
            proof {
                lemma_elements_stop(data, pos as int);
            }
            break;
        }
        let body = &ie_data[pos + 2..pos + 2 + len];
        let ghost rest = elements(data.subrange(pos + 2 + len, data.len() as int));
        let ghost before_out = parsed_ies_view(out@);
        proof {
            lemma_elements_step(data, pos as int);
            assert(body@ == data.subrange(pos + 2, pos + 2 + len));
            let l = seq![(id, body@)] + rest;
            assert(l[0] == (id, body@));
            assert(l.drop_first() =~= rest);
            assert(l.map_values(|e: Element| spec_parsed_ie(e)) =~= seq![
                spec_parsed_ie((id, body@)),
            ] + rest.map_values(|e: Element| spec_parsed_ie(e)));
        }
        if id == 45 {
            ht_cap = true;
        } else if id == 61 {
            ht_op = true;
        } else if id == 191 {
            vht_cap = true;
        } else if id == 192 {
            vht_op = true;
        } else if id == 255 && len >= 1 {
            if body[0] == 35 {
                he_cap = true;
            } else if body[0] == 36 {
                he_op = true;
            } else if body[0] == 106 {
                eht_op = true;
            } else if body[0] == 108 {
                eht_cap = true;
            }
        }
        let p = parsed_ie(id, body);
        out.push(p);
        assert(parsed_ies_view(out@) =~= before_out.push(spec_parsed_ie((id, body@))));
        assert(parsed_ies_view(out@) + rest.map_values(|e: Element| spec_parsed_ie(e))
            =~= before_out + (seq![spec_parsed_ie((id, body@))] + rest.map_values(
            |e: Element| spec_parsed_ie(e),
        )));
        pos = pos + 2 + len;
    }
    assert(parsed_ies_view(out@) =~= all.map_values(|e: Element| spec_parsed_ie(e)));
    let ghost flags = DetectionFlags { eht_cap, eht_op, he_cap, he_op, vht_cap, vht_op, ht_cap, ht_op };
    let detected = if eht_cap {
        "WiFi 7 (802.11be)".to_owned()
    } else if he_cap {
        "WiFi 6 (802.11ax)".to_owned()
    } else if vht_cap {
        "WiFi 5 (802.11ac)".to_owned()
    } else if ht_cap {
        "WiFi 4 (802.11n)".to_owned()
    } else {
        "Legacy".to_owned()
    };
    IEDetails {
        raw_hex: hex_encode(ie_data),
        total_length: ie_data.len(),
        elements: out,
        detection_summary: DetectionSummary {
            has_eht_capabilities: eht_cap,
            has_eht_operation: eht_op,
            has_he_capabilities: he_cap,
            has_he_operation: he_op,
            has_vht_capabilities: vht_cap,
            has_vht_operation: vht_op,
            has_ht_capabilities: ht_cap,
            has_ht_operation: ht_op,
            detected_standard: detected,
        },
    }
}

/// Whether every element of an element list can be described, as
/// `parse_all_ies` requires.
pub fn ie_details_in_range(ie_data: &[u8]) -> (ok: bool)
    ensures
        ok == details_in_range(ie_data@),
{
    let ghost data = ie_data@;
    let mut pos: usize = 0;
    proof {
        lemma_elements_start(data);
    }
    while ie_data.len() - pos >= 2
        invariant
            data == ie_data@,
            pos <= ie_data.len(),
            all_describable(elements(data.subrange(pos as int, data.len() as int)))
                == details_in_range(data),
        decreases ie_data.len() - pos,
    {
        let id = ie_data[pos];
        let len = ie_data[pos + 1] as usize;
        if len > ie_data.len() - pos - 2 {
            proof {
                lemma_elements_stop(data, pos as int);
            }
            return true;
        }
        let body = &ie_data[pos + 2..pos + 2 + len];
        let ghost rest = elements(data.subrange(pos + 2 + len, data.len() as int));
        proof {
            lemma_elements_step(data, pos as int);
            assert(body@ == data.subrange(pos + 2, pos + 2 + len));
            let l = seq![(id, body@)] + rest;
            assert(l[0] == (id, body@));
            assert(l.drop_first() =~= rest);
        }
        if id == 7 && len >= 6 {
            if let Some(_) = country_of(body) {
                let count_less_one = if body[3] > 0 {
                    body[3] - 1
                } else {
                    0
                };
                if body[2] as u16 + count_less_one as u16 > 255 {
                    return false;
                }
            }
        }
        pos = pos + 2 + len;
    }
    true
}

/// Parse information elements given as hexadecimal text: the decoding
/// error, or the details of the bytes.
pub fn ie_details_from_hex(data: &str) -> (r: Result<IEDetails, crate::text::HexError>)
    requires
        spec_hex_decode(data.spec_bytes()) matches Ok(b) ==> details_in_range(b),
    ensures
        match spec_hex_decode(data.spec_bytes()) {
            Ok(b) => r matches Ok(d) && d.raw_hex@ == lower_hex(b) && d.total_length == b.len()
                && parsed_ies_view(d.elements@) == elements(b).map_values(
                |e: Element| spec_parsed_ie(e),
            ) && summary_matches(d.detection_summary, detection_walk(no_detection(), elements(b))),
            Err(e) => r == Err::<IEDetails, crate::text::HexError>(e),
        },
{
    match decode_hex_data(data) {
        Ok(bytes) => Ok(parse_all_ies(bytes.as_slice())),
        Err(e) => Err(e),
    }
}

} // verus!
