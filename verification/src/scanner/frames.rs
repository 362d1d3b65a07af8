//! Captured 802.11 frames: the radiotap header in front of them, beacon
//! frames and the elements that name the SSID and channel.
use vstd::prelude::*;
use crate::parser::elements::{
    elements, lemma_elements_start, lemma_elements_step, lemma_elements_stop, Element,
};
use crate::parser::phy::le16;
use crate::types::{spec_band_from_channel, Band, RawBeacon};

verus! {

// ============================================================================
// Radiotap
// ============================================================================

/// `offset` rounded up by the mask of `alignment` (a power of two).
pub open spec fn spec_align(offset: usize, alignment: usize) -> usize {
    ((offset + alignment - 1) as usize) & !((alignment - 1) as usize)
}

/// Round an offset up to an alignment (a power of two).
pub fn align(offset: usize, alignment: usize) -> (r: usize)
    requires
        alignment >= 1,
        offset + alignment - 1 <= usize::MAX,
    ensures
        r == spec_align(offset, alignment),
{
    (offset + (alignment - 1)) & !(alignment - 1)
}

/// A little-endian 32-bit field.
pub open spec fn le32(b0: u8, b1: u8, b2: u8, b3: u8) -> u32 {
    (b0 as u32) | ((b1 as u32) << 8u32) | ((b2 as u32) << 16u32) | ((b3 as u32) << 24u32)
}

/// The default signal when the header names none.
pub open spec fn default_signal() -> i16 {
    -50i16
}

/// Where the next field starts, and the signal, after the field of a
/// present bit at `offset`.  TSFT (bit 0) is 8 bytes aligned to 8; the
/// channel (bit 3) is 4 bytes aligned to 2; FHSS, lock quality, TX
/// attenuations and RX/TX flags (4, 7-9, 14-15) are 2 bytes aligned to 2;
/// flags, rate, antenna signal/noise, TX power and antenna (1, 2, 5, 6,
/// 10-13) are one byte; other bits count 4 bytes.  The dBm antenna signal
/// (bit 5) is read as a signed byte; the dB antenna signal (bit 12) as an
/// unsigned byte, only while the signal is still the default.
pub open spec fn radiotap_field(d: Seq<u8>, bit: u32, offset: usize, signal: i16) -> (usize, i16) {
    if bit == 0 {
        ((spec_align(offset, 8) + 8) as usize, signal)
    } else if bit == 3 {
        ((spec_align(offset, 2) + 4) as usize, signal)
    } else if bit == 4 || bit == 7 || bit == 8 || bit == 9 || bit == 14 || bit == 15 {
        ((spec_align(offset, 2) + 2) as usize, signal)
    } else if bit == 5 {
        (
            (offset + 1) as usize,
            if offset < d.len() {
                d[offset as int] as i8 as i16
            } else {
                signal
            },
        )
    } else if bit == 12 {
        (
            (offset + 1) as usize,
            if signal == default_signal() && offset < d.len() {
                d[offset as int] as i16
            } else {
                signal
            },
        )
    } else if bit == 1 || bit == 2 || bit == 6 || bit == 10 || bit == 11 || bit == 13 {
        ((offset + 1) as usize, signal)
    } else {
        ((offset + 4) as usize, signal)
    }
}

/// The signal found by walking the present bits from `bit` on, with the
/// next field at `offset`; the walk stops at the end of the header.
pub open spec fn radiotap_walk(
    d: Seq<u8>,
    header_len: usize,
    present: u32,
    bit: u32,
    offset: usize,
    signal: i16,
) -> i16
    decreases 32 - bit,
{
    if bit >= 32 {
        signal
    } else if present & (1u32 << bit) == 0 {
        radiotap_walk(d, header_len, present, (bit + 1) as u32, offset, signal)
    } else if offset >= header_len {
        signal
    } else {
        let (o, s) = radiotap_field(d, bit, offset, signal);
        radiotap_walk(d, header_len, present, (bit + 1) as u32, o, s)
    }
}

/// Length and signal of a radiotap header: (0, -50) unless the data holds a
/// version 0 header of at least 8 bytes; otherwise its length (bytes 2-3)
/// and the signal its present fields (bitmap at bytes 4-7) give.
pub open spec fn spec_radiotap(d: Seq<u8>) -> (usize, i16) {
    if d.len() < 8 || d[0] != 0 {
        (0, default_signal())
    } else {
        let header_len = le16(d[2], d[3]) as usize;
        if header_len > d.len() || header_len < 8 {
            (0, default_signal())
        } else {
            (
                header_len,
                radiotap_walk(d, header_len, le32(d[4], d[5], d[6], d[7]), 0, 8, default_signal()),
            )
        }
    }
}

proof fn lemma_align_bound(o: usize, a: usize)
    requires
        a == 2 || a == 8,
        o <= 0x10000,
    ensures
        spec_align(o, a) <= o + a - 1,
{
    let x = (o + a - 1) as usize;
    let m = !((a - 1) as usize);
    assert(x == o + a - 1);
    assert(spec_align(o, a) == x & m);
    assert(forall|y: usize, n: usize| #[trigger] (y & n) <= y) by (bit_vector);
    assert((x & m) <= x);
}

/// Parse a radiotap header: its length and the antenna signal in dBm.
pub fn parse_radiotap_header(data: &[u8]) -> (r: (usize, i16))
    ensures
        r == spec_radiotap(data@),
{
    if data.len() < 8 {
        return (0, -50);
    }
    if data[0] != 0 {
        return (0, -50);
    }
    let header_len = ((data[2] as u16) | ((data[3] as u16) << 8u16)) as usize;
    if header_len > data.len() || header_len < 8 {
        return (0, -50);
    }
    let present: u32 = (data[4] as u32) | ((data[5] as u32) << 8u32) | ((data[6] as u32) << 16u32)
        | ((data[7] as u32) << 24u32);
    let mut offset: usize = 8;
    let mut signal: i16 = -50;
    let mut bit: u32 = 0;
    while bit < 32
        invariant
            bit <= 32,
            header_len <= 0xFFFF,
            offset <= 0x10000 + 16,
            radiotap_walk(data@, header_len, present, bit, offset, signal) == radiotap_walk(
                data@,
                header_len,
                present,
                0,
                8,
                -50i16,
            ),
        ensures
            radiotap_walk(data@, header_len, present, bit, offset, signal) == signal,
        decreases 32 - bit,
    {
        if present & (1u32 << bit) == 0 {
            bit += 1;
            continue;
        }
        if offset >= header_len {
            break;
        }
        if bit == 0 {
            proof {
                lemma_align_bound(offset, 8);
            }
            offset = align(offset, 8) + 8;
        } else if bit == 3 {
            proof {
                lemma_align_bound(offset, 2);
            }
            offset = align(offset, 2) + 4;
        } else if bit == 4 || bit == 7 || bit == 8 || bit == 9 || bit == 14 || bit == 15 {
            proof {
                lemma_align_bound(offset, 2);
            }
            offset = align(offset, 2) + 2;
        } else if bit == 5 {
            if offset < data.len() {
                signal = data[offset] as i8 as i16;
            }
            offset += 1;
        } else if bit == 12 {
            if signal == -50 && offset < data.len() {
                signal = data[offset] as i16;
            }
            offset += 1;
        } else if bit == 1 || bit == 2 || bit == 6 || bit == 10 || bit == 11 || bit == 13 {
            offset += 1;
        } else {
            offset += 4;
        }
        bit += 1;
    }
    (header_len, signal)
}

// ============================================================================
// Beacon frames
// ============================================================================

/// What the walk over a beacon's elements has found: SSID bytes, channel
/// and whether an HT operation element set the channel.
pub struct FrameIeState {
    pub ssid: Option<Seq<u8>>,
    pub channel: u8,
    pub has_ht: bool,
}

/// Effect of one element: an SSID of 1 to 32 bytes replaces the SSID; the
/// DS parameter set (3) gives the channel unless HT operation gave one; HT
/// operation (61) gives its primary channel when none is known yet or it
/// is above 14; VHT operation (192, at least 3 bytes) gives its first byte
/// when that is above 14.
pub open spec fn frame_ie_step(s: FrameIeState, e: Element) -> FrameIeState {
    let (id, d) = e;
    if id == 0 {
        if 0 < d.len() <= 32 {
            FrameIeState { ssid: Some(d), ..s }
        } else {
            s
        }
    } else if id == 3 {
        if d.len() >= 1 && !s.has_ht {
            FrameIeState { channel: d[0], ..s }
        } else {
            s
        }
    } else if id == 61 {
        if d.len() >= 1 && (s.channel == 0 || d[0] > 14) {
            FrameIeState { channel: d[0], has_ht: true, ..s }
        } else {
            s
        }
    } else if id == 192 {
        if d.len() >= 3 && d[0] > 0 && d[0] > 14 {
            FrameIeState { channel: d[0], ..s }
        } else {
            s
        }
    } else {
        s
    }
}

/// The state after walking `els` from `s`.
pub open spec fn frame_ie_walk(s: FrameIeState, els: Seq<Element>) -> FrameIeState
    decreases els.len(),
{
    if els.len() == 0 {
        s
    } else {
        frame_ie_walk(frame_ie_step(s, els[0]), els.drop_first())
    }
}

/// SSID and channel of a beacon's elements.
pub open spec fn spec_frame_ies(ie: Seq<u8>) -> FrameIeState {
    frame_ie_walk(FrameIeState { ssid: None, channel: 0, has_ht: false }, elements(ie))
}

/// Bytes of an optional vector.
pub open spec fn bytes_option(o: Option<Vec<u8>>) -> Option<Seq<u8>> {
    match o {
        Some(v) => Some(v@),
        None => None,
    }
}

/// Read the SSID and channel from a beacon's elements.
pub fn parse_ie_data(data: &[u8]) -> (r: (Option<Vec<u8>>, u8))
    ensures
        bytes_option(r.0) == spec_frame_ies(data@).ssid,
        r.1 == spec_frame_ies(data@).channel,
{
    let ghost all = data@;
    let mut ssid: Option<Vec<u8>> = None;
    let mut channel: u8 = 0;
    let mut has_ht = false;
    let mut pos: usize = 0;
    proof {
        lemma_elements_start(all);
    }
    while data.len() - pos >= 2
        invariant
            all == data@,
            pos <= data.len(),
            frame_ie_walk(
                FrameIeState { ssid: bytes_option(ssid), channel, has_ht },
                elements(all.subrange(pos as int, all.len() as int)),
            ) == spec_frame_ies(all),
        ensures
            elements(all.subrange(pos as int, all.len() as int)) == Seq::<Element>::empty(),
        decreases data.len() - pos,
    {
        let id = data[pos];
        let len = data[pos + 1] as usize;
        if len > data.len() - pos - 2 {
            proof {
                lemma_elements_stop(all, pos as int);
            }
            break;
        }
        let body = &data[pos + 2..pos + 2 + len];
        let ghost rest = elements(all.subrange(pos + 2 + len, all.len() as int));
        proof {
            lemma_elements_step(all, pos as int);
            assert(body@ == all.subrange(pos + 2, pos + 2 + len));
            let l = seq![(id, body@)] + rest;
            assert(l[0] == (id, body@));
            assert(l.drop_first() =~= rest);
        }
        if id == 0 {
            if len > 0 && len <= 32 {
                ssid = Some(vstd::slice::slice_to_vec(body));
            }
        } else if id == 3 {
            if len >= 1 && !has_ht {
                channel = body[0];
            }
        } else if id == 61 {
            if len >= 1 {
                let ht_channel = body[0];
                if channel == 0 || ht_channel > 14 {
                    channel = ht_channel;
                    has_ht = true;
                }
            }
        } else if id == 192 {
            if len >= 3 {
                let vht_channel = body[0];
                if vht_channel > 0 && vht_channel > 14 {
                    channel = vht_channel;
                }
            }
        }
        pos = pos + 2 + len;
    }
    (ssid, channel)
}

/// A beacon frame: at least 36 bytes, frame type 0 and subtype 8 in the
/// frame control byte.
pub open spec fn is_beacon_frame(d: Seq<u8>) -> bool {
    d.len() >= 36 && (d[0] >> 2u8) & 0x3 == 0 && (d[0] >> 4u8) & 0xF == 8
}

/// Whether a beacon read from a frame holds what the frame says: BSSID at
/// bytes 16-21, beacon interval at 32-33, elements from byte 36 with their
/// SSID and channel, the band of that channel, the given timestamp and
/// signal, a noise floor of -90 dBm and nothing else.
pub open spec fn beacon_from_frame(b: RawBeacon, d: Seq<u8>, timestamp: u64, signal_dbm: i16) -> bool {
    let ie = d.subrange(36, d.len() as int);
    &&& b.bssid@ == d.subrange(16, 22)
    &&& b.beacon_interval == le16(d[32], d[33])
    &&& b.ie_data@ == ie
    &&& bytes_option(b.ssid) == spec_frame_ies(ie).ssid
    &&& b.channel == spec_frame_ies(ie).channel
    &&& b.band == spec_band_from_channel(spec_frame_ies(ie).channel)
    &&& b.signal_dbm == signal_dbm
    &&& b.noise_dbm == -90
    &&& b.timestamp == timestamp
    &&& b.uptime_ms is None
    &&& !b.connected
    &&& b.link_rates is None
    &&& b.local_adapter is None
    &&& !b.has_ht && !b.has_vht && !b.has_he && !b.has_eht
    &&& b.spatial_streams is None
}

/// Parse an 802.11 beacon frame.
pub fn parse_beacon_frame(data: &[u8], timestamp: u64, signal_dbm: i16) -> (r: Option<RawBeacon>)
    ensures
        r is Some <==> is_beacon_frame(data@),
        r matches Some(b) ==> beacon_from_frame(b, data@, timestamp, signal_dbm),
{
    if data.len() < 24 + 12 {
        return None;
    }
    let frame_type = (data[0] >> 2) & 0x3;
    let frame_subtype = (data[0] >> 4) & 0xF;
    if frame_type != 0 || frame_subtype != 8 {
        return None;
    }
    let bssid: [u8; 6] = [data[16], data[17], data[18], data[19], data[20], data[21]];
    assert(bssid@ =~= data@.subrange(16, 22));
    let beacon_interval = (data[32] as u16) | ((data[33] as u16) << 8u16);
    let ie_data = vstd::slice::slice_to_vec(&data[36..data.len()]);
    let (ssid, channel) = parse_ie_data(ie_data.as_slice());
    let band = Band::from_channel(channel);
    Some(
        RawBeacon {
            ssid,
            bssid,
            channel,
            band,
            signal_dbm,
            noise_dbm: -90,
            ie_data,
            beacon_interval,
            timestamp,
            uptime_ms: None,
            connected: false,
            link_rates: None,
            local_adapter: None,
            has_ht: false,
            has_vht: false,
            has_he: false,
            has_eht: false,
            spatial_streams: None,
        },
    )
}

/// The frame behind a radiotap header: after the header when its length is
/// positive and below the packet length, else the whole packet.
pub open spec fn frame_of(d: Seq<u8>) -> Seq<u8> {
    let len = spec_radiotap(d).0;
    if len > 0 && len < d.len() {
        d.subrange(len as int, d.len() as int)
    } else {
        d
    }
}

/// Parse a captured packet: radiotap header, then beacon frame.
pub fn parse_packet(data: &[u8], timestamp: u64) -> (r: Option<(RawBeacon, i16)>)
    ensures
        r is Some <==> (data.len() > 0 && is_beacon_frame(frame_of(data@))),
        r matches Some(p) ==> p.1 == spec_radiotap(data@).1 && beacon_from_frame(
            p.0,
            frame_of(data@),
            timestamp,
            p.1,
        ),
{
    if data.len() == 0 {
        return None;
    }
    let (radio_tap_len, signal_dbm) = parse_radiotap_header(data);
    let frame_data = if radio_tap_len > 0 && radio_tap_len < data.len() {
        &data[radio_tap_len..data.len()]
    } else {
        data
    };
    assert(frame_data@ == frame_of(data@));
    match parse_beacon_frame(frame_data, timestamp, signal_dbm) {
        Some(beacon) => Some((beacon, signal_dbm)),
        None => None,
    }
}

} // verus!
