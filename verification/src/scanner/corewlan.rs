//! Apple's CoreWLAN framework: what the properties of its network objects
//! mean as beacons.
use vstd::prelude::*;
use vstd::utf8::encode_utf8;
use crate::scanner::iw::{parse_bssid, spec_parse_bssid};
use crate::types::{blank_beacon, spec_band_from_channel, Band, BeaconModel, RawBeacon};

verus! {

/// The properties of one CoreWLAN network object: texts are absent where
/// the object gave none.
#[derive(Clone, Debug)]
pub struct CwNetwork {
    pub ssid: Option<String>,
    pub bssid: Option<String>,
    pub rssi: i32,
    pub noise: i32,
    /// The channel number, when the object has a channel.
    pub channel: Option<i32>,
    /// The beacon interval as the object reports it.
    pub beacon_interval: i32,
}

/// The SSID bytes: none when absent or empty.
pub open spec fn cw_ssid(s: Option<String>) -> Option<Seq<u8>> {
    match s {
        Some(t) => if t@.len() == 0 {
            None
        } else {
            Some(encode_utf8(t@))
        },
        None => None,
    }
}

/// The BSSID: all zeros when absent or not readable.
pub open spec fn cw_bssid(s: Option<String>) -> Seq<u8> {
    match s {
        Some(t) => match spec_parse_bssid(t@) {
            Some(b) => b,
            None => seq![0u8, 0, 0, 0, 0, 0],
        },
        None => seq![0u8, 0, 0, 0, 0, 0],
    }
}

/// The channel, cut to a byte; 0 without one.
pub open spec fn cw_channel(c: Option<i32>) -> u8 {
    match c {
        Some(v) => v as u8,
        None => 0,
    }
}

/// The beacon a scanned network object describes, seen at `now`: a
/// positive beacon interval is divided by 1024, else it is 100.
pub open spec fn spec_cw_beacon(n: CwNetwork, now: u64) -> BeaconModel {
    BeaconModel {
        ssid: cw_ssid(n.ssid),
        channel: cw_channel(n.channel),
        band: spec_band_from_channel(cw_channel(n.channel)),
        signal_dbm: n.rssi as i16,
        noise_dbm: n.noise as i16,
        beacon_interval: if n.beacon_interval > 0 {
            (n.beacon_interval / 1024) as u16
        } else {
            100
        },
        ..blank_beacon(cw_bssid(n.bssid), now)
    }
}

fn ssid_of(s: &Option<String>) -> (r: Option<Vec<u8>>)
    ensures
        match r {
            Some(v) => cw_ssid(*s) == Some(v@),
            None => cw_ssid(*s) is None,
        },
{
    match s {
        Some(t) => {
            let bytes = t.as_str().as_bytes();
            if bytes.len() == 0 {
                proof {
                    vstd::utf8::encode_utf8_decode_utf8(t@);
                }
                None
            } else {
                proof {
                    if t@.len() == 0 {
                        assert(encode_utf8(t@) =~= Seq::<u8>::empty());
                    }
                }
                Some(vstd::slice::slice_to_vec(bytes))
            }
        },
        None => None,
    }
}

fn bssid_of(s: &Option<String>) -> (r: [u8; 6])
    ensures
        r@ == cw_bssid(*s),
{
    let zeros = [0u8; 6];
    assert(zeros@ =~= seq![0u8, 0, 0, 0, 0, 0]);
    match s {
        Some(t) => match parse_bssid(t.as_str()) {
            Ok(b) => b,
            Err(_) => zeros,
        },
        None => zeros,
    }
}

/// The beacon of a scanned network object.
pub fn cw_network_beacon(n: &CwNetwork, now: u64) -> (b: RawBeacon)
    ensures
        b@ == spec_cw_beacon(*n, now),
{
    let channel: u8 = match n.channel {
        Some(v) => v as u8,
        None => 0,
    };
    let interval: u16 = if n.beacon_interval > 0 {
        (n.beacon_interval / 1024) as u16
    } else {
        100
    };
    let b = RawBeacon {
        ssid: ssid_of(&n.ssid),
        bssid: bssid_of(&n.bssid),
        channel,
        band: Band::from_channel(channel),
        signal_dbm: n.rssi as i16,
        noise_dbm: n.noise as i16,
        ie_data: Vec::new(),
        beacon_interval: interval,
        timestamp: now,
        uptime_ms: None,
        connected: false,
        link_rates: None,
        local_adapter: None,
        has_ht: false,
        has_vht: false,
        has_he: false,
        has_eht: false,
        spatial_streams: None,
    };
    assert(b@.ie_data =~= Seq::<u8>::empty());
    b
}

/// The connected network of the interface, seen at `now`: none without an
/// SSID; else its SSID, signal and channel, with noise -90 dBm and a
/// beacon interval of 100 (the BSSID needs a permission and stays zero).
pub open spec fn spec_cw_current(ssid: Seq<char>, rssi: i32, channel: Option<i32>, now: u64) -> Option<
    BeaconModel,
> {
    if ssid.len() == 0 {
        None
    } else {
        Some(
            BeaconModel {
                ssid: Some(encode_utf8(ssid)),
                channel: cw_channel(channel),
                band: spec_band_from_channel(cw_channel(channel)),
                signal_dbm: rssi as i16,
                noise_dbm: -90i16,
                beacon_interval: 100,
                connected: true,
                ..blank_beacon(seq![0u8, 0, 0, 0, 0, 0], now)
            },
        )
    }
}

/// The connected network from the interface's SSID, signal and channel.
pub fn cw_current_beacon(ssid: &str, rssi: i32, channel: Option<i32>, now: u64) -> (r: Option<
    RawBeacon,
>)
    ensures
        match r {
            Some(b) => spec_cw_current(ssid@, rssi, channel, now) == Some(b@),
            None => spec_cw_current(ssid@, rssi, channel, now) is None,
        },
{
    let bytes = ssid.as_bytes();
    if bytes.len() == 0 {
        proof {
            vstd::utf8::encode_utf8_decode_utf8(ssid@);
        }
        return None;
    }
    proof {
        if ssid@.len() == 0 {
            assert(encode_utf8(ssid@) =~= Seq::<u8>::empty());
        }
    }
    let ch: u8 = match channel {
        Some(v) => v as u8,
        None => 0,
    };
    let zeros = [0u8; 6];
    assert(zeros@ =~= seq![0u8, 0, 0, 0, 0, 0]);
    let b = RawBeacon {
        ssid: Some(vstd::slice::slice_to_vec(bytes)),
        bssid: zeros,
        channel: ch,
        band: Band::from_channel(ch),
        signal_dbm: rssi as i16,
        noise_dbm: -90,
        ie_data: Vec::new(),
        beacon_interval: 100,
        timestamp: now,
        uptime_ms: None,
        connected: true,
        link_rates: None,
        local_adapter: None,
        has_ht: false,
        has_vht: false,
        has_he: false,
        has_eht: false,
        spatial_streams: None,
    };
    assert(b@.ie_data =~= Seq::<u8>::empty());
    Some(b)
}

} // verus!
