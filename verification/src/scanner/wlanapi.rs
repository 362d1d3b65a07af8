//! The Windows WLAN API: what its BSS entries and connection attributes
//! mean as beacons.
use vstd::prelude::*;
use crate::text::{push_decimal, push_str, spec_decimal, string_of_chars};
use crate::types::{blank_beacon, Band, BeaconModel, RawBeacon, ScanError};

verus! {

/// Band of a centre frequency in kHz.
pub open spec fn spec_windows_band(freq_khz: u32) -> Band {
    let mhz = freq_khz / 1000;
    if 5925 <= mhz <= 7125 {
        Band::Ghz6
    } else if 5000 <= mhz <= 5895 {
        Band::Ghz5
    } else {
        Band::Ghz2_4
    }
}

/// Band of a centre frequency in kHz.
pub fn band_from_frequency(freq_khz: u32) -> (b: Band)
    ensures
        b == spec_windows_band(freq_khz),
{
    let mhz = freq_khz / 1000;
    if 5925 <= mhz && mhz <= 7125 {
        Band::Ghz6
    } else if 5000 <= mhz && mhz <= 5895 {
        Band::Ghz5
    } else {
        Band::Ghz2_4
    }
}

/// Channel of a centre frequency in kHz, in each band's numbering.
pub open spec fn spec_windows_channel(freq_khz: u32) -> u8 {
    let mhz = freq_khz / 1000;
    if 2412 <= mhz <= 2484 {
        ((mhz - 2407) / 5) as u8
    } else if 5000 <= mhz <= 5895 {
        ((mhz - 5000) / 5) as u8
    } else if 5925 <= mhz <= 7125 {
        ((mhz - 5950) / 5) as u8
    } else {
        0
    }
}

/// Channel of a centre frequency in kHz.  (From 5925 to 5949 MHz the 6
/// GHz numbering would go below channel 0; those frequencies are left out.)
pub fn channel_from_frequency(freq_khz: u32) -> (ch: u8)
    requires
        !(5925 <= freq_khz / 1000 < 5950),
    ensures
        ch == spec_windows_channel(freq_khz),
{
    let mhz = freq_khz / 1000;
    if 2412 <= mhz && mhz <= 2484 {
        ((mhz - 2407) / 5) as u8
    } else if 5000 <= mhz && mhz <= 5895 {
        ((mhz - 5000) / 5) as u8
    } else if 5925 <= mhz && mhz <= 7125 {
        ((mhz - 5950) / 5) as u8
    } else {
        0
    }
}

/// Signal in dBm for a link quality in percent: -100 dBm at 0 %, half a
/// dBm per percent, -50 dBm from 100 % on.
pub open spec fn spec_quality_dbm(quality: u32) -> i16 {
    let q = if quality < 100 {
        quality
    } else {
        100
    };
    (-100 + q / 2) as i16
}

/// Signal in dBm for a link quality in percent.
pub fn signal_quality_to_dbm(quality: u32) -> (d: i16)
    ensures
        d == spec_quality_dbm(quality),
{
    let q = if quality < 100 {
        quality
    } else {
        100
    };
    (-100 + (q / 2) as i32) as i16
}

/// The SSID bytes of a fixed 32-byte field with its length: none when the
/// length is 0 or beyond the field.
pub open spec fn spec_ssid_bytes(ssid: Seq<u8>, len: u32) -> Option<Seq<u8>> {
    if len == 0 || len > 32 {
        None
    } else {
        Some(ssid.take(len as int))
    }
}

/// The SSID bytes of a fixed 32-byte field with its length.
pub fn ssid_bytes(ssid: &[u8; 32], len: u32) -> (r: Option<Vec<u8>>)
    ensures
        match r {
            Some(v) => spec_ssid_bytes(ssid@, len) == Some(v@),
            None => spec_ssid_bytes(ssid@, len) is None,
        },
{
    if len == 0 || len > 32 {
        return None;
    }
    let n = len as usize;
    let mut v: Vec<u8> = Vec::new();
    let mut i: usize = 0;
    while i < n
        invariant
            n == len,
            n <= 32,
            ssid@.len() == 32,
            i <= n,
            v@ == ssid@.take(i as int),
        decreases n - i,
    {
        v.push(ssid[i]);
        assert(v@ =~= ssid@.take(i + 1));
        i += 1;
    }
    Some(v)
}

/// The message of a WLAN call that failed with a Win32 error code.
pub open spec fn wlan_error_message(context: Seq<char>, status: u32) -> Seq<char> {
    context + " failed with Win32 error "@ + spec_decimal(status as u64)
}

/// A WLAN call's status: success (0), or the failure with its code.
pub fn check_wlan_status(status: u32, context: &str) -> (r: Result<(), ScanError>)
    ensures
        status == 0 ==> r is Ok,
        status != 0 ==> (r matches Err(ScanError::CommandFailed(m)) && m@ == wlan_error_message(
            context@,
            status,
        )),
{
    if status == 0 {
        return Ok(());
    }
    let mut v: Vec<char> = Vec::new();
    push_str(&mut v, context);
    push_str(&mut v, " failed with Win32 error ");
    push_decimal(&mut v, status as u64);
    assert(v@ =~= wlan_error_message(context@, status));
    Err(ScanError::CommandFailed(string_of_chars(v.as_slice())))
}

/// The beacon one BSS entry describes, seen at `now`.
pub open spec fn spec_bss_beacon(
    ssid: Seq<u8>,
    ssid_len: u32,
    bssid: Seq<u8>,
    center_khz: u32,
    rssi: i32,
    ie: Seq<u8>,
    beacon_period: u16,
    timestamp_us: u64,
    now: u64,
) -> BeaconModel {
    BeaconModel {
        ssid: spec_ssid_bytes(ssid, ssid_len),
        channel: spec_windows_channel(center_khz),
        band: spec_windows_band(center_khz),
        signal_dbm: rssi as i16,
        noise_dbm: -100i16,
        ie_data: ie,
        beacon_interval: beacon_period,
        uptime_ms: Some(timestamp_us / 1000),
        ..blank_beacon(bssid, now)
    }
}

/// The beacon of one BSS entry: its SSID field, BSSID, centre frequency in
/// kHz, RSSI, element data, beacon period and timestamp in microseconds.
pub fn beacon_from_bss(
    ssid: &[u8; 32],
    ssid_len: u32,
    bssid: [u8; 6],
    center_khz: u32,
    rssi: i32,
    ie: Vec<u8>,
    beacon_period: u16,
    timestamp_us: u64,
    now: u64,
) -> (b: RawBeacon)
    requires
        !(5925 <= center_khz / 1000 < 5950),
    ensures
        b@ == spec_bss_beacon(
            ssid@,
            ssid_len,
            bssid@,
            center_khz,
            rssi,
            ie@,
            beacon_period,
            timestamp_us,
            now,
        ),
{
    RawBeacon {
        ssid: ssid_bytes(ssid, ssid_len),
        bssid,
        channel: channel_from_frequency(center_khz),
        band: band_from_frequency(center_khz),
        signal_dbm: rssi as i16,
        noise_dbm: -100,
        ie_data: ie,
        beacon_interval: beacon_period,
        timestamp: now,
        uptime_ms: Some(timestamp_us / 1000),
        connected: false,
        link_rates: None,
        local_adapter: None,
        has_ht: false,
        has_vht: false,
        has_he: false,
        has_eht: false,
        spatial_streams: None,
    }
}

/// An interface list of `count` entries: an empty (or missing) list means
/// there is no WiFi interface to scan.
pub fn interfaces_found(count: usize) -> (r: Result<(), ScanError>)
    ensures
        count > 0 ==> r is Ok,
        count == 0 ==> r matches Err(ScanError::NoInterface),
{
    if count == 0 {
        Err(ScanError::NoInterface)
    } else {
        Ok(())
    }
}

/// The texts joined with "; " between them.
pub open spec fn joined(parts: Seq<Seq<char>>) -> Seq<char>
    decreases parts.len(),
{
    if parts.len() == 0 {
        seq![]
    } else if parts.len() == 1 {
        parts[0]
    } else {
        joined(parts.drop_last()) + "; "@ + parts.last()
    }
}

/// The outcome of a scan over the interfaces: when nothing was found and
/// every interface that was asked failed, the failures joined by "; ";
/// else the beacons found.
pub fn scan_outcome(results: Vec<RawBeacon>, errors: Vec<String>, queried: usize) -> (r: Result<
    Vec<RawBeacon>,
    ScanError,
>)
    ensures
        results.len() == 0 && queried > 0 && errors.len() == queried ==> (r matches Err(
            ScanError::CommandFailed(m),
        ) && m@ == joined(crate::types::texts(errors@))),
        !(results.len() == 0 && queried > 0 && errors.len() == queried) ==> r == Ok::<
            Vec<RawBeacon>,
            ScanError,
        >(results),
{
    if results.len() == 0 && queried > 0 && errors.len() == queried {
        let ghost parts = crate::types::texts(errors@);
        let mut v: Vec<char> = Vec::new();
        let mut i: usize = 0;
        while i < errors.len()
            invariant
                parts == crate::types::texts(errors@),
                i <= errors.len(),
                v@ == joined(parts.take(i as int)),
            decreases errors.len() - i,
        {
            let ghost before = v@;
            assert(parts.take(i + 1).drop_last() =~= parts.take(i as int));
            if i > 0 {
                push_str(&mut v, "; ");
            }
            push_str(&mut v, errors[i].as_str());
            assert(v@ =~= joined(parts.take(i + 1)));
            i += 1;
        }
        assert(parts.take(errors.len() as int) =~= parts);
        return Err(ScanError::CommandFailed(string_of_chars(v.as_slice())));
    }
    Ok(results)
}

/// The connected network: the scanned beacon of the associated BSSID when
/// there is one (the first), else one made of the association's SSID;
/// either way marked connected, with the signal of the link quality and
/// the time `now`.
pub open spec fn spec_connected_beacon(
    scanned: Seq<RawBeacon>,
    bssid: Seq<u8>,
    ssid: Seq<u8>,
    ssid_len: u32,
    quality: u32,
    now: u64,
) -> BeaconModel {
    let base = if exists|i: int| 0 <= i < scanned.len() && scanned[i].bssid@ == bssid {
        let i = choose|i: int|
            0 <= i < scanned.len() && scanned[i].bssid@ == bssid && forall|j: int|
                0 <= j < i ==> scanned[j].bssid@ != bssid;
        scanned[i]@
    } else {
        BeaconModel {
            ssid: spec_ssid_bytes(ssid, ssid_len),
            noise_dbm: -100i16,
            beacon_interval: 100,
            ..blank_beacon(bssid, now)
        }
    };
    BeaconModel { connected: true, signal_dbm: spec_quality_dbm(quality), timestamp: now, ..base }
}

/// The connected network of an interface, from the scanned beacons and the
/// association's BSSID, SSID field and link quality.
pub fn connected_beacon(
    scanned: Vec<RawBeacon>,
    bssid: [u8; 6],
    ssid: &[u8; 32],
    ssid_len: u32,
    quality: u32,
    now: u64,
) -> (b: RawBeacon)
    ensures
        b@ == spec_connected_beacon(scanned@, bssid@, ssid@, ssid_len, quality, now),
{
    let ghost all = scanned@;
    let mut i: usize = 0;
    while i < scanned.len()
        invariant
            scanned@ == all,
            i <= scanned.len(),
            forall|j: int| 0 <= j < i ==> all[j].bssid@ != bssid@,
        ensures
            scanned@ == all,
            i <= scanned.len(),
            forall|j: int| 0 <= j < i ==> all[j].bssid@ != bssid@,
            i < scanned.len() ==> all[i as int].bssid@ == bssid@,
        decreases scanned.len() - i,
    {
        let mut k: usize = 0;
        let mut same = true;
        while k < 6
            invariant
                k <= 6,
                scanned@ == all,
                i < scanned.len(),
                same == (forall|t: int| 0 <= t < k ==> all[i as int].bssid@[t] == bssid@[t]),
            decreases 6 - k,
        {
            if scanned[i].bssid[k] != bssid[k] {
                same = false;
            }
            k += 1;
        }
        if same {
            assert(all[i as int].bssid@ =~= bssid@);
            break;
        }
        assert(all[i as int].bssid@ != bssid@) by {
            let t = choose|t: int| 0 <= t < 6 && all[i as int].bssid@[t] != bssid@[t];
        }
        i += 1;
    }
    let signal = signal_quality_to_dbm(quality);
    let mut beacon = if i < scanned.len() {
        let mut scanned = scanned;
        proof {
            let w = choose|w: int|
                0 <= w < all.len() && all[w].bssid@ == bssid@ && forall|j: int|
                    0 <= j < w ==> all[j].bssid@ != bssid@;
            assert(w == i) by {
                if w < i {
                } else if w > i {
                    assert(all[i as int].bssid@ != bssid@);
                }
            }
        }
        scanned.remove(i)
    } else {
        RawBeacon {
            ssid: ssid_bytes(ssid, ssid_len),
            bssid,
            channel: 0,
            band: Band::Ghz2_4,
            signal_dbm: signal,
            noise_dbm: -100,
            ie_data: Vec::new(),
            beacon_interval: 100,
            timestamp: now,
            uptime_ms: None,
            connected: true,
            link_rates: None,
            local_adapter: None,
            has_ht: false,
            has_vht: false,
            has_he: false,
            has_eht: false,
            spatial_streams: None,
        }
    };
    beacon.connected = true;
    beacon.signal_dbm = signal;
    beacon.timestamp = now;
    beacon
}

} // verus!
