//! Beacon capture with libpcap: whether it can run, which interface it
//! uses, and how the beacons of one capture are kept.
use vstd::prelude::*;
use crate::text::{chars_of, same_text, spec_trim};
use crate::textscan::{
    field_of, has_prefix, has_text_in, nth_field, occurs_in, split_lines, starts_with,
    text_lines, trim_chars,
};
use crate::types::{RawBeacon, ScanError};

verus! {

/// Why capture is refused to a user who is not root.
pub open spec fn root_needed_message() -> Seq<char> {
    "Requires root/sudo privileges. Run with: sudo unifi-cli scan --scanner libpcap"@
}

/// A scanner that captures beacon frames in monitor mode.
pub struct LibpcapScanner {
    available: bool,
    interface: Option<String>,
    unavailable_reason: Option<String>,
}

impl LibpcapScanner {
    /// Whether capture can run.
    pub closed spec fn spec_available(&self) -> bool {
        self.available
    }

    /// The interface to capture on.
    pub closed spec fn spec_interface(&self) -> Option<Seq<char>> {
        match self.interface {
            Some(s) => Some(s@),
            None => None,
        }
    }

    /// Why capture cannot run.
    pub closed spec fn spec_reason(&self) -> Option<Seq<char>> {
        match self.unavailable_reason {
            Some(s) => Some(s@),
            None => None,
        }
    }

    /// The scanner, given whether the user is root and which WiFi
    /// interface was found: capture needs both.
    pub fn from_probe(is_root: bool, wifi_interface: Option<String>) -> (s: LibpcapScanner)
        ensures
            !is_root ==> !s.spec_available() && s.spec_interface() is None && s.spec_reason()
                == Some(root_needed_message()),
            is_root && wifi_interface is None ==> !s.spec_available() && s.spec_interface() is None
                && s.spec_reason() == Some("No WiFi interface found"@),
            is_root && wifi_interface is Some ==> s.spec_available() && s.spec_interface()
                == Some(wifi_interface->0@) && s.spec_reason() is None,
    {
        if !is_root {
            return LibpcapScanner {
                available: false,
                interface: None,
                unavailable_reason: Some(
                    "Requires root/sudo privileges. Run with: sudo unifi-cli scan --scanner libpcap".to_owned(),
                ),
            };
        }
        match wifi_interface {
            Some(iface) => LibpcapScanner {
                available: true,
                interface: Some(iface),
                unavailable_reason: None,
            },
            None => LibpcapScanner {
                available: false,
                interface: None,
                unavailable_reason: Some("No WiFi interface found".to_owned()),
            },
        }
    }

    /// Why capture cannot run, when it cannot.
    pub fn unavailable_reason(&self) -> (r: Option<&str>)
        ensures
            match r {
                Some(t) => self.spec_reason() == Some(t@),
                None => self.spec_reason() is None,
            },
    {
        match &self.unavailable_reason {
            Some(s) => Some(s.as_str()),
            None => None,
        }
    }

    /// The interface a scan captures on, or why the scan fails: the reason
    /// capture is unavailable ("Permission denied" when none is known), or
    /// no interface.
    pub fn capture_interface(&self) -> (r: Result<String, ScanError>)
        ensures
            !self.spec_available() ==> (r matches Err(ScanError::CommandFailed(m)) && m@ == (
            match self.spec_reason() {
                Some(t) => t,
                None => "Permission denied"@,
            })),
            self.spec_available() && self.spec_interface() is None ==> r == Err::<
                String,
                ScanError,
            >(ScanError::NoInterface),
            self.spec_available() && self.spec_interface() is Some ==> (r matches Ok(i) && i@
                == self.spec_interface()->0),
    {
        if !self.available {
            let reason = match &self.unavailable_reason {
                Some(s) => s.as_str().to_owned(),
                None => "Permission denied".to_owned(),
            };
            return Err(ScanError::CommandFailed(reason));
        }
        match &self.interface {
            Some(i) => Ok(i.as_str().to_owned()),
            None => Err(ScanError::NoInterface),
        }
    }

    /// The scanner's name.
    pub fn name(&self) -> (n: &'static str)
        ensures
            n@ == "Libpcap Beacon Capture"@,
    {
        "Libpcap Beacon Capture"
    }

    /// Capture always needs root.
    pub fn requires_privilege(&self) -> (b: bool)
        ensures
            b,
    {
        true
    }

    /// Whether capture can run.
    pub fn is_available(&self) -> (b: bool)
        ensures
            b == self.spec_available(),
    {
        self.available
    }
}

// ============================================================================
// Choosing the interface
// ============================================================================

/// The first interface name that looks like a Linux WiFi device
/// (`wlan...` or `wlp...`).
pub open spec fn first_linux_wifi(names: Seq<Seq<char>>) -> Option<Seq<char>>
    decreases names.len(),
{
    if names.len() == 0 {
        None
    } else if starts_with(names[0], "wlan"@) || starts_with(names[0], "wlp"@) {
        Some(names[0])
    } else {
        first_linux_wifi(names.drop_first())
    }
}

/// Pick the capture interface among Linux device names.
pub fn pick_linux_interface(names: &Vec<String>) -> (r: Option<String>)
    ensures
        match r {
            Some(n) => first_linux_wifi(crate::types::texts(names@)) == Some(n@),
            None => first_linux_wifi(crate::types::texts(names@)) is None,
        },
{
    let ghost all = crate::types::texts(names@);
    let mut i: usize = 0;
    assert(all.skip(0) =~= all);
    while i < names.len()
        invariant
            all == crate::types::texts(names@),
            i <= names.len(),
            first_linux_wifi(all) == first_linux_wifi(all.skip(i as int)),
        decreases names.len() - i,
    {
        let cs = chars_of(names[i].as_str());
        assert(all.skip(i as int)[0] == names@[i as int]@);
        if has_prefix(&cs, "wlan") || has_prefix(&cs, "wlp") {
            return Some(names[i].as_str().to_owned());
        }
        assert(all.skip(i as int).drop_first() =~= all.skip(i + 1));
        i += 1;
    }
    None
}

/// Whether the hardware-port listing of macOS (`networksetup
/// -listallhardwareports`) names `name` as the device of a WiFi port,
/// reading from `lines`; `in_wifi` says whether a WiFi port began above
/// them.  A name not found is taken to be WiFi only when it is `en0`.
pub open spec fn wifi_port_in(lines: Seq<Seq<char>>, name: Seq<char>, in_wifi: bool) -> bool
    decreases lines.len(),
{
    if lines.len() == 0 {
        name == "en0"@
    } else {
        let l = lines[0];
        let w = in_wifi || occurs_in(l, "Wi-Fi"@) || occurs_in(l, "AirPort"@);
        if w && occurs_in(l, "Device:"@) {
            if (match field_of(l, ':', 1) {
                Some(f) => spec_trim(f) == name,
                None => false,
            }) {
                true
            } else {
                wifi_port_in(lines.drop_first(), name, false)
            }
        } else {
            wifi_port_in(lines.drop_first(), name, w)
        }
    }
}

/// Whether `name` is a WiFi device according to the hardware-port listing
/// of macOS.
pub fn is_wifi_port(listing: &str, name: &str) -> (b: bool)
    ensures
        b == wifi_port_in(text_lines(listing@), name@, false),
{
    let text = chars_of(listing);
    let lines = split_lines(&text);
    let ghost lv = lines@.map_values(|l: Vec<char>| l@);
    let mut in_wifi = false;
    let mut i: usize = 0;
    assert(lv.skip(0) =~= lv);
    while i < lines.len()
        invariant
            lv == lines@.map_values(|l: Vec<char>| l@),
            lv == text_lines(listing@),
            i <= lines.len(),
            wifi_port_in(lv, name@, false) == wifi_port_in(lv.skip(i as int), name@, in_wifi),
        decreases lines.len() - i,
    {
        let line = &lines[i];
        assert(lv.skip(i as int)[0] == line@);
        assert(lv.skip(i as int).drop_first() =~= lv.skip(i + 1));
        if has_text_in(line, "Wi-Fi") || has_text_in(line, "AirPort") {
            in_wifi = true;
        }
        if in_wifi && has_text_in(line, "Device:") {
            let dev = match nth_field(line, ':', 1) {
                Some(f) => {
                    let t = trim_chars(&f);
                    let n = chars_of(name);
                    same_chars(&t, &n)
                },
                None => false,
            };
            if dev {
                return true;
            }
            in_wifi = false;
        }
        i += 1;
    }
    same_text(name, "en0")
}

/// Whether two character sequences are equal.
fn same_chars(a: &Vec<char>, b: &Vec<char>) -> (r: bool)
    ensures
        r == (a@ == b@),
{
    if a.len() != b.len() {
        return false;
    }
    let mut i: usize = 0;
    while i < a.len()
        invariant
            a.len() == b.len(),
            i <= a.len(),
            forall|j: int| 0 <= j < i ==> a@[j] == b@[j],
        decreases a.len() - i,
    {
        if a[i] != b[i] {
            return false;
        }
        i += 1;
    }
    assert(a@ =~= b@);
    true
}

// ============================================================================
// Keeping the beacons of a capture
// ============================================================================

/// No two beacons share a BSSID.
pub open spec fn distinct_bssids(s: Seq<RawBeacon>) -> bool {
    forall|i: int, j: int| 0 <= i < j < s.len() ==> s[i].bssid@ != s[j].bssid@
}

/// Whether two BSSIDs are equal.
fn same_bssid(a: &[u8; 6], b: &[u8; 6]) -> (r: bool)
    ensures
        r == (a@ == b@),
{
    let mut k: usize = 0;
    while k < 6
        invariant
            k <= 6,
            a@.len() == 6,
            b@.len() == 6,
            forall|j: int| 0 <= j < k ==> a@[j] == b@[j],
        decreases 6 - k,
    {
        if a[k] != b[k] {
            return false;
        }
        k += 1;
    }
    assert(a@ =~= b@);
    true
}

/// Where the beacon of a BSSID stands, or -1.
pub open spec fn bssid_pos(s: Seq<RawBeacon>, bssid: Seq<u8>) -> int
    decreases s.len(),
{
    if s.len() == 0 {
        -1
    } else if s.last().bssid@ == bssid {
        s.len() - 1
    } else {
        bssid_pos(s.drop_last(), bssid)
    }
}

/// The beacons kept after one more: a new BSSID is added at the end; for a
/// BSSID already kept, the beacon with more IE data stays (the earlier one
/// on a tie).
pub open spec fn spec_keep(kept: Seq<RawBeacon>, b: RawBeacon) -> Seq<RawBeacon> {
    let i = bssid_pos(kept, b.bssid@);
    if i >= 0 {
        if b.ie_data@.len() > kept[i].ie_data@.len() {
            kept.update(i, b)
        } else {
            kept
        }
    } else {
        kept.push(b)
    }
}

/// `bssid_pos` finds a beacon of the BSSID when there is one.
pub proof fn lemma_bssid_pos(s: Seq<RawBeacon>, bssid: Seq<u8>)
    ensures
        -1 <= bssid_pos(s, bssid) < s.len(),
        bssid_pos(s, bssid) >= 0 ==> s[bssid_pos(s, bssid)].bssid@ == bssid,
        bssid_pos(s, bssid) < 0 ==> forall|i: int| 0 <= i < s.len() ==> s[i].bssid@ != bssid,
    decreases s.len(),
{
    if s.len() > 0 {
        lemma_bssid_pos(s.drop_last(), bssid);
        assert forall|i: int| 0 <= i < s.len() - 1 implies s[i] == s.drop_last()[i] by {}
    }
}

/// With distinct BSSIDs, `bssid_pos` finds the one beacon of the BSSID.
pub proof fn lemma_bssid_pos_unique(s: Seq<RawBeacon>, j: int)
    requires
        distinct_bssids(s),
        0 <= j < s.len(),
    ensures
        bssid_pos(s, s[j].bssid@) == j,
    decreases s.len(),
{
    if j < s.len() - 1 {
        let p = s.drop_last();
        assert(s.last().bssid@ != s[j].bssid@);
        assert(p[j] == s[j]);
        assert forall|a: int, b: int| 0 <= a < b < p.len() implies p[a].bssid@ != p[b].bssid@ by {
            assert(p[a] == s[a] && p[b] == s[b]);
        }
        lemma_bssid_pos_unique(p, j);
    }
}

/// The beacons kept after a whole capture, beacon by beacon.
pub open spec fn capture_kept(s: Seq<RawBeacon>) -> Seq<RawBeacon>
    decreases s.len(),
{
    if s.len() == 0 {
        seq![]
    } else {
        spec_keep(capture_kept(s.drop_last()), s.last())
    }
}

/// Keep a captured beacon: a new BSSID is added; for a BSSID already
/// kept, the beacon with more IE data stays (the earlier one on a tie).
pub fn keep_beacon(kept: &mut Vec<RawBeacon>, beacon: RawBeacon)
    requires
        distinct_bssids(old(kept)@),
    ensures
        distinct_bssids(final(kept)@),
        final(kept)@ == spec_keep(old(kept)@, beacon),
{
    let ghost start = kept@;
    let mut i: usize = 0;
    while i < kept.len()
        invariant
            kept@ == start,
            i <= kept.len(),
            forall|j: int| 0 <= j < i ==> kept@[j].bssid@ != beacon.bssid@,
        ensures
            kept@ == start,
            i <= kept.len(),
            forall|j: int| 0 <= j < i ==> kept@[j].bssid@ != beacon.bssid@,
            i < kept.len() ==> kept@[i as int].bssid@ == beacon.bssid@,
        decreases kept.len() - i,
    {
        if same_bssid(&kept[i].bssid, &beacon.bssid) {
            break;
        }
        i += 1;
    }
    proof {
        if i < kept.len() {
            lemma_bssid_pos_unique(start, i as int);
        } else {
            lemma_bssid_pos(start, beacon.bssid@);
        }
    }
    if i < kept.len() {
        if beacon.ie_data.len() > kept[i].ie_data.len() {
            kept.remove(i);
            kept.insert(i, beacon);
            assert(kept@ =~= start.update(i as int, beacon));
        } else {
            assert(kept@ =~= start.update(i as int, start[i as int]));
        }
        assert(distinct_bssids(kept@)) by {
            assert forall|a: int, b: int| 0 <= a < b < kept@.len() implies kept@[a].bssid@
                != kept@[b].bssid@ by {
                assert(kept@[a].bssid@ == start[a].bssid@);
                assert(kept@[b].bssid@ == start[b].bssid@);
            }
        }
    } else {
        kept.push(beacon);
        assert(kept@ =~= start.push(beacon));
    }
}

} // verus!
