//! Roaming tests: probe settings and results, connection states, and what
//! the ping tool prints.
use vstd::prelude::*;
use crate::scanner_core::text_of;
use crate::text::{chars_of, same_text, string_of_chars};
use crate::textscan::{
    has_text_in, occurs_in, parse_unsigned, parse_unsigned_upto, split_lines, split_words,
    text_lines, words,
};

verus! {

// ============================================================================
// Probes
// ============================================================================

/// One ping.
#[derive(Clone, Debug)]
pub struct PingResult {
    /// Sequence number
    pub seq: u32,
    /// Milliseconds since the test started
    pub timestamp_ms: u64,
    /// Round trip time in microseconds
    pub rtt_us: Option<u64>,
    /// The packet was lost
    pub lost: bool,
    /// Time to live of the reply
    pub ttl: Option<u8>,
    /// Source address, where several interfaces are in use
    pub source_ip: Option<String>,
}

/// How to ping.
#[derive(Clone, Debug)]
pub struct PingConfig {
    /// Host to ping
    pub target: String,
    /// Milliseconds between pings
    pub interval_ms: u64,
    /// Milliseconds to wait for a reply
    pub timeout_ms: u64,
    /// Packet size in bytes
    pub packet_size: u16,
}

impl Default for PingConfig {
    /// Ping 8.8.8.8 every 100 ms with 64-byte packets, waiting up to a
    /// second.
    fn default() -> (c: PingConfig)
        ensures
            c.target@ == "8.8.8.8"@,
            c.interval_ms == 100,
            c.timeout_ms == 1000,
            c.packet_size == 64,
    {
        PingConfig { target: "8.8.8.8".to_owned(), interval_ms: 100, timeout_ms: 1000, packet_size: 64 }
    }
}

// ============================================================================
// Connection state
// ============================================================================

/// The WiFi connection at one moment.
#[derive(Clone, Debug)]
pub struct WifiState {
    pub ssid: Option<String>,
    pub bssid: Option<String>,
    pub channel: Option<u32>,
    pub signal: Option<i32>,
    pub band: Option<String>,
}

impl Default for WifiState {
    /// Not connected: nothing known.
    fn default() -> (w: WifiState)
        ensures
            w.ssid is None,
            w.bssid is None,
            w.channel is None,
            w.signal is None,
            w.band is None,
    {
        WifiState { ssid: None, bssid: None, channel: None, signal: None, band: None }
    }
}

/// The connection state recorded at a moment of a test.
#[derive(Clone, Debug)]
pub struct ConnectionSnapshot {
    pub timestamp_ms: u64,
    pub state: WifiState,
}

/// The connection moved: to another access point (both known and
/// different), or to another network name.
pub open spec fn spec_connection_changed(prev: WifiState, current: WifiState) -> bool {
    ||| (current.bssid is Some && prev.bssid is Some && text_of(current.bssid) != text_of(
        prev.bssid,
    ))
    ||| text_of(current.ssid) != text_of(prev.ssid)
}

/// Whether two optional strings are equal.
fn same_optional_text(a: &Option<String>, b: &Option<String>) -> (r: bool)
    ensures
        r == (text_of(*a) == text_of(*b)),
{
    match (a, b) {
        (Some(x), Some(y)) => same_text(x.as_str(), y.as_str()),
        (None, None) => true,
        _ => false,
    }
}

/// Whether the connection roamed between two states.
pub fn connection_changed(prev: &WifiState, current: &WifiState) -> (r: bool)
    ensures
        r == spec_connection_changed(*prev, *current),
{
    let bssid_changed = current.bssid.is_some() && prev.bssid.is_some() && !same_optional_text(
        &current.bssid,
        &prev.bssid,
    );
    let ssid_changed = !same_optional_text(&current.ssid, &prev.ssid);
    bssid_changed || ssid_changed
}

// ============================================================================
// Roam tracking
// ============================================================================

/// What a roaming test remembers between pings: the connection it last saw
/// settle, whether a roam is under way, when it began and how many pings
/// were lost since.
#[derive(Clone, Debug)]
pub struct RoamTracker {
    pub prev: WifiState,
    pub in_roaming: bool,
    pub roaming_start_ms: Option<u64>,
    pub roaming_lost: u32,
}

/// One ping of a test with the connection state seen beside it.
#[derive(Clone, Debug)]
pub struct ConnectionSample {
    /// Milliseconds since the test started
    pub timestamp_ms: u64,
    /// The ping was lost
    pub lost: bool,
    /// The connection at that moment
    pub wifi: WifiState,
}

/// A finished roam.
#[derive(Clone, Debug)]
pub struct RoamRecord {
    /// When the roam began (the sample's time where none was recorded)
    pub timestamp_ms: u64,
    pub from: WifiState,
    pub to: WifiState,
    /// How long the roam took, where known
    pub duration_ms: Option<u64>,
    /// Pings lost during the roam
    pub packets_lost: u32,
}

/// What the test loop does after a sample.
#[derive(Clone, Debug)]
pub struct RoamAction {
    /// Record a snapshot of the connection (every tenth ping)
    pub snapshot: bool,
    /// A roam that a new move of the connection finished
    pub roamed: Option<RoamRecord>,
    /// The connection moved, so a roam (re)starts here
    pub started: bool,
}

/// A tracker that starts from a connection, with no roam under way.
pub open spec fn spec_roam_tracker(prev: WifiState) -> RoamTracker {
    RoamTracker { prev, in_roaming: false, roaming_start_ms: None, roaming_lost: 0 }
}

/// The time a roam took up to `now`, from its start where there is one.
pub open spec fn since(start: Option<u64>, now: u64) -> Option<u64> {
    match start {
        Some(t) => Some((now - t) as u64),
        None => None,
    }
}

/// The roam under way, finished at a sample: it began at the recorded start
/// (else at the sample), leads from the settled connection to the sample's,
/// and took `duration`.
pub open spec fn roam_record(st: RoamTracker, s: ConnectionSample, duration: Option<u64>) -> RoamRecord {
    RoamRecord {
        timestamp_ms: match st.roaming_start_ms {
            Some(t) => t,
            None => s.timestamp_ms,
        },
        from: st.prev,
        to: s.wifi,
        duration_ms: duration,
        packets_lost: st.roaming_lost,
    }
}

/// One step of a roaming test at a sample with sequence number `seq`.
///
/// Every tenth ping (`seq % 10 == 0`) asks for a snapshot.  When the
/// connection moved, a roam under way ends (its duration is unknown when
/// this ping was lost) and a new one starts at this sample, from the new
/// connection, with no loss.  Then, while a roam is under way, a lost ping
/// adds one to its loss.
pub open spec fn spec_roam_step(st: RoamTracker, s: ConnectionSample, seq: u32) -> (
    RoamTracker,
    RoamAction,
) {
    let changed = spec_connection_changed(st.prev, s.wifi);
    let roamed = if changed && st.in_roaming {
        Some(
            roam_record(
                st,
                s,
                if s.lost {
                    None
                } else {
                    since(st.roaming_start_ms, s.timestamp_ms)
                },
            ),
        )
    } else {
        None
    };
    let mid = if changed {
        RoamTracker {
            prev: s.wifi,
            in_roaming: true,
            roaming_start_ms: Some(s.timestamp_ms),
            roaming_lost: 0,
        }
    } else {
        st
    };
    let next = if mid.in_roaming && s.lost {
        RoamTracker { roaming_lost: (mid.roaming_lost + 1) as u32, ..mid }
    } else {
        mid
    };
    (next, RoamAction { snapshot: seq % 10 == 0, roamed, started: changed })
}

/// The roam under way ends because latency is back to its baseline: it is
/// recorded with its duration up to this sample, and no roam is under way.
pub open spec fn spec_roam_recovered(st: RoamTracker, s: ConnectionSample) -> (
    RoamTracker,
    RoamRecord,
) {
    (
        RoamTracker { prev: st.prev, in_roaming: false, roaming_start_ms: None, roaming_lost: 0 },
        roam_record(st, s, since(st.roaming_start_ms, s.timestamp_ms)),
    )
}

fn copy_text(t: &Option<String>) -> (r: Option<String>)
    ensures
        r == *t,
{
    match t {
        Some(x) => Some(x.clone()),
        None => None,
    }
}

/// A copy of a connection state.
fn copy_wifi(w: &WifiState) -> (r: WifiState)
    ensures
        r == *w,
{
    WifiState {
        ssid: copy_text(&w.ssid),
        bssid: copy_text(&w.bssid),
        channel: w.channel,
        signal: w.signal,
        band: copy_text(&w.band),
    }
}

impl RoamTracker {
    /// A tracker that starts from a connection, with no roam under way.
    pub fn new(prev: WifiState) -> (t: RoamTracker)
        ensures
            t == spec_roam_tracker(prev),
    {
        RoamTracker { prev, in_roaming: false, roaming_start_ms: None, roaming_lost: 0 }
    }
}

/// The roam under way, finished at a sample with the given duration.
fn finish_roam(state: &RoamTracker, sample: &ConnectionSample, duration: Option<u64>) -> (r:
    RoamRecord)
    ensures
        r == roam_record(*state, *sample, duration),
{
    RoamRecord {
        timestamp_ms: match state.roaming_start_ms {
            Some(t) => t,
            None => sample.timestamp_ms,
        },
        from: copy_wifi(&state.prev),
        to: copy_wifi(&sample.wifi),
        duration_ms: duration,
        packets_lost: state.roaming_lost,
    }
}

/// One step of a roaming test: the next tracker and what to record.
pub fn roam_step(state: &RoamTracker, sample: &ConnectionSample, seq: u32) -> (r: (
    RoamTracker,
    RoamAction,
))
    requires
        state.roaming_start_ms matches Some(t) ==> t <= sample.timestamp_ms,
        !spec_connection_changed(state.prev, sample.wifi) && state.in_roaming && sample.lost
            ==> state.roaming_lost < u32::MAX,
    ensures
        r == spec_roam_step(*state, *sample, seq),
{
    let changed = connection_changed(&state.prev, &sample.wifi);
    let roamed = if changed && state.in_roaming {
        let duration = if sample.lost {
            None
        } else {
            match state.roaming_start_ms {
                Some(t) => Some(sample.timestamp_ms - t),
                None => None,
            }
        };
        Some(finish_roam(state, sample, duration))
    } else {
        None
    };
    let mut next = if changed {
        RoamTracker {
            prev: copy_wifi(&sample.wifi),
            in_roaming: true,
            roaming_start_ms: Some(sample.timestamp_ms),
            roaming_lost: 0,
        }
    } else {
        RoamTracker {
            prev: copy_wifi(&state.prev),
            in_roaming: state.in_roaming,
            roaming_start_ms: state.roaming_start_ms,
            roaming_lost: state.roaming_lost,
        }
    };
    if next.in_roaming && sample.lost {
        next.roaming_lost = next.roaming_lost + 1;
    }
    (next, RoamAction { snapshot: seq % 10 == 0, roamed, started: changed })
}

/// End the roam under way at a sample whose latency is back to baseline.
pub fn roam_recovered(state: &RoamTracker, sample: &ConnectionSample) -> (r: (
    RoamTracker,
    RoamRecord,
))
    requires
        state.roaming_start_ms matches Some(t) ==> t <= sample.timestamp_ms,
    ensures
        r == spec_roam_recovered(*state, *sample),
{
    let duration = match state.roaming_start_ms {
        Some(t) => Some(sample.timestamp_ms - t),
        None => None,
    };
    let rec = finish_roam(state, sample, duration);
    (
        RoamTracker {
            prev: copy_wifi(&state.prev),
            in_roaming: false,
            roaming_start_ms: None,
            roaming_lost: 0,
        },
        rec,
    )
}

/// The test's roam count and total roaming loss after recording a roam.
pub fn count_roam(roaming_count: u32, total_lost: u32, r: &RoamRecord) -> (t: (u32, u32))
    requires
        roaming_count < u32::MAX,
        total_lost + r.packets_lost <= u32::MAX,
    ensures
        t.0 == roaming_count + 1,
        t.1 == total_lost + r.packets_lost,
{
    (roaming_count + 1, total_lost + r.packets_lost)
}

// ============================================================================
// Ping output
// ============================================================================

/// Where `pat` next occurs in `s` at or after `from`, or -1.
pub open spec fn next_match(s: Seq<char>, pat: Seq<char>, from: int) -> int
    decreases s.len() - from,
{
    if from < 0 || from >= s.len() || from + pat.len() > s.len() {
        -1
    } else if s.subrange(from, from + pat.len()) == pat {
        from
    } else {
        next_match(s, pat, from + 1)
    }
}

/// The second of the pieces of `s` between occurrences of `pat`, as
/// `str::split(pat).nth(1)` gives it.
pub open spec fn second_field(s: Seq<char>, pat: Seq<char>) -> Option<Seq<char>> {
    let a = next_match(s, pat, 0);
    if a < 0 {
        None
    } else {
        let start = a + pat.len();
        let b = next_match(s, pat, start);
        Some(s.subrange(start, if b < 0 { s.len() as int } else { b }))
    }
}

/// The first word after `marker` on a line, as
/// `line.split(marker).nth(1)` and then `split_whitespace().next()` give it.
pub open spec fn word_after(line: Seq<char>, marker: Seq<char>) -> Option<Seq<char>> {
    match second_field(line, marker) {
        Some(f) => if words(f).len() > 0 {
            Some(words(f)[0])
        } else {
            None
        },
        None => None,
    }
}

/// The word after `marker` on the first line that holds `marker`; the
/// first such line decides, whatever it holds.
pub open spec fn word_in_lines(lines: Seq<Seq<char>>, marker: Seq<char>) -> Option<Seq<char>>
    decreases lines.len(),
{
    if lines.len() == 0 {
        None
    } else if occurs_in(lines[0], marker) {
        word_after(lines[0], marker)
    } else {
        word_in_lines(lines.drop_first(), marker)
    }
}

/// The number (0 to 255) in the word after `marker` on the first line that
/// holds `marker`.
pub open spec fn value_in_lines(lines: Seq<Seq<char>>, marker: Seq<char>) -> Option<int> {
    match word_in_lines(lines, marker) {
        Some(w) => parse_unsigned(w, 255),
        None => None,
    }
}

/// `s` with every trailing copy of `suffix` removed, as
/// `str::trim_end_matches` does.
pub open spec fn trim_end_all(s: Seq<char>, suffix: Seq<char>) -> Seq<char>
    decreases s.len(),
{
    if suffix.len() > 0 && suffix.len() <= s.len() && s.subrange(
        s.len() - suffix.len(),
        s.len() as int,
    ) == suffix {
        trim_end_all(s.subrange(0, s.len() - suffix.len()), suffix)
    } else {
        s
    }
}

/// A byte read as a number.
pub open spec fn byte_value(r: Option<u8>) -> Option<int> {
    match r {
        Some(v) => Some(v as int),
        None => None,
    }
}

proof fn lemma_next_match_range(s: Seq<char>, pat: Seq<char>, from: int)
    ensures
        next_match(s, pat, from) == -1 || (from <= next_match(s, pat, from) && next_match(
            s,
            pat,
            from,
        ) + pat.len() <= s.len() && s.subrange(
            next_match(s, pat, from),
            next_match(s, pat, from) + pat.len(),
        ) == pat),
    decreases s.len() - from,
{
    if !(from < 0 || from >= s.len() || from + pat.len() > s.len()) && s.subrange(
        from,
        from + pat.len(),
    ) != pat {
        lemma_next_match_range(s, pat, from + 1);
    }
}

proof fn lemma_next_match_found(s: Seq<char>, pat: Seq<char>, from: int, i: int)
    requires
        0 <= from <= i,
        pat.len() > 0,
        i + pat.len() <= s.len(),
        s.subrange(i, i + pat.len()) == pat,
    ensures
        next_match(s, pat, from) >= 0,
    decreases i - from,
{
    if from < i && s.subrange(from, from + pat.len()) != pat {
        lemma_next_match_found(s, pat, from + 1, i);
    }
}

/// Where `pat` next occurs in `s` at or after `from`.
fn find_from(s: &Vec<char>, pat: &Vec<char>, from: usize) -> (r: Option<usize>)
    requires
        pat.len() > 0,
    ensures
        match r {
            Some(i) => next_match(s@, pat@, from as int) == i as int,
            None => next_match(s@, pat@, from as int) == -1,
        },
{
    if pat.len() > s.len() {
        assert(next_match(s@, pat@, from as int) == -1);
        return None;
    }
    let last = s.len() - pat.len();
    let mut i: usize = from;
    while i <= last
        invariant
            pat.len() > 0,
            last == s.len() - pat.len(),
            from <= i,
            next_match(s@, pat@, from as int) == next_match(s@, pat@, i as int),
        decreases last + 1 - i,
    {
        let mut j: usize = 0;
        let mut same = true;
        while j < pat.len()
            invariant
                last == s.len() - pat.len(),
                i <= last,
                j <= pat.len(),
                same == (forall|t: int| 0 <= t < j ==> s@[i + t] == pat@[t]),
            decreases pat.len() - j,
        {
            if s[i + j] != pat[j] {
                same = false;
            }
            j += 1;
        }
        if same {
            assert(s@.subrange(i as int, i + pat@.len()) =~= pat@);
            return Some(i);
        }
        assert(s@.subrange(i as int, i + pat@.len()) != pat@) by {
            let t = choose|t: int| 0 <= t < pat.len() && s@[i + t] != pat@[t];
            assert(s@.subrange(i as int, i + pat@.len())[t] != pat@[t]);
        }
        i += 1;
    }
    None
}

/// The piece of a line after the first occurrence of `pat`, up to the next.
fn second_piece(s: &Vec<char>, pat: &Vec<char>) -> (r: Option<Vec<char>>)
    requires
        pat.len() > 0,
    ensures
        match r {
            Some(f) => second_field(s@, pat@) == Some(f@),
            None => second_field(s@, pat@) is None,
        },
{
    proof {
        lemma_next_match_range(s@, pat@, 0);
    }
    let n = s.len();
    let found = find_from(s, pat, 0);
    match found {
        None => None,
        Some(a) => {
            assert(a + pat@.len() <= n);
            let start = a + pat.len();
            proof {
                lemma_next_match_range(s@, pat@, start as int);
            }
            let end = match find_from(s, pat, start) {
                Some(b) => b,
                None => s.len(),
            };
            let mut f: Vec<char> = Vec::new();
            let mut k: usize = start;
            while k < end
                invariant
                    start <= k <= end <= s.len(),
                    f@ == s@.subrange(start as int, k as int),
                decreases end - k,
            {
                f.push(s[k]);
                assert(f@ =~= s@.subrange(start as int, k + 1));
                k += 1;
            }
            Some(f)
        },
    }
}

/// The word after `marker` on the first line of `output` that holds it.
fn word_after_marker(output: &str, marker: &str) -> (r: Option<Vec<char>>)
    requires
        marker@.len() > 0,
    ensures
        match r {
            Some(w) => word_in_lines(text_lines(output@), marker@) == Some(w@),
            None => word_in_lines(text_lines(output@), marker@) is None,
        },
{
    let text = chars_of(output);
    let lines = split_lines(&text);
    let pat = chars_of(marker);
    let ghost lv = lines@.map_values(|l: Vec<char>| l@);
    let mut i: usize = 0;
    assert(lv.skip(0) =~= lv);
    while i < lines.len()
        invariant
            pat@ == marker@,
            marker@.len() > 0,
            lv == lines@.map_values(|l: Vec<char>| l@),
            lv == text_lines(output@),
            i <= lines.len(),
            word_in_lines(lv, marker@) == word_in_lines(lv.skip(i as int), marker@),
        decreases lines.len() - i,
    {
        assert(lv.skip(i as int)[0] == lines@[i as int]@);
        if has_text_in(&lines[i], marker) {
            proof {
                let l = lines@[i as int]@;
                let k = choose|k: int|
                    0 <= k && k + marker@.len() <= l.len() && #[trigger] l.subrange(
                        k,
                        k + marker@.len(),
                    ) == marker@;
                lemma_next_match_found(l, marker@, 0, k);
            }
            match second_piece(&lines[i], &pat) {
                Some(f) => {
                    let ws = split_words(&f);
                    assert(ws@.map_values(|w: Vec<char>| w@).len() == ws.len());
                    if ws.len() == 0 {
                        return None;
                    }
                    assert(words(f@)[0] == ws@[0]@);
                    let w = ws[0].clone();
                    return Some(w);
                },
                None => {
                    return None;
                },
            }
        }
        assert(lv.skip(i as int).drop_first() =~= lv.skip(i + 1));
        i += 1;
    }
    None
}

/// The number after `marker` on the first line of `output` that holds it.
fn number_after_marker(output: &str, marker: &str) -> (r: Option<u8>)
    requires
        marker@.len() > 0,
    ensures
        byte_value(r) == value_in_lines(text_lines(output@), marker@),
{
    match word_after_marker(output, marker) {
        Some(w) => match parse_unsigned_upto(&w, 255) {
            Some(v) => Some(v as u8),
            None => None,
        },
        None => None,
    }
}

/// `s` with every trailing copy of `suffix` removed.
fn trim_end_chars(s: Vec<char>, suffix: &str) -> (r: Vec<char>)
    ensures
        r@ == trim_end_all(s@, suffix@),
{
    let suf = chars_of(suffix);
    let n = suf.len();
    let mut end: usize = s.len();
    assert(s@.subrange(0, end as int) =~= s@);
    while n > 0 && n <= end
        invariant
            suf@ == suffix@,
            n == suffix@.len(),
            end <= s.len(),
            trim_end_all(s@, suffix@) == trim_end_all(s@.subrange(0, end as int), suffix@),
        ensures
            end <= s.len(),
            trim_end_all(s@, suffix@) == s@.subrange(0, end as int),
        decreases end,
    {
        let start = end - n;
        let mut same = true;
        let mut j: usize = 0;
        while j < n
            invariant
                n == suf.len(),
                start + n == end,
                end <= s.len(),
                j <= n,
                same == (forall|t: int| 0 <= t < j ==> s@[start + t] == suf@[t]),
            decreases n - j,
        {
            if s[start + j] != suf[j] {
                same = false;
            }
            j += 1;
        }
        let ghost cur = s@.subrange(0, end as int);
        if !same {
            assert(cur.subrange(cur.len() - n, cur.len() as int) != suffix@) by {
                let t = choose|t: int| 0 <= t < n && s@[start + t] != suf@[t];
                assert(cur.subrange(cur.len() - n, cur.len() as int)[t] != suf@[t]);
            }
            break;
        }
        assert(cur.subrange(cur.len() - n, cur.len() as int) =~= suffix@);
        assert(cur.subrange(0, cur.len() - n) =~= s@.subrange(0, start as int));
        end = start;
    }
    let mut r: Vec<char> = Vec::new();
    let mut k: usize = 0;
    while k < end
        invariant
            end <= s.len(),
            k <= end,
            r@ == s@.subrange(0, k as int),
        decreases end - k,
    {
        r.push(s[k]);
        assert(r@ =~= s@.subrange(0, k + 1));
        k += 1;
    }
    r
}

/// The round trip time that ping reports, as the word after `time=` (in
/// milliseconds, with a decimal point on macOS and Linux), for the caller
/// to read as a number.
pub fn rtt_text_from_ping(output: &str) -> (r: Option<String>)
    ensures
        text_of(r) == word_in_lines(text_lines(output@), "time="@),
{
    proof {
        reveal_strlit("time=");
    }
    match word_after_marker(output, "time=") {
        Some(w) => Some(string_of_chars(w.as_slice())),
        None => None,
    }
}

/// The round trip time that ping reports on Windows (`time=15ms`): the
/// word after `time=` with trailing `ms` and then `<` removed.
pub fn rtt_text_from_ping_windows(output: &str) -> (r: Option<String>)
    ensures
        text_of(r) == match word_in_lines(text_lines(output@), "time="@) {
            Some(w) => Some(trim_end_all(trim_end_all(w, "ms"@), "<"@)),
            None => None,
        },
{
    proof {
        reveal_strlit("time=");
    }
    match word_after_marker(output, "time=") {
        Some(w) => {
            let t = trim_end_chars(w, "ms");
            let u = trim_end_chars(t, "<");
            Some(string_of_chars(u.as_slice()))
        },
        None => None,
    }
}

/// The time to live that ping reports (`ttl=`), as on macOS and Linux.
pub fn parse_ttl_from_ping(output: &str) -> (r: Option<u8>)
    ensures
        byte_value(r) == value_in_lines(text_lines(output@), "ttl="@),
{
    proof {
        reveal_strlit("ttl=");
    }
    number_after_marker(output, "ttl=")
}

/// The time to live that ping reports (`TTL=`), as on Windows.
pub fn parse_ttl_from_ping_windows(output: &str) -> (r: Option<u8>)
    ensures
        byte_value(r) == value_in_lines(text_lines(output@), "TTL="@),
{
    proof {
        reveal_strlit("TTL=");
    }
    number_after_marker(output, "TTL=")
}

} // verus!
