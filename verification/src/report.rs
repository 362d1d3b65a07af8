//! What the command line shows: short names, the band filter and finding a
//! network by its BSSID.
use vstd::prelude::*;
use crate::text::{chars_of, push_str, same_text, string_of_chars};
use crate::types::{spec_band_str, spec_bssid_string, Band, RawBeacon};

verus! {

// ============================================================================
// Shortening names
// ============================================================================

/// How many bytes UTF-8 takes for a character.
pub open spec fn utf8_width(c: char) -> nat {
    let u = c as u32;
    if u < 0x80 {
        1
    } else if u < 0x800 {
        2
    } else if u < 0x10000 {
        3
    } else {
        4
    }
}

/// How many bytes UTF-8 takes for a text.
pub open spec fn utf8_len(s: Seq<char>) -> nat
    decreases s.len(),
{
    if s.len() == 0 {
        0
    } else {
        utf8_len(s.drop_last()) + utf8_width(s.last())
    }
}

/// Byte `n` of the text is where a character starts (or the end).
pub open spec fn char_boundary(s: Seq<char>, n: int) -> bool {
    exists|k: int| 0 <= k <= s.len() && utf8_len(s.take(k)) == n
}

fn utf8_width_exec(c: char) -> (w: usize)
    ensures
        w == utf8_width(c),
{
    let u = c as u32;
    if u < 0x80 {
        1
    } else if u < 0x800 {
        2
    } else if u < 0x10000 {
        3
    } else {
        4
    }
}

proof fn lemma_utf8_len_step(s: Seq<char>, k: int)
    requires
        0 <= k < s.len(),
    ensures
        utf8_len(s.take(k + 1)) == utf8_len(s.take(k)) + utf8_width(s[k]),
{
    assert(s.take(k + 1).drop_last() =~= s.take(k));
}

proof fn lemma_utf8_len_grows(s: Seq<char>, j: int, k: int)
    requires
        0 <= j <= k <= s.len(),
    ensures
        utf8_len(s.take(j)) + (k - j) <= utf8_len(s.take(k)),
    decreases k - j,
{
    if j < k {
        lemma_utf8_len_grows(s, j, k - 1);
        lemma_utf8_len_step(s, k - 1);
    }
}

/// A name cut to at most `max` bytes: a longer one keeps its first
/// `max - 3` bytes and ends in "...".
pub fn truncate(s: &str, max: usize) -> (r: String)
    requires
        utf8_len(s@) <= max || (max >= 3 && char_boundary(s@, max - 3)),
    ensures
        utf8_len(s@) <= max ==> r@ == s@,
        utf8_len(s@) > max ==> exists|k: int|
            0 <= k <= s@.len() && utf8_len(s@.take(k)) == max - 3 && r@ == s@.take(k) + "..."@,
{
    let cs = chars_of(s);
    let n = cs.len();
    let mut acc: usize = 0;
    let mut i: usize = 0;
    let mut fits = true;
    assert(cs@.take(0) =~= Seq::<char>::empty());
    while i < n
        invariant_except_break
            fits,
        invariant
            cs@ == s@,
            n == cs.len(),
            i <= n,
            acc == utf8_len(cs@.take(i as int)),
            acc <= max,
        ensures
            cs@ == s@,
            i <= n,
            acc == utf8_len(cs@.take(i as int)),
            fits ==> i == n && acc <= max,
            !fits ==> i < n && acc + utf8_width(cs@[i as int]) > max,
        decreases n - i,
    {
        let w = utf8_width_exec(cs[i]);
        if w > max - acc {
            fits = false;
            break;
        }
        proof {
            lemma_utf8_len_step(cs@, i as int);
        }
        acc = acc + w;
        i += 1;
    }
    if fits {
        assert(cs@.take(n as int) =~= s@);
        return string_of_chars(cs.as_slice());
    }
    proof {
        lemma_utf8_len_step(cs@, i as int);
        lemma_utf8_len_grows(cs@, i + 1, n as int);
        assert(cs@.take(n as int) =~= s@);
    }
    let ghost k0 = choose|k: int| 0 <= k <= s@.len() && utf8_len(s@.take(k)) == max - 3;
    let target = max - 3;
    let mut got: usize = 0;
    let mut k: usize = 0;
    while got < target
        invariant
            cs@ == s@,
            n == cs.len(),
            0 <= k0 <= n,
            utf8_len(s@.take(k0)) == target,
            k <= k0,
            got == utf8_len(s@.take(k as int)),
            got <= target,
        decreases target - got,
    {
        proof {
            if k == k0 {
                assert(false);
            }
            lemma_utf8_len_step(s@, k as int);
            lemma_utf8_len_grows(s@, k + 1, k0);
        }
        got = got + utf8_width_exec(cs[k]);
        k += 1;
    }
    proof {
        if k < k0 {
            lemma_utf8_len_grows(s@, k as int, k0);
        }
    }
    assert(k == k0);
    let mut out: Vec<char> = Vec::new();
    let mut j: usize = 0;
    while j < k
        invariant
            cs@ == s@,
            n == cs.len(),
            k <= n,
            j <= k,
            out@ == s@.take(j as int),
        decreases k - j,
    {
        out.push(cs[j]);
        assert(out@ =~= s@.take(j + 1));
        j += 1;
    }
    push_str(&mut out, "...");
    string_of_chars(out.as_slice())
}

// ============================================================================
// The band filter
// ============================================================================

/// A beacon passes the band filter: "all", or the band's short label.
pub open spec fn spec_band_matches(band: Band, filter: Seq<char>) -> bool {
    filter == "all"@ || spec_band_str(band)@ == filter
}

/// Whether a beacon of this band passes the band filter.
pub fn band_matches(band: Band, filter: &str) -> (b: bool)
    ensures
        b == spec_band_matches(band, filter@),
{
    same_text(filter, "all") || same_text(band.as_str(), filter)
}

// ============================================================================
// Finding a network
// ============================================================================

/// The upper case of a text by the Unicode case mapping.
pub uninterp spec fn unicode_upper(s: Seq<char>) -> Seq<char>;

/// Upper-case a text.
///
/// Calls `str::to_uppercase`, whose result is named by `unicode_upper`: it
/// depends on the text alone (the Unicode case mapping, without locale).
#[verifier::external_body]
fn to_upper(s: &str) -> (r: String)
    ensures
        r@ == unicode_upper(s@),
{
    s.to_uppercase()
}

/// The beacon is the one a BSSID given on the command line names: equal
/// once both are upper-cased.
pub open spec fn names_beacon(b: RawBeacon, bssid: Seq<char>) -> bool {
    unicode_upper(spec_bssid_string(b.bssid@)) == unicode_upper(bssid)
}

/// The position of the first beacon that the BSSID names.
pub fn find_beacon(beacons: &Vec<RawBeacon>, bssid: &str) -> (r: Option<usize>)
    ensures
        match r {
            Some(i) => i < beacons.len() && names_beacon(beacons@[i as int], bssid@) && forall|
                j: int,
            | 0 <= j < i ==> !names_beacon(#[trigger] beacons@[j], bssid@),
            None => forall|j: int|
                0 <= j < beacons.len() ==> !names_beacon(#[trigger] beacons@[j], bssid@),
        },
{
    let wanted = to_upper(bssid);
    let mut i: usize = 0;
    while i < beacons.len()
        invariant
            wanted@ == unicode_upper(bssid@),
            i <= beacons.len(),
            forall|j: int| 0 <= j < i ==> !names_beacon(#[trigger] beacons@[j], bssid@),
        decreases beacons.len() - i,
    {
        let text = beacons[i].bssid_string();
        let upper = to_upper(text.as_str());
        if same_text(upper.as_str(), wanted.as_str()) {
            return Some(i);
        }
        i += 1;
    }
    None
}

/// The centre frequency of a channel centre index in MHz, as the network
/// report prints it: 5000 + 5 * index.
pub fn center_frequency_mhz(index: u16) -> (f: u16)
    requires
        index * 5 + 5000 <= u16::MAX,
    ensures
        f == index * 5 + 5000,
{
    index * 5 + 5000
}

} // verus!
