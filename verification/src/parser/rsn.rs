//! The RSN element (id 48): WPA2/WPA3 security.
//!
//! Layout of the body: version (2 bytes), group cipher suite (OUI + type,
//! 4 bytes), pairwise suite count (2 bytes) and suites (4 bytes each),
//! AKM suite count (2 bytes) and suites (4 bytes each), RSN capabilities
//! (2 bytes).  A suite's type is its fourth byte.
use vstd::prelude::*;
use crate::types::{SecurityDetails, SecurityModel, open_security};
use crate::parser::phy::le16;

verus! {

/// Name of a cipher suite type.
pub open spec fn rsn_cipher_name(t: u8) -> Seq<char> {
    if t == 2 {
        "tkip"@
    } else if t == 4 {
        "ccmp"@
    } else if t == 8 {
        "gcmp"@
    } else {
        "unknown"@
    }
}

/// Key-management name of an AKM suite type.
pub open spec fn rsn_akm_name(t: u8) -> Seq<char> {
    if t == 1 || t == 8 {
        "eap"@
    } else if t == 2 {
        "psk"@
    } else if t == 4 {
        "sae"@
    } else if t == 18 {
        "owe"@
    } else {
        "unknown"@
    }
}

pub open spec fn min_int(a: int, b: int) -> int {
    if a < b {
        a
    } else {
        b
    }
}

/// Number of pairwise suites listed: at most the announced count, at most
/// 8, and only those whose type byte lies inside the body.
pub open spec fn rsn_pairwise_count(d: Seq<u8>) -> int
    recommends
        d.len() >= 8,
{
    min_int(min_int(le16(d[6], d[7]) as int, 8), (d.len() - 8) / 4)
}

/// Pairwise cipher names of an RSN body.
pub open spec fn rsn_pairwise(d: Seq<u8>) -> Seq<Seq<char>>
    recommends
        d.len() >= 8,
{
    Seq::new(rsn_pairwise_count(d) as nat, |i: int| rsn_cipher_name(d[11 + 4 * i]))
}

/// Offset of the AKM suite count.
pub open spec fn rsn_akm_count_offset(d: Seq<u8>) -> int
    recommends
        d.len() >= 8,
{
    8 + le16(d[6], d[7]) * 4
}

/// Type byte of the `i`-th AKM suite, the suites starting at `start`.
pub open spec fn akm_at(d: Seq<u8>, start: int, i: int) -> u8 {
    d[start + 4 * i + 3]
}

/// Number of AKM suites listed: at most the announced count, at most 4,
/// and only suites that lie wholly inside the body.
pub open spec fn rsn_akm_count(d: Seq<u8>) -> int
    recommends
        d.len() >= 8,
        rsn_akm_count_offset(d) + 2 <= d.len(),
{
    let ao = rsn_akm_count_offset(d);
    min_int(min_int(le16(d[ao], d[ao + 1]) as int, 4), (d.len() - (ao + 2)) / 4)
}

/// Whether some listed AKM suite has type `t`.
pub open spec fn rsn_has_akm(d: Seq<u8>, t: u8) -> bool {
    let start = rsn_akm_count_offset(d) + 2;
    exists|i: int| 0 <= i < rsn_akm_count(d) && #[trigger] akm_at(d, start, i) == t
}

/// Security type and authentication method named by the first AKM suite.
pub open spec fn rsn_primary(d: Seq<u8>) -> (Seq<char>, Seq<char>) {
    let t = akm_at(d, rsn_akm_count_offset(d) + 2, 0);
    if t == 1 {
        ("wpa2-ent"@, "eap"@)
    } else if t == 2 {
        if rsn_has_akm(d, 4) {
            ("wpa3"@, "sae"@)
        } else {
            ("wpa2"@, "psk"@)
        }
    } else if t == 4 {
        ("wpa3"@, "sae"@)
    } else if t == 8 {
        ("wpa3-ent"@, "eap"@)
    } else {
        ("wpa2"@, "psk"@)
    }
}

/// The RSN capabilities field, when the body reaches it after the listed
/// AKM suites (offset counted from the announced AKM count).
pub open spec fn rsn_capabilities(d: Seq<u8>) -> Option<u16> {
    let ao = rsn_akm_count_offset(d);
    let co = ao + 2 + le16(d[ao], d[ao + 1]) * 4;
    if co + 2 <= d.len() {
        Some(le16(d[co], d[co + 1]))
    } else {
        None
    }
}

/// Security of an RSN body.
///
/// Under 8 bytes it describes an open network.  When the body holds an AKM
/// count and at least one whole AKM suite, the description comes from the
/// suites: the first suite decides type and method, every listed suite adds
/// its key-management name, enterprise means a first suite of type 1 or 8,
/// PMF capable/required are bits 7 and 8 of the capabilities field, and
/// transition mode is PSK without SAE with PMF capable, and OWE means some
/// listed suite of type 18 (named "owe").  Otherwise the body
/// is read as WPA2-PSK.  The group cipher is named by byte 5 in both cases.
pub open spec fn spec_parse_rsn(d: Seq<u8>) -> (Seq<char>, SecurityModel) {
    if d.len() < 8 {
        ("open"@, open_security())
    } else {
        let group = rsn_cipher_name(d[5]);
        let ao = rsn_akm_count_offset(d);
        if ao + 2 <= d.len() && ao + 6 <= d.len() {
            let start = ao + 2;
            let (sec, method) = rsn_primary(d);
            let t = akm_at(d, start, 0);
            let caps = rsn_capabilities(d);
            let pmf_capable = match caps {
                Some(c) => c & 0x0080 != 0,
                None => false,
            };
            let pmf_required = match caps {
                Some(c) => c & 0x0100 != 0,
                None => false,
            };
            (
                sec,
                SecurityModel {
                    security_type: sec,
                    auth_method: method,
                    cipher: group,
                    key_mgmt: Seq::new(
                        rsn_akm_count(d) as nat,
                        |i: int| rsn_akm_name(akm_at(d, start, i)),
                    ),
                    is_enterprise: t == 1 || t == 8,
                    is_wpa3_transition: rsn_has_akm(d, 2) && !rsn_has_akm(d, 4) && pmf_capable,
                    pmf_required,
                    pmf_capable,
                    group_cipher: Some(group),
                    pairwise_ciphers: rsn_pairwise(d),
                    sae: rsn_has_akm(d, 4),
                    owe: rsn_has_akm(d, 18),
                },
            )
        } else {
            (
                "wpa2"@,
                SecurityModel {
                    security_type: "wpa2"@,
                    auth_method: "psk"@,
                    cipher: group,
                    key_mgmt: seq!["psk"@],
                    is_enterprise: false,
                    is_wpa3_transition: false,
                    pmf_required: false,
                    pmf_capable: false,
                    group_cipher: Some(group),
                    pairwise_ciphers: rsn_pairwise(d),
                    sae: false,
                    owe: false,
                },
            )
        }
    }
}

/// Suites of 4 bytes at `first`, `first + 4`, ...: the `i`-th has its type
/// byte inside a body of `len` bytes exactly when `i` is below
/// `(len - first) / 4`.
proof fn lemma_fit_count(len: int, first: int, i: int)
    requires
        0 <= first <= len,
        0 <= i,
    ensures
        first + 4 * i + 3 < len ==> min_int(i + 1, (len - first) / 4) == i + 1,
        first + 4 * i + 3 >= len ==> min_int(i + 1, (len - first) / 4) == min_int(
            i,
            (len - first) / 4,
        ),
{
    assert(first + 4 * i + 3 < len ==> i + 1 <= (len - first) / 4) by (nonlinear_arith)
        requires
            0 <= first <= len,
            0 <= i,
    ;
    assert(first + 4 * i + 3 >= len ==> i >= (len - first) / 4) by (nonlinear_arith)
        requires
            0 <= first <= len,
            0 <= i,
    ;
}

fn cipher_name(t: u8) -> (s: String)
    ensures
        s@ == rsn_cipher_name(t),
{
    match t {
        2 => "tkip".to_owned(),
        4 => "ccmp".to_owned(),
        8 => "gcmp".to_owned(),
        _ => "unknown".to_owned(),
    }
}

fn read_le16(data: &[u8], at: usize) -> (v: u16)
    requires
        at + 1 < data@.len(),
    ensures
        v == le16(data@[at as int], data@[at as int + 1]),
{
    (data[at] as u16) | ((data[at + 1] as u16) << 8u16)
}

/// Parse an RSN element into a security type and its details.
pub fn parse_rsn(data: &[u8]) -> (r: (String, SecurityDetails))
    ensures
        r.0@ == spec_parse_rsn(data@).0,
        r.1@ == spec_parse_rsn(data@).1,
{
    if data.len() < 8 {
        return ("open".to_owned(), SecurityDetails::default());
    }
    let ghost d = data@;
    let group_cipher = cipher_name(data[5]);
    let cipher = group_cipher.clone();
    let pairwise_count = read_le16(data, 6) as usize;
    let pair_limit: usize = if pairwise_count < 8 {
        pairwise_count
    } else {
        8
    };
    let mut pairwise_ciphers: Vec<String> = Vec::new();
    let mut i: usize = 0;
    while i < pair_limit
        invariant
            d == data@,
            d.len() >= 8,
            pairwise_count == le16(d[6], d[7]),
            pair_limit == min_int(pairwise_count as int, 8),
            i <= pair_limit,
            pairwise_ciphers.deep_view() =~= Seq::new(
                min_int(i as int, (d.len() - 8) / 4) as nat,
                |j: int| rsn_cipher_name(d[11 + 4 * j]),
            ),
        decreases pair_limit - i,
    {
        let offset = 8 + i * 4 + 3;
        proof {
            lemma_fit_count(d.len() as int, 8, i as int);
        }
        let ghost before = pairwise_ciphers.deep_view();
        if offset < data.len() {
            let name = cipher_name(data[offset]);
            pairwise_ciphers.push(name);
            assert(pairwise_ciphers.deep_view() =~= before.push(rsn_cipher_name(d[11 + 4 * i])));
        }
        i += 1;
    }
    assert(pairwise_ciphers.deep_view() =~= rsn_pairwise(d));
    let auth_offset = 8 + pairwise_count * 4;
    if auth_offset + 2 <= data.len() {
        let auth_count = read_le16(data, auth_offset) as usize;
        let auth_suite_offset = auth_offset + 2;
        if auth_suite_offset + 4 <= data.len() {
            let ghost start = auth_suite_offset as int;
            let akm_limit: usize = if auth_count < 4 {
                auth_count
            } else {
                4
            };
            let mut key_mgmt: Vec<String> = Vec::new();
            let mut has_sae = false;
            let mut has_psk = false;
            let mut has_eap = false;
            let mut has_owe = false;
            let mut k: usize = 0;
            while k < akm_limit
                invariant
                    d == data@,
                    d.len() >= 8,
                    start == auth_suite_offset,
                    start == rsn_akm_count_offset(d) + 2,
                    start + 4 <= d.len(),
                    auth_count == le16(d[start - 2], d[start - 1]),
                    akm_limit == min_int(auth_count as int, 4),
                    k <= akm_limit,
                    key_mgmt.deep_view() =~= Seq::new(
                        min_int(k as int, (d.len() - start) / 4) as nat,
                        |j: int| rsn_akm_name(akm_at(d, start, j)),
                    ),
                    has_sae == exists|j: int|
                        0 <= j < min_int(k as int, (d.len() - start) / 4) && #[trigger] akm_at(
                            d,
                            start,
                            j,
                        ) == 4,
                    has_psk == exists|j: int|
                        0 <= j < min_int(k as int, (d.len() - start) / 4) && #[trigger] akm_at(
                            d,
                            start,
                            j,
                        ) == 2,
                    has_owe == exists|j: int|
                        0 <= j < min_int(k as int, (d.len() - start) / 4) && #[trigger] akm_at(
                            d,
                            start,
                            j,
                        ) == 18,
                decreases akm_limit - k,
            {
                let suite_offset = auth_suite_offset + k * 4;
                proof {
                    lemma_fit_count(d.len() as int - start + 8, 8, k as int);
                }
                let ghost before = key_mgmt.deep_view();
                if suite_offset + 4 <= data.len() {
                    let auth_type = data[suite_offset + 3];
                    assert(auth_type == akm_at(d, start, k as int));
                    if auth_type == 1 {
                        key_mgmt.push("eap".to_owned());
                        has_eap = true;
                    } else if auth_type == 2 {
                        key_mgmt.push("psk".to_owned());
                        has_psk = true;
                    } else if auth_type == 4 {
                        key_mgmt.push("sae".to_owned());
                        has_sae = true;
                    } else if auth_type == 8 {
                        key_mgmt.push("eap".to_owned());
                        has_eap = true;
                    } else if auth_type == 18 {
                        key_mgmt.push("owe".to_owned());
                        has_owe = true;
                    } else {
                        key_mgmt.push("unknown".to_owned());
                    }
                    assert(key_mgmt.deep_view() =~= before.push(rsn_akm_name(auth_type)));
                }
                k += 1;
            }
            assert(has_sae == rsn_has_akm(d, 4));
            assert(has_psk == rsn_has_akm(d, 2));
            assert(has_owe == rsn_has_akm(d, 18));
            let auth_type = data[auth_suite_offset + 3];
            let (sec_type, auth_method) = match auth_type {
                1 => ("wpa2-ent", "eap"),
                2 => if has_sae {
                    ("wpa3", "sae")
                } else {
                    ("wpa2", "psk")
                },
                4 => ("wpa3", "sae"),
                8 => ("wpa3-ent", "eap"),
                _ => ("wpa2", "psk"),
            };
            let caps_offset = auth_suite_offset + auth_count * 4;
            let (pmf_capable, pmf_required) = if caps_offset + 2 <= data.len() {
                let caps = read_le16(data, caps_offset);
                ((caps & 0x0080) != 0, (caps & 0x0100) != 0)
            } else {
                (false, false)
            };
            let is_wpa3_transition = has_psk && !has_sae && pmf_capable;
            let details = SecurityDetails {
                security_type: sec_type.to_owned(),
                auth_method: auth_method.to_owned(),
                cipher,
                key_mgmt,
                is_enterprise: auth_type == 1 || auth_type == 8,
                is_wpa3_transition,
                pmf_required,
                pmf_capable,
                group_cipher: Some(group_cipher),
                pairwise_ciphers,
                sae: has_sae,
                owe: has_owe,
            };
            return (sec_type.to_owned(), details);
        }
    }
    let mut key_mgmt: Vec<String> = Vec::new();
    key_mgmt.push("psk".to_owned());
    assert(key_mgmt.deep_view() =~= seq!["psk"@]);
    let details = SecurityDetails {
        security_type: "wpa2".to_owned(),
        auth_method: "psk".to_owned(),
        cipher,
        key_mgmt,
        is_enterprise: false,
        is_wpa3_transition: false,
        pmf_required: false,
        pmf_capable: false,
        group_cipher: Some(group_cipher),
        pairwise_ciphers,
        sae: false,
        owe: false,
    };
    ("wpa2".to_owned(), details)
}

} // verus!
