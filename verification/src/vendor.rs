//! OUI/CID vendor lookup.
//!
//! A BSSID or OUI is reduced to its hexadecimal digits in upper case; its
//! first 9, 7 or 6 digits (MA-S, MA-M, MA-L assignments, longest first) are
//! looked up in the registry table.  Locally administered addresses are
//! looked up by the address with the local bit cleared.
//!
//! The registry table here is a small built-in set of prefixes, not the
//! full IEEE MA-L/MA-M/MA-S/CID registry: a prefix outside it has no vendor.
use vstd::prelude::*;
use crate::parser::elements::{
    elements, lemma_elements_start, lemma_elements_step, lemma_elements_stop, Element,
};
use crate::text::{chars_of, hex_digit, hex_digit_exec};

verus! {

// ============================================================================
// Characters
// ============================================================================

/// A hexadecimal digit, in either case.
pub open spec fn is_hex_char(c: char) -> bool {
    let u = c as u32;
    (0x30 <= u <= 0x39) || (0x41 <= u <= 0x46) || (0x61 <= u <= 0x66)
}

/// A hexadecimal digit in upper case.
pub open spec fn hex_upper(c: char) -> char {
    let u = c as u32;
    if 0x61 <= u <= 0x7A {
        (u - 32) as char
    } else {
        c
    }
}

/// ASCII lower case of a character; other characters stay as they are.
pub open spec fn ascii_lower(c: char) -> char {
    let u = c as u32;
    if 0x41 <= u <= 0x5A {
        (u + 32) as char
    } else {
        c
    }
}

/// The hexadecimal digits of `s`, in order, in upper case.
pub open spec fn hex_digits(s: Seq<char>) -> Seq<char>
    decreases s.len(),
{
    if s.len() == 0 {
        seq![]
    } else if is_hex_char(s.last()) {
        hex_digits(s.drop_last()).push(hex_upper(s.last()))
    } else {
        hex_digits(s.drop_last())
    }
}

/// Value of an upper-case hexadecimal digit.
pub open spec fn hex_value(c: char) -> u8 {
    let u = c as u32;
    if u <= 0x39 {
        (u - 0x30) as u8
    } else {
        (u - 0x37) as u8
    }
}

/// `needle` occurs in `hay`.
pub open spec fn contains_text(hay: Seq<char>, needle: Seq<char>) -> bool {
    exists|i: int|
        0 <= i && i + needle.len() <= hay.len() && #[trigger] hay.subrange(i, i + needle.len())
            == needle
}

fn hex_digits_of(s: &str) -> (v: Vec<char>)
    ensures
        v@ == hex_digits(s@),
{
    let cs = chars_of(s);
    let mut v: Vec<char> = Vec::new();
    let mut i: usize = 0;
    while i < cs.len()
        invariant
            cs@ == s@,
            i <= cs.len(),
            v@ == hex_digits(s@.subrange(0, i as int)),
        decreases cs.len() - i,
    {
        let c = cs[i];
        let u = c as u32;
        assert(s@.subrange(0, i + 1).drop_last() =~= s@.subrange(0, i as int));
        assert(s@.subrange(0, i + 1).last() == c);
        if (0x30 <= u && u <= 0x39) || (0x41 <= u && u <= 0x46) {
            v.push(c);
        } else if 0x61 <= u && u <= 0x66 {
            let upper = ((u - 32) as u8) as char;
            v.push(upper);
        }
        i += 1;
    }
    assert(s@.subrange(0, cs.len() as int) =~= s@);
    v
}

// ============================================================================
// The registry
// ============================================================================

/// Registry entries: an upper-case hexadecimal prefix and the registered
/// organization name.  Where a prefix occurs twice the first entry counts.
pub open spec fn registry() -> Seq<(Seq<char>, Seq<char>)> {
    seq![
        ("0050F2"@, "MICROSOFT CORP."@),
        ("506F9A"@, "Wi-Fi Alliance"@),
        ("001018"@, "Broadcom"@),
        ("00904C"@, "Epigram, Inc."@),
        ("000C43"@, "Ralink Technology, Corp."@),
        ("00037F"@, "Atheros Communications, Inc."@),
        ("00E04C"@, "REALTEK SEMICONDUCTOR CORP."@),
        ("0017F2"@, "Apple, Inc."@),
        ("24A43C"@, "Ubiquiti Networks Inc."@),
        ("802D1A"@, "zte corporation"@),
        ("2C704F"@, "zte corporation"@),
        ("F86FB0"@, "TP-LINK TECHNOLOGIES CO.,LTD."@),
        ("68DDB7"@, "TP-LINK TECHNOLOGIES CO.,LTD."@),
        ("1C3CD4"@, "HUAWEI TECHNOLOGIES CO.,LTD"@),
        ("AC9929"@, "HUAWEI TECHNOLOGIES CO.,LTD"@),
    ]
}

fn registry_table() -> (t: Vec<(&'static str, &'static str)>)
    ensures
        t@.len() == registry().len(),
        forall|i: int|
            0 <= i < t@.len() ==> (#[trigger] t@[i]).0@ == registry()[i].0 && t@[i].1@
                == registry()[i].1,
{
    let t = vec![
        ("0050F2", "MICROSOFT CORP."),
        ("506F9A", "Wi-Fi Alliance"),
        ("001018", "Broadcom"),
        ("00904C", "Epigram, Inc."),
        ("000C43", "Ralink Technology, Corp."),
        ("00037F", "Atheros Communications, Inc."),
        ("00E04C", "REALTEK SEMICONDUCTOR CORP."),
        ("0017F2", "Apple, Inc."),
        ("24A43C", "Ubiquiti Networks Inc."),
        ("802D1A", "zte corporation"),
        ("2C704F", "zte corporation"),
        ("F86FB0", "TP-LINK TECHNOLOGIES CO.,LTD."),
        ("68DDB7", "TP-LINK TECHNOLOGIES CO.,LTD."),
        ("1C3CD4", "HUAWEI TECHNOLOGIES CO.,LTD"),
        ("AC9929", "HUAWEI TECHNOLOGIES CO.,LTD"),
    ];
    t
}

/// Short names for some registered organization names.
pub open spec fn spec_vendor_alias(name: Seq<char>) -> Seq<char> {
    if name == "Extreme Networks Headquarters"@ {
        "Extreme Networks"@
    } else if name == "Hewlett Packard"@ {
        "HP"@
    } else if name == "Hewlett Packard Enterprise"@ {
        "HPE"@
    } else if name == "zte corporation"@ {
        "ZTE"@
    } else if name == "HUAWEI TECHNOLOGIES CO.,LTD"@ || name == "HUAWEI TECHNOLOGIES CO.,LTD."@
        || name == "Huawei Device Co., Ltd."@ {
        "Huawei"@
    } else if name == "TP-LINK TECHNOLOGIES CO.,LTD."@ || name
        == "TP-LINK TECHNOLOGIES CO., LTD."@ || name == "TP-LINK TECHNOLOGIES CO.,LTD"@ || name
        == "TP-Link Systems Inc."@ {
        "TP-Link"@
    } else if name == "ASUSTek COMPUTER INC."@ {
        "ASUS"@
    } else if name == "Ubiquiti Inc"@ || name == "Ubiquiti Networks Inc."@ {
        "Ubiquiti"@
    } else if name == "Cisco Systems, Inc"@ || name == "Cisco Systems, Inc."@ {
        "Cisco"@
    } else if name == "Apple, Inc."@ {
        "Apple"@
    } else if name == "Intel Corporate"@ {
        "Intel"@
    } else if name == "MediaTek Inc"@ {
        "MediaTek"@
    } else {
        name
    }
}

/// The short name of a registered organization name.
pub fn vendor_alias(name: &'static str) -> (alias: &'static str)
    ensures
        alias@ == spec_vendor_alias(name@),
{
    let names: [(&'static str, &'static str); 19] = [
        ("Extreme Networks Headquarters", "Extreme Networks"),
        ("Hewlett Packard", "HP"),
        ("Hewlett Packard Enterprise", "HPE"),
        ("zte corporation", "ZTE"),
        ("HUAWEI TECHNOLOGIES CO.,LTD", "Huawei"),
        ("HUAWEI TECHNOLOGIES CO.,LTD.", "Huawei"),
        ("Huawei Device Co., Ltd.", "Huawei"),
        ("TP-LINK TECHNOLOGIES CO.,LTD.", "TP-Link"),
        ("TP-LINK TECHNOLOGIES CO., LTD.", "TP-Link"),
        ("TP-LINK TECHNOLOGIES CO.,LTD", "TP-Link"),
        ("TP-Link Systems Inc.", "TP-Link"),
        ("ASUSTek COMPUTER INC.", "ASUS"),
        ("Ubiquiti Inc", "Ubiquiti"),
        ("Ubiquiti Networks Inc.", "Ubiquiti"),
        ("Cisco Systems, Inc", "Cisco"),
        ("Cisco Systems, Inc.", "Cisco"),
        ("Apple, Inc.", "Apple"),
        ("Intel Corporate", "Intel"),
        ("MediaTek Inc", "MediaTek"),
    ];
    let mut i: usize = 0;
    while i < 19
        invariant
            0 <= i <= 19,
            names@ == seq![
                ("Extreme Networks Headquarters", "Extreme Networks"),
                ("Hewlett Packard", "HP"),
                ("Hewlett Packard Enterprise", "HPE"),
                ("zte corporation", "ZTE"),
                ("HUAWEI TECHNOLOGIES CO.,LTD", "Huawei"),
                ("HUAWEI TECHNOLOGIES CO.,LTD.", "Huawei"),
                ("Huawei Device Co., Ltd.", "Huawei"),
                ("TP-LINK TECHNOLOGIES CO.,LTD.", "TP-Link"),
                ("TP-LINK TECHNOLOGIES CO., LTD.", "TP-Link"),
                ("TP-LINK TECHNOLOGIES CO.,LTD", "TP-Link"),
                ("TP-Link Systems Inc.", "TP-Link"),
                ("ASUSTek COMPUTER INC.", "ASUS"),
                ("Ubiquiti Inc", "Ubiquiti"),
                ("Ubiquiti Networks Inc.", "Ubiquiti"),
                ("Cisco Systems, Inc", "Cisco"),
                ("Cisco Systems, Inc.", "Cisco"),
                ("Apple, Inc.", "Apple"),
                ("Intel Corporate", "Intel"),
                ("MediaTek Inc", "MediaTek"),
            ],
            forall|j: int| 0 <= j < i ==> name@ != (#[trigger] names@[j]).0@,
        decreases 19 - i,
    {
        if crate::text::same_text(name, names[i].0) {
            return names[i].1;
        }
        i += 1;
    }
    name
}

// ============================================================================
// Lookups
// ============================================================================

/// The registry's short name for exactly this prefix, searching from entry
/// `i` on.
pub open spec fn registry_lookup_from(p: Seq<char>, i: int) -> Option<Seq<char>>
    decreases registry().len() - i,
{
    if i < 0 || i >= registry().len() {
        None
    } else if registry()[i].0 == p {
        Some(spec_vendor_alias(registry()[i].1))
    } else {
        registry_lookup_from(p, i + 1)
    }
}

/// The registry's short name for exactly this prefix.
pub open spec fn registry_lookup(p: Seq<char>) -> Option<Seq<char>> {
    registry_lookup_from(p, 0)
}

/// Lookup of upper-case hexadecimal digits (at least 6): by the first 9,
/// else the first 7, else the first 6 digits.
pub open spec fn lookup_digits(n: Seq<char>) -> Option<Seq<char>> {
    let by9 = if n.len() >= 9 {
        registry_lookup(n.subrange(0, 9))
    } else {
        None
    };
    let by7 = if n.len() >= 7 {
        registry_lookup(n.subrange(0, 7))
    } else {
        None
    };
    if by9 is Some {
        by9
    } else if by7 is Some {
        by7
    } else {
        registry_lookup(n.subrange(0, 6))
    }
}

/// Vendor of an OUI, BSSID or any text holding at least six hexadecimal
/// digits; other characters are ignored.
pub open spec fn spec_lookup_oui(s: Seq<char>) -> Option<Seq<char>> {
    let n = hex_digits(s);
    if n.len() < 6 {
        None
    } else {
        lookup_digits(n)
    }
}

/// A string option by its characters.
pub open spec fn text_option(o: Option<&str>) -> Option<Seq<char>> {
    match o {
        Some(t) => Some(t@),
        None => None,
    }
}

/// Whether the first `len` characters of `n` are those of `p`.
fn prefix_is(n: &Vec<char>, len: usize, p: &str) -> (r: bool)
    requires
        len <= n.len(),
    ensures
        r == (n@.subrange(0, len as int) == p@),
{
    let q = chars_of(p);
    if q.len() != len {
        return false;
    }
    let mut i: usize = 0;
    while i < len
        invariant
            len <= n.len(),
            q@ == p@,
            q.len() == len,
            i <= len,
            forall|j: int| 0 <= j < i ==> n@[j] == q@[j],
        decreases len - i,
    {
        if n[i] != q[i] {
            assert(n@.subrange(0, len as int)[i as int] != p@[i as int]);
            return false;
        }
        i += 1;
    }
    assert(n@.subrange(0, len as int) =~= p@);
    true
}

/// The registry's short name for the first `len` characters of `n`.
fn lookup_prefix(n: &Vec<char>, len: usize) -> (r: Option<&'static str>)
    requires
        len <= n.len(),
    ensures
        text_option(r) == registry_lookup(n@.subrange(0, len as int)),
{
    let table = registry_table();
    let ghost p = n@.subrange(0, len as int);
    let mut i: usize = 0;
    while i < table.len()
        invariant
            len <= n.len(),
            p == n@.subrange(0, len as int),
            table@.len() == registry().len(),
            forall|k: int|
                0 <= k < table@.len() ==> (#[trigger] table@[k]).0@ == registry()[k].0
                    && table@[k].1@ == registry()[k].1,
            i <= table.len(),
            registry_lookup(p) == registry_lookup_from(p, i as int),
        decreases table.len() - i,
    {
        let entry = table[i];
        if prefix_is(n, len, entry.0) {
            return Some(vendor_alias(entry.1));
        }
        i += 1;
    }
    None
}

/// Lookup of upper-case hexadecimal digits.
fn lookup_digits_exec(n: &Vec<char>) -> (r: Option<&'static str>)
    requires
        n.len() >= 6,
    ensures
        text_option(r) == lookup_digits(n@),
{
    if n.len() >= 9 {
        if let Some(v) = lookup_prefix(n, 9) {
            return Some(v);
        }
    }
    if n.len() >= 7 {
        if let Some(v) = lookup_prefix(n, 7) {
            return Some(v);
        }
    }
    lookup_prefix(n, 6)
}

/// Look up the vendor of an OUI prefix (or any text holding at least six
/// hexadecimal digits).
pub fn lookup_oui(prefix: &str) -> (r: Option<&'static str>)
    ensures
        text_option(r) == spec_lookup_oui(prefix@),
{
    let n = hex_digits_of(prefix);
    if n.len() < 6 {
        return None;
    }
    lookup_digits_exec(&n)
}

/// Value of a hexadecimal digit in upper case (0 for other characters).
pub open spec fn digit_value(c: char) -> u8 {
    let u = c as u32;
    if 0x30 <= u <= 0x39 {
        (u - 0x30) as u8
    } else if 0x41 <= u <= 0x46 {
        (u - 0x37) as u8
    } else {
        0
    }
}

/// The first octet that the first two digits spell.
pub open spec fn first_octet(n: Seq<char>) -> u8 {
    (digit_value(n[0]) * 16 + digit_value(n[1])) as u8
}

/// The locally administered bit (bit 1 of the first octet) is set.
pub open spec fn is_locally_administered(n: Seq<char>) -> bool {
    first_octet(n) & 0x02 != 0
}

/// The digits with the locally administered bit cleared.
pub open spec fn canonical_prefix(n: Seq<char>) -> Seq<char> {
    let o = first_octet(n) & 0xFD;
    seq![hex_digit(o / 16), hex_digit(o % 16)] + n.subrange(2, n.len() as int)
}

/// Vendor name for a BSSID: locally administered addresses by their
/// canonical prefix, else "Locally Administered"; others by their prefix,
/// else "Unknown".
pub open spec fn spec_lookup_vendor(bssid: Seq<char>) -> Seq<char> {
    let n = hex_digits(bssid);
    if n.len() >= 6 && is_locally_administered(n) {
        match lookup_digits(canonical_prefix(n)) {
            Some(v) => v,
            None => "Locally Administered"@,
        }
    } else {
        match spec_lookup_oui(bssid) {
            Some(v) => v,
            None => "Unknown"@,
        }
    }
}

fn digit_value_exec(c: char) -> (v: u8)
    ensures
        v == digit_value(c),
{
    let u = c as u32;
    if 0x30 <= u && u <= 0x39 {
        (u - 0x30) as u8
    } else if 0x41 <= u && u <= 0x46 {
        (u - 0x37) as u8
    } else {
        0
    }
}

/// Look up the vendor of a BSSID.
pub fn lookup_vendor(bssid: &str) -> (name: String)
    ensures
        name@ == spec_lookup_vendor(bssid@),
{
    let n = hex_digits_of(bssid);
    if n.len() >= 6 {
        let d0 = digit_value_exec(n[0]);
        let d1 = digit_value_exec(n[1]);
        let octet = (d0 * 16 + d1) as u8;
        if octet & 0x02 != 0 {
            let o = octet & 0xFD;
            assert(o / 16 < 16) by (bit_vector)
                requires
                    o == octet & 0xFD,
            ;
            let mut c: Vec<char> = Vec::new();
            c.push(hex_digit_exec(o / 16));
            c.push(hex_digit_exec(o % 16));
            let mut i: usize = 2;
            while i < n.len()
                invariant
                    2 <= i <= n.len(),
                    c@ == seq![hex_digit(o / 16), hex_digit(o % 16)] + n@.subrange(2, i as int),
                decreases n.len() - i,
            {
                c.push(n[i]);
                assert(c@ =~= seq![hex_digit(o / 16), hex_digit(o % 16)] + n@.subrange(
                    2,
                    i + 1,
                ));
                i += 1;
            }
            assert(c@ == canonical_prefix(n@));
            if let Some(v) = lookup_digits_exec(&c) {
                return v.to_owned();
            }
            return "Locally Administered".to_owned();
        }
    }
    match lookup_oui(bssid) {
        Some(v) => v.to_owned(),
        None => "Unknown".to_owned(),
    }
}

/// Vendors that an access point's vendor-specific elements do not reveal:
/// Microsoft and the Wi-Fi Alliance (compared in ASCII lower case).
pub open spec fn ignored_vendor(name: Seq<char>) -> bool {
    let l = name.map_values(|c: char| ascii_lower(c));
    contains_text(l, "microsoft"@) || contains_text(l, "wifi alliance"@) || contains_text(
        l,
        "wi-fi alliance"@,
    )
}

/// The OUI of a vendor-specific body, as six upper-case hexadecimal digits.
pub open spec fn oui_digits(d: Seq<u8>) -> Seq<char> {
    seq![
        hex_digit(d[0] / 16),
        hex_digit(d[0] % 16),
        hex_digit(d[1] / 16),
        hex_digit(d[1] % 16),
        hex_digit(d[2] / 16),
        hex_digit(d[2] % 16),
    ]
}

/// The vendor a single element reveals: a vendor-specific element (221)
/// with an OUI of a known, not ignored vendor.
pub open spec fn element_vendor(e: Element) -> Option<Seq<char>> {
    if e.0 == 221 && e.1.len() >= 3 {
        match lookup_digits(oui_digits(e.1)) {
            Some(v) => if ignored_vendor(v) {
                None
            } else {
                Some(v)
            },
            None => None,
        }
    } else {
        None
    }
}

/// The first vendor that a list of elements reveals.
pub open spec fn first_vendor(els: Seq<Element>) -> Option<Seq<char>>
    decreases els.len(),
{
    if els.len() == 0 {
        None
    } else if element_vendor(els[0]) is Some {
        element_vendor(els[0])
    } else {
        first_vendor(els.drop_first())
    }
}

/// Whether `needle` occurs in `hay`.
fn text_contains(hay: &Vec<char>, needle: &str) -> (r: bool)
    ensures
        r == contains_text(hay@, needle@),
{
    let q = chars_of(needle);
    if q.len() > hay.len() {
        assert forall|i: int| 0 <= i && i + q@.len() <= hay@.len() implies #[trigger] hay@.subrange(
            i,
            i + q@.len(),
        ) != needle@ by {}
        return false;
    }
    let last = hay.len() - q.len();
    let mut i: usize = 0;
    while i <= last
        invariant
            q@ == needle@,
            last == hay.len() - q.len(),
            i <= last + 1,
            forall|k: int| 0 <= k < i ==> #[trigger] hay@.subrange(k, k + q@.len()) != needle@,
        decreases last + 1 - i,
    {
        let mut j: usize = 0;
        let mut same = true;
        while j < q.len()
            invariant
                q@ == needle@,
                last == hay.len() - q.len(),
                i <= last,
                j <= q.len(),
                same == (forall|t: int| 0 <= t < j ==> hay@[i + t] == q@[t]),
            decreases q.len() - j,
        {
            if hay[i + j] != q[j] {
                same = false;
            }
            j += 1;
        }
        if same {
            assert(hay@.subrange(i as int, i + q@.len()) =~= needle@);
            return true;
        }
        assert(hay@.subrange(i as int, i + q@.len()) != needle@) by {
            let t = choose|t: int| 0 <= t < q.len() && hay@[i + t] != q@[t];
            assert(hay@.subrange(i as int, i + q@.len())[t] != needle@[t]);
        }
        i += 1;
    }
    false
}

/// Whether a vendor name is one that vendor-specific elements do not reveal.
fn should_ignore_ie_vendor(vendor: &str) -> (r: bool)
    ensures
        r == ignored_vendor(vendor@),
{
    let cs = chars_of(vendor);
    let mut l: Vec<char> = Vec::new();
    let mut i: usize = 0;
    while i < cs.len()
        invariant
            cs@ == vendor@,
            i <= cs.len(),
            l@ == vendor@.subrange(0, i as int).map_values(|c: char| ascii_lower(c)),
        decreases cs.len() - i,
    {
        let c = cs[i];
        let u = c as u32;
        let lower = if 0x41 <= u && u <= 0x5A {
            ((u + 32) as u8) as char
        } else {
            c
        };
        l.push(lower);
        assert(l@ =~= vendor@.subrange(0, i + 1).map_values(|c: char| ascii_lower(c)));
        i += 1;
    }
    assert(vendor@.subrange(0, cs.len() as int) =~= vendor@);
    text_contains(&l, "microsoft") || text_contains(&l, "wifi alliance") || text_contains(
        &l,
        "wi-fi alliance",
    )
}

/// The vendor named by the first vendor-specific element with a known,
/// not ignored OUI.
pub fn lookup_vendor_from_ie(ie_data: &[u8]) -> (r: Option<String>)
    ensures
        (match r {
            Some(v) => Some(v@),
            None => None,
        }) == first_vendor(elements(ie_data@)),
{
    let ghost data = ie_data@;
    let mut pos: usize = 0;
    proof {
        lemma_elements_start(data);
    }
    while ie_data.len() - pos >= 2
        invariant
            data == ie_data@,
            pos <= ie_data.len(),
            first_vendor(elements(data.subrange(pos as int, data.len() as int))) == first_vendor(
                elements(data),
            ),
        decreases ie_data.len() - pos,
    {
        let id = ie_data[pos];
        let len = ie_data[pos + 1] as usize;
        if len > ie_data.len() - pos - 2 {
            proof {
                lemma_elements_stop(data, pos as int);
            }
            return None;
        }
        let body = &ie_data[pos + 2..pos + 2 + len];
        let ghost rest = elements(data.subrange(pos + 2 + len, data.len() as int));
        proof {
            lemma_elements_step(data, pos as int);
            assert(body@ == data.subrange(pos + 2, pos + 2 + len));
            let l = seq![(id, body@)] + rest;
            assert(l[0] == (id, body@));
            assert(l.drop_first() =~= rest);
        }
        if id == 221 && len >= 3 {
            let mut oui: Vec<char> = Vec::new();
            oui.push(hex_digit_exec(body[0] / 16));
            oui.push(hex_digit_exec(body[0] % 16));
            oui.push(hex_digit_exec(body[1] / 16));
            oui.push(hex_digit_exec(body[1] % 16));
            oui.push(hex_digit_exec(body[2] / 16));
            oui.push(hex_digit_exec(body[2] % 16));
            assert(oui@ =~= oui_digits(body@));
            if let Some(vendor) = lookup_digits_exec(&oui) {
                if !should_ignore_ie_vendor(vendor) {
                    return Some(vendor.to_owned());
                }
            }
        }
        pos = pos + 2 + len;
    }
    None
}

} // verus!
