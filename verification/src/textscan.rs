//! Reading command output: lines, fields, trimming and numbers, over the
//! characters of the text.
use vstd::prelude::*;
use crate::text::{spec_trim, trim_end, trim_start, unicode_white_space};

verus! {

// ============================================================================
// Splitting
// ============================================================================

/// The fields of `s` between occurrences of `sep` (at least one field, as
/// `str::split` gives).
pub open spec fn split_on(s: Seq<char>, sep: char) -> Seq<Seq<char>>
    decreases s.len(),
{
    if s.len() == 0 {
        seq![seq![]]
    } else {
        let p = split_on(s.drop_last(), sep);
        if s.last() == sep {
            p.push(seq![])
        } else {
            p.update(p.len() - 1, p.last().push(s.last()))
        }
    }
}

/// A line without one trailing carriage return.
pub open spec fn strip_cr(l: Seq<char>) -> Seq<char> {
    if l.len() > 0 && l.last() == '\r' {
        l.drop_last()
    } else {
        l
    }
}

/// The lines of a text, as `str::lines` gives them: split at line feeds, a
/// final empty line dropped, a trailing carriage return removed from each.
pub open spec fn text_lines(s: Seq<char>) -> Seq<Seq<char>> {
    let parts = split_on(s, '\n');
    let kept = if parts.last().len() == 0 {
        parts.drop_last()
    } else {
        parts
    };
    kept.map_values(|l: Seq<char>| strip_cr(l))
}

proof fn lemma_split_on_nonempty(s: Seq<char>, sep: char)
    ensures
        split_on(s, sep).len() >= 1,
    decreases s.len(),
{
    if s.len() > 0 {
        lemma_split_on_nonempty(s.drop_last(), sep);
    }
}

/// The fields of a text between occurrences of a separator.
pub fn split_chars(s: &Vec<char>, sep: char) -> (r: Vec<Vec<char>>)
    ensures
        r@.map_values(|f: Vec<char>| f@) == split_on(s@, sep),
{
    let mut done: Vec<Vec<char>> = Vec::new();
    let mut cur: Vec<char> = Vec::new();
    let mut i: usize = 0;
    while i < s.len()
        invariant
            i <= s.len(),
            done@.map_values(|f: Vec<char>| f@).push(cur@) == split_on(s@.subrange(0, i as int), sep),
        decreases s.len() - i,
    {
        let c = s[i];
        let ghost prefix = s@.subrange(0, i + 1);
        assert(prefix.drop_last() =~= s@.subrange(0, i as int));
        proof {
            lemma_split_on_nonempty(s@.subrange(0, i as int), sep);
        }
        let ghost before = done@.map_values(|f: Vec<char>| f@);
        if c == sep {
            let finished = cur;
            done.push(finished);
            cur = Vec::new();
            assert(done@.map_values(|f: Vec<char>| f@) =~= before.push(finished@));
            assert(done@.map_values(|f: Vec<char>| f@).push(cur@) =~= split_on(prefix, sep));
        } else {
            cur.push(c);
            assert(done@.map_values(|f: Vec<char>| f@) =~= before);
            assert(done@.map_values(|f: Vec<char>| f@).push(cur@) =~= split_on(prefix, sep));
        }
        i += 1;
    }
    assert(s@.subrange(0, s.len() as int) =~= s@);
    let ghost before = done@.map_values(|f: Vec<char>| f@);
    done.push(cur);
    assert(done@.map_values(|f: Vec<char>| f@) =~= before.push(cur@));
    done
}

/// Field `n` of `s` split at `sep`, when there is one.
pub open spec fn field_of(s: Seq<char>, sep: char, n: int) -> Option<Seq<char>> {
    if n < split_on(s, sep).len() {
        Some(split_on(s, sep)[n])
    } else {
        None
    }
}

/// Field `n` of a text split at a separator.
pub fn nth_field(s: &Vec<char>, sep: char, n: usize) -> (r: Option<Vec<char>>)
    ensures
        (match r {
            Some(f) => Some(f@),
            None => None,
        }) == field_of(s@, sep, n as int),
{
    let fields = split_chars(s, sep);
    if n < fields.len() {
        let f = fields[n].clone();
        assert(fields@.map_values(|f: Vec<char>| f@)[n as int] == fields@[n as int]@);
        Some(f)
    } else {
        None
    }
}

/// The lines of a text.
pub fn split_lines(s: &Vec<char>) -> (r: Vec<Vec<char>>)
    ensures
        r@.map_values(|l: Vec<char>| l@) == text_lines(s@),
{
    let parts = split_chars(s, '\n');
    let ghost pv = parts@.map_values(|f: Vec<char>| f@);
    proof {
        lemma_split_on_nonempty(s@, '\n');
    }
    let n = if parts[parts.len() - 1].len() == 0 {
        parts.len() - 1
    } else {
        parts.len()
    };
    let ghost kept = if pv.last().len() == 0 {
        pv.drop_last()
    } else {
        pv
    };
    assert(kept =~= pv.subrange(0, n as int));
    let mut out: Vec<Vec<char>> = Vec::new();
    let mut i: usize = 0;
    while i < n
        invariant
            n <= parts.len(),
            pv == parts@.map_values(|f: Vec<char>| f@),
            kept == pv.subrange(0, n as int),
            i <= n,
            out@.map_values(|l: Vec<char>| l@) == kept.subrange(0, i as int).map_values(
                |l: Seq<char>| strip_cr(l),
            ),
        decreases n - i,
    {
        let mut line = parts[i].clone();
        assert(line@ == pv[i as int]);
        if line.len() > 0 && line[line.len() - 1] == '\r' {
            line.pop();
        }
        let ghost before = out@.map_values(|l: Vec<char>| l@);
        out.push(line);
        assert(out@.map_values(|l: Vec<char>| l@) =~= before.push(strip_cr(pv[i as int])));
        assert(kept.subrange(0, i + 1).map_values(|l: Seq<char>| strip_cr(l)) =~= kept.subrange(
            0,
            i as int,
        ).map_values(|l: Seq<char>| strip_cr(l)).push(strip_cr(kept[i as int])));
        i += 1;
    }
    assert(kept.subrange(0, n as int) =~= kept);
    out
}

// ============================================================================
// Trimming and matching
// ============================================================================

/// Whether a character has the Unicode `White_Space` property.
pub fn is_white_space(c: char) -> (b: bool)
    ensures
        b == unicode_white_space(c),
{
    let u = c as u32;
    (0x09 <= u && u <= 0x0D) || u == 0x20 || u == 0x85 || u == 0xA0 || u == 0x1680 || (0x2000
        <= u && u <= 0x200A) || u == 0x2028 || u == 0x2029 || u == 0x202F || u == 0x205F || u
        == 0x3000
}

proof fn lemma_trim_start_skip(s: Seq<char>, i: int)
    requires
        0 <= i <= s.len(),
        forall|j: int| 0 <= j < i ==> unicode_white_space(#[trigger] s[j]),
    ensures
        trim_start(s) == trim_start(s.subrange(i, s.len() as int)),
    decreases i,
{
    if i > 0 {
        assert(s.drop_first() =~= s.subrange(1, s.len() as int));
        assert(unicode_white_space(s[0]));
        lemma_trim_start_skip(s.drop_first(), i - 1);
        assert(s.drop_first().subrange(i - 1, s.drop_first().len() as int) =~= s.subrange(
            i,
            s.len() as int,
        ));
    } else {
        assert(s.subrange(0, s.len() as int) =~= s);
    }
}

proof fn lemma_trim_end_cut(s: Seq<char>, k: int)
    requires
        0 <= k <= s.len(),
        forall|j: int| k <= j < s.len() ==> unicode_white_space(#[trigger] s[j]),
    ensures
        trim_end(s) == trim_end(s.subrange(0, k)),
    decreases s.len() - k,
{
    if k < s.len() {
        assert(unicode_white_space(s.last()));
        assert(s.drop_last() =~= s.subrange(0, s.len() - 1));
        lemma_trim_end_cut(s.drop_last(), k);
        assert(s.drop_last().subrange(0, k) =~= s.subrange(0, k));
    } else {
        assert(s.subrange(0, k) =~= s);
    }
}

/// A text without leading and trailing whitespace.
pub fn trim_chars(s: &Vec<char>) -> (r: Vec<char>)
    ensures
        r@ == spec_trim(s@),
{
    let mut start: usize = 0;
    while start < s.len() && is_white_space(s[start])
        invariant
            start <= s.len(),
            forall|j: int| 0 <= j < start ==> unicode_white_space(#[trigger] s@[j]),
        decreases s.len() - start,
    {
        start += 1;
    }
    let ghost rest = s@.subrange(start as int, s.len() as int);
    proof {
        lemma_trim_start_skip(s@, start as int);
        if rest.len() > 0 {
            assert(rest[0] == s@[start as int]);
        }
    }
    assert(trim_start(s@) == rest);
    let mut end: usize = s.len();
    while end > start && is_white_space(s[end - 1])
        invariant
            start <= end <= s.len(),
            forall|j: int| end <= j < s.len() ==> unicode_white_space(#[trigger] s@[j]),
        decreases end,
    {
        end -= 1;
    }
    proof {
        lemma_trim_end_cut(rest, end - start);
        let cut = rest.subrange(0, end - start);
        if cut.len() > 0 {
            assert(cut.last() == s@[end - 1]);
        }
        assert(cut =~= s@.subrange(start as int, end as int));
    }
    let mut out: Vec<char> = Vec::new();
    let mut i: usize = start;
    while i < end
        invariant
            start <= i <= end <= s.len(),
            out@ == s@.subrange(start as int, i as int),
        decreases end - i,
    {
        out.push(s[i]);
        assert(out@ =~= s@.subrange(start as int, i + 1));
        i += 1;
    }
    out
}

/// `s` starts with `p`.
pub open spec fn starts_with(s: Seq<char>, p: Seq<char>) -> bool {
    p.len() <= s.len() && s.subrange(0, p.len() as int) == p
}

/// Whether a text starts with a string.
pub fn has_prefix(s: &Vec<char>, p: &str) -> (b: bool)
    ensures
        b == starts_with(s@, p@),
{
    let q = crate::text::chars_of(p);
    if q.len() > s.len() {
        return false;
    }
    let mut i: usize = 0;
    while i < q.len()
        invariant
            q@ == p@,
            q.len() <= s.len(),
            i <= q.len(),
            forall|j: int| 0 <= j < i ==> s@[j] == q@[j],
        decreases q.len() - i,
    {
        if s[i] != q[i] {
            assert(s@.subrange(0, q.len() as int)[i as int] != p@[i as int]);
            return false;
        }
        i += 1;
    }
    assert(s@.subrange(0, q.len() as int) =~= p@);
    true
}

/// `needle` occurs in `hay`.
pub open spec fn occurs_in(hay: Seq<char>, needle: Seq<char>) -> bool {
    exists|i: int|
        0 <= i && i + needle.len() <= hay.len() && #[trigger] hay.subrange(i, i + needle.len())
            == needle
}

/// Whether a string occurs in a text.
pub fn has_text_in(hay: &Vec<char>, needle: &str) -> (b: bool)
    ensures
        b == occurs_in(hay@, needle@),
{
    let q = crate::text::chars_of(needle);
    if q.len() > hay.len() {
        return false;
    }
    let last = hay.len() - q.len();
    let mut i: usize = 0;
    while i <= last
        invariant
            q@ == needle@,
            last == hay.len() - q.len(),
            i <= last + 1,
            forall|k: int| 0 <= k < i ==> #[trigger] hay@.subrange(k, k + q@.len()) != needle@,
        decreases last + 1 - i,
    {
        let mut j: usize = 0;
        let mut same = true;
        while j < q.len()
            invariant
                q@ == needle@,
                last == hay.len() - q.len(),
                i <= last,
                j <= q.len(),
                same == (forall|t: int| 0 <= t < j ==> hay@[i + t] == q@[t]),
            decreases q.len() - j,
        {
            if hay[i + j] != q[j] {
                same = false;
            }
            j += 1;
        }
        if same {
            assert(hay@.subrange(i as int, i + q@.len()) =~= needle@);
            return true;
        }
        assert(hay@.subrange(i as int, i + q@.len()) != needle@) by {
            let t = choose|t: int| 0 <= t < q.len() && hay@[i + t] != q@[t];
            assert(hay@.subrange(i as int, i + q@.len())[t] != needle@[t]);
        }
        i += 1;
    }
    false
}

/// `s` with every occurrence of `pat` (scanning left to right, not
/// overlapping) removed.
pub open spec fn remove_all(s: Seq<char>, pat: Seq<char>) -> Seq<char>
    decreases s.len(),
{
    if s.len() == 0 {
        seq![]
    } else if pat.len() > 0 && starts_with(s, pat) {
        remove_all(s.subrange(pat.len() as int, s.len() as int), pat)
    } else {
        seq![s[0]] + remove_all(s.drop_first(), pat)
    }
}

/// A text with every occurrence of a string removed.
pub fn remove_text(s: &Vec<char>, pat: &str) -> (r: Vec<char>)
    ensures
        r@ == remove_all(s@, pat@),
{
    let q = crate::text::chars_of(pat);
    let mut out: Vec<char> = Vec::new();
    let mut i: usize = 0;
    assert(s@.subrange(0, s.len() as int) =~= s@);
    assert(out@ + remove_all(s@, pat@) =~= remove_all(s@, pat@));
    while i < s.len()
        invariant
            q@ == pat@,
            i <= s.len(),
            out@ + remove_all(s@.subrange(i as int, s.len() as int), pat@) == remove_all(
                s@,
                pat@,
            ),
        decreases s.len() - i,
    {
        let ghost rest = s@.subrange(i as int, s.len() as int);
        let mut matched = q.len() > 0 && q.len() <= s.len() - i;
        let mut j: usize = 0;
        while matched && j < q.len()
            invariant
                q@ == pat@,
                i <= s.len(),
                matched ==> q.len() <= s.len() - i,
                matched ==> q.len() > 0,
                j <= q.len(),
                matched ==> forall|t: int| 0 <= t < j ==> s@[i + t] == q@[t],
                !matched ==> !(q.len() > 0 && starts_with(rest, pat@)),
                rest == s@.subrange(i as int, s.len() as int),
            decreases q.len() - j,
        {
            if s[i + j] != q[j] {
                assert(rest.subrange(0, q@.len() as int)[j as int] != pat@[j as int]);
                matched = false;
            }
            j += 1;
        }
        if matched {
            assert(rest.subrange(0, q@.len() as int) =~= pat@);
            assert(rest.subrange(q@.len() as int, rest.len() as int) =~= s@.subrange(
                i + q.len(),
                s.len() as int,
            ));
            i = i + q.len();
        } else {
            let ghost before = out@;
            out.push(s[i]);
            assert(rest.drop_first() =~= s@.subrange(i + 1, s.len() as int));
            assert(out@ + remove_all(s@.subrange(i + 1, s.len() as int), pat@) =~= before + (
            seq![rest[0]] + remove_all(rest.drop_first(), pat@)));
            i += 1;
        }
    }
    assert(out@ + remove_all(s@.subrange(s.len() as int, s.len() as int), pat@) =~= out@);
    out
}

// ============================================================================
// Numbers
// ============================================================================

/// A decimal digit.
pub open spec fn is_digit(c: char) -> bool {
    0x30 <= (c as u32) <= 0x39
}

/// Every character is a decimal digit.
pub open spec fn all_digits(s: Seq<char>) -> bool {
    forall|i: int| 0 <= i < s.len() ==> is_digit(#[trigger] s[i])
}

/// Value of decimal digits.
pub open spec fn decimal_value(s: Seq<char>) -> int
    decreases s.len(),
{
    if s.len() == 0 {
        0
    } else {
        decimal_value(s.drop_last()) * 10 + (s.last() as u32 - 0x30)
    }
}

/// An unsigned integer as `str::parse` reads it: an optional `+`, then at
/// least one decimal digit, with a value of at most `max`.
pub open spec fn parse_unsigned(s: Seq<char>, max: int) -> Option<int> {
    let body = if s.len() > 0 && s[0] == '+' {
        s.drop_first()
    } else {
        s
    };
    if body.len() > 0 && all_digits(body) && decimal_value(body) <= max {
        Some(decimal_value(body))
    } else {
        None
    }
}

/// A signed integer as `str::parse` reads it: an optional sign, then at
/// least one decimal digit, with a value in `min..=max`.
pub open spec fn parse_signed(s: Seq<char>, min: int, max: int) -> Option<int> {
    if s.len() > 0 && s[0] == '-' {
        let body = s.drop_first();
        if body.len() > 0 && all_digits(body) && -decimal_value(body) >= min {
            Some(-decimal_value(body))
        } else {
            None
        }
    } else {
        parse_unsigned(s, max)
    }
}

proof fn lemma_decimal_prefix(s: Seq<char>, k: int)
    requires
        0 <= k <= s.len(),
        all_digits(s),
    ensures
        decimal_value(s.subrange(0, k)) <= decimal_value(s),
        decimal_value(s) >= 0,
    decreases s.len(),
{
    if s.len() > 0 {
        assert(all_digits(s.drop_last()));
        assert(is_digit(s[s.len() - 1]));
        if k < s.len() {
            lemma_decimal_prefix(s.drop_last(), k);
            assert(s.drop_last().subrange(0, k) =~= s.subrange(0, k));
        } else {
            lemma_decimal_prefix(s.drop_last(), 0);
            assert(s.subrange(0, k) =~= s);
        }
    }
}

/// Digits from `start` on as a number at most `max`, when they are all
/// digits, at least one, and not above `max`.
fn digits_upto(s: &Vec<char>, start: usize, max: u64) -> (r: Option<u64>)
    requires
        start <= s.len(),
    ensures
        (match r {
            Some(v) => Some(v as int),
            None => None,
        }) == (if s@.subrange(start as int, s.len() as int).len() > 0 && all_digits(
            s@.subrange(start as int, s.len() as int),
        ) && decimal_value(s@.subrange(start as int, s.len() as int)) <= max {
            Some(decimal_value(s@.subrange(start as int, s.len() as int)))
        } else {
            None
        }),
{
    let ghost body = s@.subrange(start as int, s.len() as int);
    if start == s.len() {
        return None;
    }
    let mut v: u64 = 0;
    let mut i: usize = start;
    while i < s.len()
        invariant
            start <= i <= s.len(),
            body == s@.subrange(start as int, s.len() as int),
            all_digits(s@.subrange(start as int, i as int)),
            v == decimal_value(s@.subrange(start as int, i as int)),
            v <= max,
        decreases s.len() - i,
    {
        let c = s[i];
        let u = c as u32;
        assert(s@.subrange(start as int, i + 1).drop_last() =~= s@.subrange(start as int, i as int));
        if u < 0x30 || u > 0x39 {
            assert(!is_digit(body[i - start]));
            return None;
        }
        let d = (u - 0x30) as u64;
        let next: u128 = (v as u128) * 10 + (d as u128);
        if next > max as u128 {
            proof {
                assert(all_digits(s@.subrange(start as int, i + 1)));
                assert(decimal_value(s@.subrange(start as int, i + 1)) == v * 10 + d);
                if all_digits(body) {
                    lemma_decimal_prefix(body, i + 1 - start);
                    assert(body.subrange(0, i + 1 - start) =~= s@.subrange(start as int, i + 1));
                }
            }
            return None;
        }
        assert(all_digits(s@.subrange(start as int, i + 1)));
        v = next as u64;
        i += 1;
    }
    assert(s@.subrange(start as int, i as int) =~= body);
    Some(v)
}

/// Parse an unsigned decimal integer of at most `max`.
pub fn parse_unsigned_upto(s: &Vec<char>, max: u64) -> (r: Option<u64>)
    ensures
        (match r {
            Some(v) => Some(v as int),
            None => None,
        }) == parse_unsigned(s@, max as int),
{
    if s.len() > 0 && s[0] == '+' {
        assert(s@.drop_first() =~= s@.subrange(1, s.len() as int));
        digits_upto(s, 1, max)
    } else {
        assert(s@ =~= s@.subrange(0, s.len() as int));
        digits_upto(s, 0, max)
    }
}

/// Parse a signed decimal integer in `min..=max` (with `min` at most 0).
pub fn parse_signed_within(s: &Vec<char>, min: i64, max: i64) -> (r: Option<i64>)
    requires
        min <= 0 <= max,
    ensures
        (match r {
            Some(v) => Some(v as int),
            None => None,
        }) == parse_signed(s@, min as int, max as int),
{
    if s.len() > 0 && s[0] == '-' {
        assert(s@.drop_first() =~= s@.subrange(1, s.len() as int));
        let limit: u64 = (0 - (min as i128)) as u64;
        match digits_upto(s, 1, limit) {
            Some(v) => Some((0 - (v as i128)) as i64),
            None => None,
        }
    } else {
        match parse_unsigned_upto(s, max as u64) {
            Some(v) => Some(v as i64),
            None => None,
        }
    }
}

/// A hexadecimal digit, in either case.
pub open spec fn is_hex_digit(c: char) -> bool {
    let u = c as u32;
    (0x30 <= u <= 0x39) || (0x41 <= u <= 0x46) || (0x61 <= u <= 0x66)
}

/// Value of a hexadecimal digit.
pub open spec fn hex_digit_value(c: char) -> int {
    let u = c as u32;
    if u <= 0x39 {
        u - 0x30
    } else if u <= 0x46 {
        u - 0x37
    } else {
        u - 0x57
    }
}

/// Value of hexadecimal digits.
pub open spec fn hex_value(s: Seq<char>) -> int
    decreases s.len(),
{
    if s.len() == 0 {
        0
    } else {
        hex_value(s.drop_last()) * 16 + hex_digit_value(s.last())
    }
}

/// A byte as `u8::from_str_radix(_, 16)` reads it: an optional `+`, then at
/// least one hexadecimal digit, with a value of at most 255.
pub open spec fn parse_hex_byte(s: Seq<char>) -> Option<u8> {
    let body = plus_body(s);
    if body.len() > 0 && all_hex(body) && hex_value(body) <= 255 {
        Some(hex_value(body) as u8)
    } else {
        None
    }
}

/// Text after an optional leading `+`.
pub open spec fn plus_body(s: Seq<char>) -> Seq<char> {
    if s.len() > 0 && s[0] == '+' {
        s.drop_first()
    } else {
        s
    }
}

/// Every character is a hexadecimal digit.
pub open spec fn all_hex(s: Seq<char>) -> bool {
    forall|i: int| 0 <= i < s.len() ==> is_hex_digit(#[trigger] s[i])
}

proof fn lemma_hex_prefix(s: Seq<char>, k: int)
    requires
        0 <= k <= s.len(),
        forall|i: int| 0 <= i < s.len() ==> is_hex_digit(#[trigger] s[i]),
    ensures
        hex_value(s.subrange(0, k)) <= hex_value(s),
        hex_value(s) >= 0,
    decreases s.len(),
{
    if s.len() > 0 {
        assert(is_hex_digit(s[s.len() - 1]));
        assert forall|i: int| 0 <= i < s.drop_last().len() implies is_hex_digit(
            #[trigger] s.drop_last()[i],
        ) by {
            assert(s.drop_last()[i] == s[i]);
        }
        if k < s.len() {
            lemma_hex_prefix(s.drop_last(), k);
            assert(s.drop_last().subrange(0, k) =~= s.subrange(0, k));
        } else {
            lemma_hex_prefix(s.drop_last(), 0);
            assert(s.subrange(0, k) =~= s);
        }
    }
}

/// Parse a hexadecimal byte.
pub fn parse_hex_u8(s: &Vec<char>) -> (r: Option<u8>)
    ensures
        r == parse_hex_byte(s@),
{
    let start: usize = if s.len() > 0 && s[0] == '+' {
        1
    } else {
        0
    };
    let ghost body = plus_body(s@);
    assert(body =~= s@.subrange(start as int, s.len() as int));
    if start == s.len() {
        return None;
    }
    let mut v: u32 = 0;
    let mut i: usize = start;
    while i < s.len()
        invariant
            start <= i <= s.len(),
            body == s@.subrange(start as int, s.len() as int),
            body == plus_body(s@),
            forall|j: int| start <= j < i ==> is_hex_digit(#[trigger] s@[j]),
            v == hex_value(s@.subrange(start as int, i as int)),
            v <= 255,
        decreases s.len() - i,
    {
        let c = s[i];
        let u = c as u32;
        let ghost pre = s@.subrange(start as int, i + 1);
        assert(pre.drop_last() =~= s@.subrange(start as int, i as int));
        let d: u32 = if 0x30 <= u && u <= 0x39 {
            u - 0x30
        } else if 0x41 <= u && u <= 0x46 {
            u - 0x37
        } else if 0x61 <= u && u <= 0x66 {
            u - 0x57
        } else {
            assert(body[i - start] == s@[i as int]);
            assert(!is_hex_digit(body[i - start]));
            assert(!all_hex(body));
            return None;
        };
        let next = v * 16 + d;
        if next > 255 {
            proof {
                assert forall|j: int| 0 <= j < pre.len() implies is_hex_digit(#[trigger] pre[j]) by {
                    assert(pre[j] == s@[start + j]);
                }
                assert(hex_value(pre) == next);
                if all_hex(body) {
                    lemma_hex_prefix(body, i + 1 - start);
                    assert(body.subrange(0, i + 1 - start) =~= pre);
                }
            }
            return None;
        }
        v = next;
        i += 1;
    }
    assert(s@.subrange(start as int, i as int) =~= body);
    assert forall|j: int| 0 <= j < body.len() implies is_hex_digit(#[trigger] body[j]) by {
        assert(body[j] == s@[start + j]);
    }
    assert(all_hex(body));
    Some(v as u8)
}

/// The words of a text: its maximal runs of characters that are not
/// whitespace, as `str::split_whitespace` gives them.
pub open spec fn words(s: Seq<char>) -> Seq<Seq<char>>
    decreases s.len(),
{
    if s.len() == 0 {
        seq![]
    } else {
        let w = words(s.drop_last());
        let c = s.last();
        if unicode_white_space(c) {
            w
        } else if s.len() > 1 && !unicode_white_space(s[s.len() - 2]) && w.len() > 0 {
            w.update(w.len() - 1, w.last().push(c))
        } else {
            w.push(seq![c])
        }
    }
}

/// The words of a text.
pub fn split_words(s: &Vec<char>) -> (r: Vec<Vec<char>>)
    ensures
        r@.map_values(|w: Vec<char>| w@) == words(s@),
{
    let mut done: Vec<Vec<char>> = Vec::new();
    let mut cur: Vec<char> = Vec::new();
    let mut i: usize = 0;
    while i < s.len()
        invariant
            i <= s.len(),
            cur@.len() == 0 ==> done@.map_values(|w: Vec<char>| w@) == words(
                s@.subrange(0, i as int),
            ),
            cur@.len() > 0 ==> done@.map_values(|w: Vec<char>| w@).push(cur@) == words(
                s@.subrange(0, i as int),
            ),
            cur@.len() > 0 ==> i > 0 && !unicode_white_space(s@[i - 1]),
            cur@.len() == 0 ==> (i == 0 || unicode_white_space(s@[i - 1])),
        decreases s.len() - i,
    {
        let c = s[i];
        let ghost pre = s@.subrange(0, i + 1);
        assert(pre.drop_last() =~= s@.subrange(0, i as int));
        assert(pre.last() == c);
        let ghost before = done@.map_values(|w: Vec<char>| w@);
        if is_white_space(c) {
            if cur.len() > 0 {
                let w = cur;
                done.push(w);
                cur = Vec::new();
                assert(done@.map_values(|w: Vec<char>| w@) =~= before.push(w@));
            }
        } else {
            if cur.len() > 0 {
                assert(pre[pre.len() - 2] == s@[i - 1]);
            } else if i > 0 {
                assert(pre[pre.len() - 2] == s@[i - 1]);
            }
            let ghost old_cur = cur@;
            cur.push(c);
            assert(done@.map_values(|w: Vec<char>| w@) =~= before);
            proof {
                if old_cur.len() > 0 {
                    assert(before.push(old_cur).update(before.len() as int, old_cur.push(c))
                        =~= before.push(cur@));
                } else {
                    assert(cur@ =~= seq![c]);
                }
            }
        }
        i += 1;
    }
    assert(s@.subrange(0, s.len() as int) =~= s@);
    if cur.len() > 0 {
        let ghost before = done@.map_values(|w: Vec<char>| w@);
        let w = cur;
        done.push(w);
        assert(done@.map_values(|w: Vec<char>| w@) =~= before.push(w@));
    }
    done
}

/// Splitting always gives at least one field.
pub proof fn lemma_split_on_nonempty_pub(s: Seq<char>, sep: char)
    ensures
        split_on(s, sep).len() >= 1,
{
    lemma_split_on_nonempty(s, sep);
}

} // verus!
