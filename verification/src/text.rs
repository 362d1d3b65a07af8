//! Text helpers: decoding bytes that may not be UTF-8 and trimming
//! whitespace.  Both rest on the standard library.
use vstd::prelude::*;
use vstd::string::StrSliceExecFns;
use vstd::string::StringSliceAdditionalSpecFns;
use vstd::utf8::{decode_utf8, valid_utf8};

verus! {

/// The characters that lossy UTF-8 decoding of `bytes` yields: valid
/// sequences decode to their characters, each maximal invalid part becomes
/// U+FFFD.
pub uninterp spec fn utf8_lossy(bytes: Seq<u8>) -> Seq<char>;

/// Decode bytes as UTF-8, replacing invalid sequences.
///
/// Calls `String::from_utf8_lossy`.  Its result is named by `utf8_lossy`;
/// beyond that the contract states what the documentation gives: valid
/// UTF-8 decodes as it is.
#[verifier::external_body]
pub(crate) fn decode_lossy(bytes: &[u8]) -> (s: String)
    ensures
        s@ == utf8_lossy(bytes@),
        valid_utf8(bytes@) ==> s@ == decode_utf8(bytes@),
{
    String::from_utf8_lossy(bytes).into_owned()
}

/// Characters with the Unicode `White_Space` property.
pub open spec fn unicode_white_space(c: char) -> bool {
    let u = c as u32;
    ||| 0x09 <= u <= 0x0D
    ||| u == 0x20
    ||| u == 0x85
    ||| u == 0xA0
    ||| u == 0x1680
    ||| 0x2000 <= u <= 0x200A
    ||| u == 0x2028
    ||| u == 0x2029
    ||| u == 0x202F
    ||| u == 0x205F
    ||| u == 0x3000
}

/// `s` without its leading whitespace.
pub open spec fn trim_start(s: Seq<char>) -> Seq<char>
    decreases s.len(),
{
    if s.len() > 0 && unicode_white_space(s[0]) {
        trim_start(s.drop_first())
    } else {
        s
    }
}

/// `s` without its trailing whitespace.
pub open spec fn trim_end(s: Seq<char>) -> Seq<char>
    decreases s.len(),
{
    if s.len() > 0 && unicode_white_space(s.last()) {
        trim_end(s.drop_last())
    } else {
        s
    }
}

/// `s` without leading and trailing whitespace.
pub open spec fn spec_trim(s: Seq<char>) -> Seq<char> {
    trim_end(trim_start(s))
}

/// Remove leading and trailing whitespace.
///
/// Calls `str::trim`, which the documentation defines by the Unicode
/// `White_Space` property; the contract states exactly that.
#[verifier::external_body]
pub(crate) fn trim_str(s: &str) -> (r: &str)
    ensures
        r@ == spec_trim(s@),
{
    s.trim()
}

/// Decode bytes as UTF-8.
///
/// Calls `String::from_utf8`, which succeeds exactly on valid UTF-8 and then
/// holds the decoded characters.
#[verifier::external_body]
pub(crate) fn decode_utf8_exact(bytes: &[u8]) -> (r: Option<String>)
    ensures
        r is Some <==> valid_utf8(bytes@),
        r matches Some(s) ==> s@ == decode_utf8(bytes@),
{
    String::from_utf8(bytes.to_vec()).ok()
}

/// A string of the given characters.
///
/// Collects the characters with `String::from_iter`.
#[verifier::external_body]
pub(crate) fn string_of_chars(chars: &[char]) -> (s: String)
    ensures
        s@ == chars@,
{
    chars.iter().collect()
}

/// The characters of a string.
pub fn chars_of(s: &str) -> (v: Vec<char>)
    ensures
        v@ == s@,
{
    let n = s.unicode_len();
    let mut v: Vec<char> = Vec::new();
    let mut i: usize = 0;
    while i < n
        invariant
            n == s@.len(),
            i <= n,
            v@ == s@.subrange(0, i as int),
        decreases n - i,
    {
        v.push(s.get_char(i));
        assert(v@ =~= s@.subrange(0, i + 1));
        i += 1;
    }
    assert(s@.subrange(0, n as int) =~= s@);
    v
}

/// Whether two strings hold the same characters.
pub fn same_text(a: &str, b: &str) -> (r: bool)
    ensures
        r == (a@ == b@),
{
    let x = chars_of(a);
    let y = chars_of(b);
    if x.len() != y.len() {
        return false;
    }
    let mut i: usize = 0;
    while i < x.len()
        invariant
            x@ == a@,
            y@ == b@,
            x.len() == y.len(),
            i <= x.len(),
            forall|j: int| 0 <= j < i ==> x@[j] == y@[j],
        decreases x.len() - i,
    {
        if x[i] != y[i] {
            return false;
        }
        i += 1;
    }
    assert(a@ =~= b@);
    true
}

/// Upper-case hexadecimal digit of a value below 16.
pub open spec fn hex_digit(v: u8) -> char {
    if v < 10 {
        (v + 0x30) as char
    } else {
        (v + 0x37) as char
    }
}

/// Upper-case hexadecimal digit of a value below 16.
pub fn hex_digit_exec(v: u8) -> (c: char)
    requires
        v < 16,
    ensures
        c == hex_digit(v),
{
    if v < 10 {
        (v + 0x30) as char
    } else {
        (v + 0x37) as char
    }
}

/// Decimal digit of a value below 10.
pub open spec fn decimal_digit(d: u64) -> char {
    (d + 0x30) as char
}

/// Decimal notation of a number, without leading zeros.
pub open spec fn spec_decimal(n: u64) -> Seq<char>
    decreases n,
{
    if n < 10 {
        seq![decimal_digit(n)]
    } else {
        spec_decimal(n / 10).push(decimal_digit(n % 10))
    }
}

/// Append the characters of a string.
pub fn push_str(v: &mut Vec<char>, s: &str)
    ensures
        final(v)@ == old(v)@ + s@,
{
    let cs = chars_of(s);
    let ghost start = v@;
    let mut i: usize = 0;
    while i < cs.len()
        invariant
            cs@ == s@,
            i <= cs.len(),
            v@ == start + s@.subrange(0, i as int),
        decreases cs.len() - i,
    {
        v.push(cs[i]);
        assert(v@ =~= start + s@.subrange(0, i + 1));
        i += 1;
    }
    assert(s@.subrange(0, cs.len() as int) =~= s@);
}

/// Append the decimal notation of a number.
pub fn push_decimal(v: &mut Vec<char>, n: u64)
    ensures
        final(v)@ == old(v)@ + spec_decimal(n),
    decreases n,
{
    if n >= 10 {
        push_decimal(v, n / 10);
    }
    let d = n % 10;
    v.push(((d as u8) + 0x30) as char);
    assert(final(v)@ =~= old(v)@ + spec_decimal(n)) by {
        if n >= 10 {
            assert(spec_decimal(n) == spec_decimal(n / 10).push(decimal_digit(n % 10)));
        }
    }
}

/// Decimal notation of a number.
pub fn decimal_string(n: u64) -> (s: String)
    ensures
        s@ == spec_decimal(n),
{
    let mut v: Vec<char> = Vec::new();
    push_decimal(&mut v, n);
    assert(v@ =~= spec_decimal(n));
    string_of_chars(v.as_slice())
}

/// Lower-case hexadecimal digit of a value below 16.
pub open spec fn hex_digit_lower(v: u8) -> char {
    if v < 10 {
        (v + 0x30) as char
    } else {
        (v + 0x57) as char
    }
}

/// Bytes as lower-case hexadecimal, two digits each.
pub open spec fn lower_hex(bytes: Seq<u8>) -> Seq<char> {
    Seq::new(
        2 * bytes.len(),
        |i: int|
            if i % 2 == 0 {
                hex_digit_lower(bytes[i / 2] / 16)
            } else {
                hex_digit_lower(bytes[i / 2] % 16)
            },
    )
}

/// ASCII upper case of a character; other characters stay as they are.
pub open spec fn ascii_upper(c: char) -> char {
    let u = c as u32;
    if 0x61 <= u <= 0x7A {
        (u - 32) as char
    } else {
        c
    }
}

/// A string in ASCII upper case.
pub fn ascii_uppercase(s: &str) -> (r: String)
    ensures
        r@ == s@.map_values(|c: char| ascii_upper(c)),
{
    let cs = chars_of(s);
    let mut out: Vec<char> = Vec::new();
    let mut i: usize = 0;
    while i < cs.len()
        invariant
            cs@ == s@,
            i <= cs.len(),
            out@ == s@.subrange(0, i as int).map_values(|c: char| ascii_upper(c)),
        decreases cs.len() - i,
    {
        let c = cs[i];
        let u = c as u32;
        let up = if 0x61 <= u && u <= 0x7A {
            ((u - 32) as u8) as char
        } else {
            c
        };
        out.push(up);
        assert(out@ =~= s@.subrange(0, i + 1).map_values(|c: char| ascii_upper(c)));
        i += 1;
    }
    assert(s@.subrange(0, cs.len() as int) =~= s@);
    string_of_chars(out.as_slice())
}

/// Bytes as lower-case hexadecimal.
///
/// Calls `hex::encode`, which writes each byte as two lower-case digits,
/// high nibble first, from its table "0123456789abcdef".
#[verifier::external_body]
pub(crate) fn hex_encode(bytes: &[u8]) -> (s: String)
    ensures
        s@ == lower_hex(bytes@),
{
    hex::encode(bytes)
}

/// Characters in ASCII lower case.
pub fn ascii_lower_text(s: &Vec<char>) -> (r: String)
    ensures
        r@ == s@.map_values(|c: char| crate::vendor::ascii_lower(c)),
{
    let mut out: Vec<char> = Vec::new();
    let mut i: usize = 0;
    while i < s.len()
        invariant
            i <= s.len(),
            out@ == s@.subrange(0, i as int).map_values(|c: char| crate::vendor::ascii_lower(c)),
        decreases s.len() - i,
    {
        let c = s[i];
        let u = c as u32;
        let lower = if 0x41 <= u && u <= 0x5A {
            ((u + 32) as u8) as char
        } else {
            c
        };
        out.push(lower);
        assert(out@ =~= s@.subrange(0, i + 1).map_values(|c: char| crate::vendor::ascii_lower(c)));
        i += 1;
    }
    assert(s@.subrange(0, s.len() as int) =~= s@);
    string_of_chars(out.as_slice())
}

/// A byte that is a hexadecimal digit: `0-9`, `A-F` or `a-f`.
pub open spec fn is_hex_byte(b: u8) -> bool {
    (0x30 <= b <= 0x39) || (0x41 <= b <= 0x46) || (0x61 <= b <= 0x66)
}

/// Value of a hexadecimal digit byte.
pub open spec fn hex_byte_value(b: u8) -> int {
    if b <= 0x39 {
        b - 0x30
    } else if b <= 0x46 {
        b - 0x37
    } else {
        b - 0x57
    }
}

/// The bytes that pairs of hexadecimal digits spell, high digit first.
pub open spec fn hex_pairs(b: Seq<u8>) -> Seq<u8> {
    Seq::new(
        b.len() / 2,
        |i: int| (hex_byte_value(b[2 * i]) * 16 + hex_byte_value(b[2 * i + 1])) as u8,
    )
}

/// Every byte is a hexadecimal digit.
pub open spec fn all_hex_bytes(b: Seq<u8>) -> bool {
    forall|i: int| 0 <= i < b.len() ==> is_hex_byte(#[trigger] b[i])
}

/// Why hexadecimal text does not decode.
#[derive(Clone, Copy, Debug, PartialEq, Eq, Structural)]
pub enum HexError {
    /// A character that is not a hexadecimal digit, at a byte position.
    InvalidHexCharacter { c: char, index: usize },
    /// An odd number of digits.
    OddLength,
    /// A length that does not fit a fixed-size result.
    InvalidStringLength,
}

/// What decoding the bytes `b` as hexadecimal gives: an odd length is an
/// error; else the first byte that is not a digit is an error; else the
/// bytes the pairs spell.
pub open spec fn spec_hex_decode(b: Seq<u8>) -> Result<Seq<u8>, HexError> {
    if b.len() % 2 == 1 {
        Err(HexError::OddLength)
    } else if all_hex_bytes(b) {
        Ok(hex_pairs(b))
    } else {
        let i = choose|i: int|
            0 <= i < b.len() && !is_hex_byte(b[i]) && forall|j: int|
                0 <= j < i ==> is_hex_byte(#[trigger] b[j]);
        Err(HexError::InvalidHexCharacter { c: b[i] as char, index: i as usize })
    }
}

/// Decode hexadecimal text.
///
/// Calls `hex::decode` on the UTF-8 bytes of the text.  Its source checks
/// the length first (odd: `OddLength`), then reads two digits per byte,
/// high digit first, accepting `0-9`, `A-F` and `a-f`, and stops at the
/// first byte that is not a digit (`InvalidHexCharacter` with that byte as
/// a character and its position).
#[verifier::external_body]
pub(crate) fn hex_decode(data: &str) -> (r: Result<Vec<u8>, HexError>)
    ensures
        match r {
            Ok(v) => spec_hex_decode(data.spec_bytes()) == Ok::<Seq<u8>, HexError>(v@),
            Err(e) => spec_hex_decode(data.spec_bytes()) == Err::<Seq<u8>, HexError>(e),
        },
{
    match hex::decode(data) {
        Ok(v) => Ok(v),
        Err(hex::FromHexError::InvalidHexCharacter { c, index }) => Err(
            HexError::InvalidHexCharacter { c, index },
        ),
        Err(hex::FromHexError::OddLength) => Err(HexError::OddLength),
        Err(hex::FromHexError::InvalidStringLength) => Err(HexError::InvalidStringLength),
    }
}

/// Decode the information elements given as hexadecimal text.
pub fn decode_hex_data(data: &str) -> (r: Result<Vec<u8>, HexError>)
    ensures
        match r {
            Ok(v) => spec_hex_decode(data.spec_bytes()) == Ok::<Seq<u8>, HexError>(v@),
            Err(e) => spec_hex_decode(data.spec_bytes()) == Err::<Seq<u8>, HexError>(e),
        },
{
    hex_decode(data)
}

} // verus!
