//! Byte/text utilities: lowercase hex rendering, hex parsing, and the wall
//! clock in Unix seconds.

use vstd::prelude::*;
use vstd::string::*;
use vstd::utf8::*;
use crate::text::string_bytes;
use std::time::{Duration, SystemTime};

verus! {

/// The lowercase hex digit for `d` (taken modulo 16).
pub open spec fn hex_digit(d: u8) -> char {
    let v = d % 16;
    if v == 0 { '0' } else if v == 1 { '1' } else if v == 2 { '2' } else if v == 3 { '3' }
    else if v == 4 { '4' } else if v == 5 { '5' } else if v == 6 { '6' } else if v == 7 { '7' }
    else if v == 8 { '8' } else if v == 9 { '9' } else if v == 10 { 'a' } else if v == 11 { 'b' }
    else if v == 12 { 'c' } else if v == 13 { 'd' } else if v == 14 { 'e' } else { 'f' }
}

/// Two lowercase hex digits for every byte, high nibble first.
pub open spec fn hex_encode(b: Seq<u8>) -> Seq<char>
    decreases b.len(),
{
    if b.len() == 0 {
        Seq::empty()
    } else {
        seq![hex_digit(b[0] / 16), hex_digit(b[0] % 16)] + hex_encode(b.drop_first())
    }
}

/// The value of a byte that is an ASCII hex digit of either case.
pub open spec fn hex_byte_value(b: u8) -> Option<u8> {
    if 0x30 <= b && b <= 0x39 {
        Some((b - 0x30) as u8)
    } else if 0x61 <= b && b <= 0x66 {
        Some((b - 0x61 + 10) as u8)
    } else if 0x41 <= b && b <= 0x46 {
        Some((b - 0x41 + 10) as u8)
    } else {
        None
    }
}

/// The characters that `char::is_whitespace` accepts (Unicode White_Space).
pub open spec fn is_unicode_whitespace(c: char) -> bool {
    let u = c as u32;
    (0x09 <= u && u <= 0x0d) || u == 0x20 || u == 0x85 || u == 0xa0 || u == 0x1680 || (0x2000
        <= u && u <= 0x200a) || u == 0x2028 || u == 0x2029 || u == 0x202f || u == 0x205f || u
        == 0x3000
}

/// `s` without its leading whitespace.
pub open spec fn trim_start_ws(s: Seq<char>) -> Seq<char>
    decreases s.len(),
{
    if s.len() > 0 && is_unicode_whitespace(s[0]) {
        trim_start_ws(s.drop_first())
    } else {
        s
    }
}

/// `s` without its trailing whitespace.
pub open spec fn trim_end_ws(s: Seq<char>) -> Seq<char>
    decreases s.len(),
{
    if s.len() > 0 && is_unicode_whitespace(s.last()) {
        trim_end_ws(s.drop_last())
    } else {
        s
    }
}

/// `b` without one leading "0x" (the bytes 0x30 0x78), if it has one.
pub open spec fn strip_0x(b: Seq<u8>) -> Seq<u8> {
    if b.len() >= 2 && b[0] == 0x30 && b[1] == 0x78 {
        b.skip(2)
    } else {
        b
    }
}

/// Why hex text was refused.
pub enum HexFailure {
    OddLength,
    InvalidUtf8,
    InvalidHex,
}

/// Decoding bytes two at a time: each pair must be UTF-8 text, and both of
/// its bytes hex digits.
pub open spec fn decode_hex_pairs(b: Seq<u8>) -> Result<Seq<u8>, HexFailure>
    decreases b.len(),
{
    if b.len() < 2 {
        Ok(Seq::empty())
    } else {
        let chunk = b.take(2);
        if !valid_utf8(chunk) {
            Err(HexFailure::InvalidUtf8)
        } else {
            match (hex_byte_value(chunk[0]), hex_byte_value(chunk[1])) {
                (Some(h), Some(l)) => match decode_hex_pairs(b.skip(2)) {
                    Ok(rest) => Ok(seq![(h * 16 + l) as u8] + rest),
                    Err(e) => Err(e),
                },
                _ => Err(HexFailure::InvalidHex),
            }
        }
    }
}

/// What `hex_to_bytes` gives for `hex`: trim, drop one leading "0x", then
/// require an even number of bytes and decode them in pairs; any other
/// character than a hex digit is refused.
pub open spec fn hex_to_bytes_spec(hex: Seq<char>) -> Result<Seq<u8>, HexFailure> {
    let cleaned = strip_0x(encode_utf8(trim_end_ws(trim_start_ws(hex))));
    if cleaned.len() % 2 != 0 {
        Err(HexFailure::OddLength)
    } else {
        decode_hex_pairs(cleaned)
    }
}

/// The message `hex_to_bytes` reports for each failure.
pub open spec fn hex_failure_text(f: HexFailure) -> Seq<char> {
    match f {
        HexFailure::OddLength => "홀수 길이 16진수"@,
        HexFailure::InvalidUtf8 => "잘못된 UTF-8"@,
        HexFailure::InvalidHex => "잘못된 16진수"@,
    }
}

/// Whether `c` is Unicode White_Space, as `char::is_whitespace` decides.
fn is_whitespace_char(c: char) -> (r: bool)
    ensures
        r == is_unicode_whitespace(c),
{
    let u = c as u32;
    (0x09 <= u && u <= 0x0d) || u == 0x20 || u == 0x85 || u == 0xa0 || u == 0x1680 || (0x2000 <= u
        && u <= 0x200a) || u == 0x2028 || u == 0x2029 || u == 0x202f || u == 0x205f || u == 0x3000
}

/// The text without leading and trailing whitespace, as `str::trim` gives
/// it (Unicode White_Space on both ends).
fn trim_whitespace(s: &str) -> (r: &str)
    ensures
        r@ == trim_end_ws(trim_start_ws(s@)),
{
    let n: usize = s.unicode_len();
    let mut i: usize = 0;
    let mut scanning = true;
    assert(s@.subrange(0, n as int) =~= s@);
    while scanning && i < n
        invariant
            i <= n,
            n == s@.len(),
            trim_start_ws(s@) == trim_start_ws(s@.subrange(i as int, n as int)),
            !scanning ==> i < n && !is_unicode_whitespace(s@[i as int]),
        decreases n - i + (if scanning { 1int } else { 0int }),
    {
        if is_whitespace_char(s.get_char(i)) {
            assert(s@.subrange(i as int, n as int).drop_first() =~= s@.subrange(i + 1, n as int));
            i = i + 1;
        } else {
            scanning = false;
        }
    }
    let ghost front = s@.subrange(i as int, n as int);
    assert(trim_start_ws(front) == front);
    let mut j: usize = n;
    let mut scanning_back = true;
    assert(s@.subrange(i as int, j as int) == front);
    while scanning_back && j > i
        invariant
            i <= j <= n,
            n == s@.len(),
            front == s@.subrange(i as int, n as int),
            trim_end_ws(front) == trim_end_ws(s@.subrange(i as int, j as int)),
            !scanning_back ==> j > i && !is_unicode_whitespace(s@[j - 1]),
        decreases j - i + (if scanning_back { 1int } else { 0int }),
    {
        if is_whitespace_char(s.get_char(j - 1)) {
            assert(s@.subrange(i as int, j as int).drop_last() =~= s@.subrange(i as int, j - 1));
            j = j - 1;
        } else {
            scanning_back = false;
        }
    }
    let ghost kept = s@.subrange(i as int, j as int);
    assert(trim_end_ws(kept) == kept);
    s.substring_char(i, j)
}

/// `std::str::from_utf8`: the text of `bytes` when they are valid UTF-8.
#[verifier::external_body]
fn utf8_text(bytes: &[u8]) -> (r: Option<&str>)
    ensures
        r is Some <==> valid_utf8(bytes@),
        r matches Some(t) ==> t@ == decode_utf8(bytes@),
{
    std::str::from_utf8(bytes).ok()
}

/// The value of `b` as a hex digit.
fn hex_byte(b: u8) -> (r: Option<u8>)
    ensures
        r == hex_byte_value(b),
{
    if 0x30 <= b && b <= 0x39 {
        Some(b - 0x30)
    } else if 0x61 <= b && b <= 0x66 {
        Some(b - 0x61 + 10)
    } else if 0x41 <= b && b <= 0x46 {
        Some(b - 0x41 + 10)
    } else {
        None
    }
}

/// The standard library's wall-clock instant, carried through opaquely.
#[verifier::external_type_specification]
#[verifier::external_body]
pub struct ExSystemTime(std::time::SystemTime);

/// `SystemTime::now`: the wall clock; nothing is promised about its value.
#[verifier::external_body]
fn system_now() -> SystemTime {
    SystemTime::now()
}

/// `SystemTime::duration_since(UNIX_EPOCH)`: `None` for a clock before 1970;
/// nothing is promised about the duration.
#[verifier::external_body]
fn since_unix_epoch(t: &SystemTime) -> Option<Duration> {
    t.duration_since(std::time::UNIX_EPOCH).ok()
}

/// `Duration::as_secs`: the whole seconds; nothing is stated of the value.
#[verifier::external_body]
fn whole_seconds(d: &Duration) -> u64 {
    d.as_secs()
}

/// The one-character string of the lowercase hex digit of `d`.
fn hex_digit_str(d: u8) -> (s: &'static str)
    requires
        d < 16,
    ensures
        s@ == seq![hex_digit(d)],
{
    if d == 0 {
        proof { reveal_strlit("0"); }
        "0"
    } else if d == 1 {
        proof { reveal_strlit("1"); }
        "1"
    } else if d == 2 {
        proof { reveal_strlit("2"); }
        "2"
    } else if d == 3 {
        proof { reveal_strlit("3"); }
        "3"
    } else if d == 4 {
        proof { reveal_strlit("4"); }
        "4"
    } else if d == 5 {
        proof { reveal_strlit("5"); }
        "5"
    } else if d == 6 {
        proof { reveal_strlit("6"); }
        "6"
    } else if d == 7 {
        proof { reveal_strlit("7"); }
        "7"
    } else if d == 8 {
        proof { reveal_strlit("8"); }
        "8"
    } else if d == 9 {
        proof { reveal_strlit("9"); }
        "9"
    } else if d == 10 {
        proof { reveal_strlit("a"); }
        "a"
    } else if d == 11 {
        proof { reveal_strlit("b"); }
        "b"
    } else if d == 12 {
        proof { reveal_strlit("c"); }
        "c"
    } else if d == 13 {
        proof { reveal_strlit("d"); }
        "d"
    } else if d == 14 {
        proof { reveal_strlit("e"); }
        "e"
    } else {
        proof { reveal_strlit("f"); }
        "f"
    }
}

/// Basic data utilities.
pub struct SimpleUtils;

impl SimpleUtils {
    /// Unix time in whole seconds, read from the system clock: the
    /// clock's seconds since 1970 go through `timestamp_from_epoch_secs`,
    /// which gives 0 for a clock before 1970. The reading itself is the
    /// clock's, so no clause states the value.
    pub fn current_timestamp() -> (t: i64) {
        let now = system_now();
        let secs = match since_unix_epoch(&now) {
            Some(d) => Some(whole_seconds(&d)),
            None => None,
        };
        Self::timestamp_from_epoch_secs(secs)
    }

    /// The timestamp for a clock `secs` whole seconds after 1970 (`None`
    /// for a clock before 1970): the seconds cast to `i64`, or 0.
    pub fn timestamp_from_epoch_secs(secs: Option<u64>) -> (t: i64)
        ensures
            t == match secs {
                Some(s) => s as i64,
                None => 0i64,
            },
    {
        match secs {
            Some(s) => {
                #[verifier::truncate]
                let t = s as i64;
                t
            },
            None => 0,
        }
    }

    /// Lowercase hex of `bytes`, two digits per byte.
    pub fn bytes_to_hex(bytes: &[u8]) -> (s: String)
        ensures
            s@ == hex_encode(bytes@),
    {
        let mut s = String::new();
        let mut i: usize = 0;
        assert(bytes@.skip(0) =~= bytes@);
        assert(s@ + hex_encode(bytes@) =~= hex_encode(bytes@));
        while i < bytes.len()
            invariant
                i <= bytes@.len(),
                s@ + hex_encode(bytes@.skip(i as int)) == hex_encode(bytes@),
            decreases bytes@.len() - i,
        {
            let b = bytes[i];
            let ghost rest = bytes@.skip(i as int);
            assert(rest[0] == b);
            assert(rest.drop_first() =~= bytes@.skip(i + 1));
            s.append(hex_digit_str(b / 16));
            s.append(hex_digit_str(b % 16));
            i = i + 1;
            assert(s@ + hex_encode(bytes@.skip(i as int)) =~= hex_encode(bytes@));
        }
        assert(bytes@.skip(i as int) =~= Seq::<u8>::empty());
        assert(s@ + hex_encode(bytes@.skip(i as int)) =~= s@);
        s
    }

    /// Parses hex text: surrounding whitespace is trimmed, one leading "0x"
    /// is dropped, case does not matter, and any other character than a hex
    /// digit is refused. The result is `hex_to_bytes_spec(hex@)`, with its
    /// failure reported as `hex_failure_text`.
    pub fn hex_to_bytes(hex: &str) -> (r: Result<Vec<u8>, &'static str>)
        ensures
            match hex_to_bytes_spec(hex@) {
                Ok(b) => r matches Ok(v) && v@ == b,
                Err(f) => r matches Err(m) && m@ == hex_failure_text(f),
            },
    {
        let trimmed = trim_whitespace(hex);
        let all = trimmed.as_bytes();
        let start: usize = if all.len() >= 2 && all[0] == 0x30 && all[1] == 0x78 {
            2
        } else {
            0
        };
        let ghost bytes = strip_0x(all@);
        assert(bytes =~= all@.skip(start as int));
        if (all.len() - start) % 2 != 0 {
            return Err("홀수 길이 16진수");
        }
        let mut result: Vec<u8> = Vec::new();
        let mut i: usize = 0;
        assert(bytes.skip(0) =~= bytes);
        proof {
            match decode_hex_pairs(bytes) {
                Ok(all_out) => {
                    assert(result@ + all_out =~= all_out);
                },
                Err(_) => {},
            }
        }
        while i < all.len() - start
            invariant
                start <= all@.len(),
                start + bytes.len() == all@.len(),
                i <= bytes.len(),
                i % 2 == 0,
                bytes.len() % 2 == 0,
                bytes == all@.skip(start as int),
                bytes == strip_0x(encode_utf8(trim_end_ws(trim_start_ws(hex@)))),
                match decode_hex_pairs(bytes) {
                    Ok(all_out) => match decode_hex_pairs(bytes.skip(i as int)) {
                        Ok(rest) => all_out == result@ + rest,
                        Err(_) => false,
                    },
                    Err(e) => decode_hex_pairs(bytes.skip(i as int)) == Err::<Seq<u8>, HexFailure>(e),
                },
            decreases bytes.len() - i,
        {
            let ghost rest = bytes.skip(i as int);
            let chunk = slice_pair(all, start + i);
            assert(rest.take(2) =~= chunk@);
            assert(rest.skip(2) =~= bytes.skip(i + 2));
            assert(rest.len() >= 2);
            if utf8_text(chunk.as_slice()).is_none() {
                assert(decode_hex_pairs(rest) == Err::<Seq<u8>, HexFailure>(HexFailure::InvalidUtf8));
                return Err("잘못된 UTF-8");
            }
            let byte = match (hex_byte(chunk[0]), hex_byte(chunk[1])) {
                (Some(h), Some(l)) => h * 16 + l,
                _ => {
                    assert(decode_hex_pairs(rest) == Err::<Seq<u8>, HexFailure>(HexFailure::InvalidHex));
                    return Err("잘못된 16진수");
                },
            };
            result.push(byte);
            i = i + 2;
            proof {
                match decode_hex_pairs(bytes) {
                    Ok(all_out) => {
                        assert(all_out == result@ + decode_hex_pairs(bytes.skip(i as int))->Ok_0) by {
                            assert(seq![byte] + decode_hex_pairs(bytes.skip(i as int))->Ok_0
                                == decode_hex_pairs(rest)->Ok_0);
                        }
                    },
                    Err(_) => {},
                }
            }
        }
        assert(bytes.skip(i as int) =~= Seq::<u8>::empty());
        Ok(result)
    }
}

/// The two bytes of `b` starting at `i`.
fn slice_pair(b: &[u8], i: usize) -> (r: Vec<u8>)
    requires
        i + 2 <= b@.len(),
    ensures
        r@ == b@.subrange(i as int, i + 2),
{
    let mut r: Vec<u8> = Vec::with_capacity(2);
    r.push(b[i]);
    r.push(b[i + 1]);
    assert(r@ =~= b@.subrange(i as int, i + 2));
    r
}

/// A lowercase hex digit character.
pub open spec fn is_lower_hex_char(c: char) -> bool {
    ('0' <= c && c <= '9') || ('a' <= c && c <= 'f')
}

proof fn lemma_hex_digit_value(d: u8)
    requires
        d < 16,
    ensures
        hex_byte_value(hex_digit(d) as u8) == Some(d),
        is_lower_hex_char(hex_digit(d)),
        !is_unicode_whitespace(hex_digit(d)),
        hex_digit(d) != 'x',
        hex_digit(d) != '+',
{
}

proof fn lemma_hex_encode_chars(b: Seq<u8>)
    ensures
        hex_encode(b).len() == 2 * b.len(),
        forall|i: int| 0 <= i < hex_encode(b).len() ==> is_lower_hex_char(#[trigger] hex_encode(b)[i])
            && !is_unicode_whitespace(hex_encode(b)[i]) && hex_encode(b)[i] != 'x',
    decreases b.len(),
{
    if b.len() > 0 {
        lemma_hex_encode_chars(b.drop_first());
        lemma_hex_digit_value(b[0] / 16);
        lemma_hex_digit_value(b[0] % 16);
        let h = hex_encode(b);
        let t = hex_encode(b.drop_first());
        assert forall|i: int| 0 <= i < h.len() implies is_lower_hex_char(#[trigger] h[i])
            && !is_unicode_whitespace(h[i]) && h[i] != 'x' by {
            if i >= 2 {
                assert(h[i] == t[i - 2]);
            }
        }
    }
}

proof fn lemma_encode_utf8_concat(a: Seq<char>, b: Seq<char>)
    ensures
        encode_utf8(a + b) == encode_utf8(a) + encode_utf8(b),
    decreases a.len(),
{
    if a.len() == 0 {
        assert(a + b =~= b);
        assert(encode_utf8(a) + encode_utf8(b) =~= encode_utf8(b));
    } else {
        assert((a + b).drop_first() =~= a.drop_first() + b);
        assert((a + b)[0] == a[0]);
        lemma_encode_utf8_concat(a.drop_first(), b);
        assert(encode_utf8(a + b) =~= encode_utf8(a) + encode_utf8(b));
    }
}

proof fn lemma_decode_hex_encode(b: Seq<u8>)
    ensures
        decode_hex_pairs(encode_utf8(hex_encode(b))) == Ok::<Seq<u8>, HexFailure>(b),
        encode_utf8(hex_encode(b)).len() == 2 * b.len(),
        b.len() > 0 ==> hex_byte_value(encode_utf8(hex_encode(b))[1]) is Some,
    decreases b.len(),
{
    if b.len() == 0 {
        assert(encode_utf8(hex_encode(b)) =~= Seq::<u8>::empty());
        assert(b =~= Seq::<u8>::empty());
    } else {
        let pair = seq![hex_digit(b[0] / 16), hex_digit(b[0] % 16)];
        let rest = hex_encode(b.drop_first());
        assert(hex_encode(b) == pair + rest);
        lemma_encode_utf8_concat(pair, rest);
        lemma_hex_digit_value(b[0] / 16);
        lemma_hex_digit_value(b[0] % 16);
        assert(is_ascii_chars(pair));
        is_ascii_chars_encode_utf8(pair);
        lemma_decode_hex_encode(b.drop_first());
        let e = encode_utf8(hex_encode(b));
        let ep = encode_utf8(pair);
        assert(e.take(2) =~= ep);
        assert(e.skip(2) =~= encode_utf8(rest));
        encode_utf8_valid_utf8(pair);
        assert(ep.len() == 2);
        assert(ep[0] == pair[0] as u8);
        assert(ep[1] == pair[1] as u8);
        assert(e[1] == ep[1]);
        assert(valid_utf8(e.take(2)));
        assert(hex_byte_value(e.take(2)[0]) == Some(b[0] / 16));
        assert(hex_byte_value(e.take(2)[1]) == Some(b[0] % 16));
        assert(((b[0] / 16) * 16 + b[0] % 16) as u8 == b[0]);
        assert(decode_hex_pairs(e.skip(2)) == Ok::<Seq<u8>, HexFailure>(b.drop_first()));
        assert(seq![b[0]] + b.drop_first() =~= b);
    }
}

/// Parsing the hex rendering of any bytes gives the bytes back.
pub proof fn lemma_hex_roundtrip(b: Seq<u8>)
    ensures
        hex_to_bytes_spec(hex_encode(b)) == Ok::<Seq<u8>, HexFailure>(b),
{
    let h = hex_encode(b);
    lemma_hex_encode_chars(b);
    assert(trim_start_ws(h) == h);
    assert(trim_end_ws(h) == h);
    lemma_decode_hex_encode(b);
    let e = encode_utf8(h);
    assert(strip_0x(e) == e);
}

} // verus!
