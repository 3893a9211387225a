//! Text helpers: decimal rendering of integers and UTF-8 decoding of bytes.

use vstd::prelude::*;
use vstd::string::*;
use vstd::utf8::*;

verus! {

/// The ASCII digit for `d` (taken modulo 10).
pub open spec fn digit_char(d: nat) -> char {
    if d % 10 == 0 {
        '0'
    } else if d % 10 == 1 {
        '1'
    } else if d % 10 == 2 {
        '2'
    } else if d % 10 == 3 {
        '3'
    } else if d % 10 == 4 {
        '4'
    } else if d % 10 == 5 {
        '5'
    } else if d % 10 == 6 {
        '6'
    } else if d % 10 == 7 {
        '7'
    } else if d % 10 == 8 {
        '8'
    } else {
        '9'
    }
}

/// The decimal digits of `n`, without leading zeros ("0" for zero).
pub open spec fn decimal(n: nat) -> Seq<char>
    decreases n,
{
    if n < 10 {
        seq![digit_char(n)]
    } else {
        decimal(n / 10).push(digit_char(n % 10))
    }
}

/// The decimal rendering of a signed integer, with a leading '-' when negative.
pub open spec fn signed_decimal(n: int) -> Seq<char> {
    if n < 0 {
        seq!['-'] + decimal((-n) as nat)
    } else {
        decimal(n as nat)
    }
}

/// A one-character string holding the digit of `d`.
fn digit_str(d: u64) -> (s: &'static str)
    requires
        d < 10,
    ensures
        s@ == seq![digit_char(d as nat)],
{
    if d == 0 {
        proof { reveal_strlit("0"); }
        "0"
    } else if d == 1 {
        proof { reveal_strlit("1"); }
        "1"
    } else if d == 2 {
        proof { reveal_strlit("2"); }
        "2"
    } else if d == 3 {
        proof { reveal_strlit("3"); }
        "3"
    } else if d == 4 {
        proof { reveal_strlit("4"); }
        "4"
    } else if d == 5 {
        proof { reveal_strlit("5"); }
        "5"
    } else if d == 6 {
        proof { reveal_strlit("6"); }
        "6"
    } else if d == 7 {
        proof { reveal_strlit("7"); }
        "7"
    } else if d == 8 {
        proof { reveal_strlit("8"); }
        "8"
    } else {
        proof { reveal_strlit("9"); }
        "9"
    }
}

/// The decimal rendering of `n`, as `n.to_string()` gives it.
pub fn u64_to_decimal(n: u64) -> (s: String)
    ensures
        s@ == decimal(n as nat),
    decreases n,
{
    if n < 10 {
        <String as StringExecFns>::from_str(digit_str(n))
    } else {
        let mut s = u64_to_decimal(n / 10);
        s.append(digit_str(n % 10));
        s
    }
}

/// The decimal rendering of `n`, as `n.to_string()` gives it.
pub fn i64_to_decimal(n: i64) -> (s: String)
    ensures
        s@ == signed_decimal(n as int),
{
    if n < 0 {
        let magnitude: u64 = if n == i64::MIN {
            9223372036854775808u64
        } else {
            (-n) as u64
        };
        proof { reveal_strlit("-"); }
        let mut s = <String as StringExecFns>::from_str("-");
        let digits = u64_to_decimal(magnitude);
        s.append(digits.as_str());
        s
    } else {
        u64_to_decimal(n as u64)
    }
}

/// The bytes of `s` in UTF-8.
pub fn string_bytes(s: &String) -> (b: &[u8])
    ensures
        b@ == encode_utf8(s@),
{
    s.as_str().as_bytes()
}

/// `String::from_utf8`: the string that `bytes` encode in UTF-8, or `None`
/// where they are not valid UTF-8. The contract states what the standard
/// library documents: the bytes are accepted exactly when they are valid
/// UTF-8, and the string then holds the characters they encode.
#[verifier::external_body]
pub(crate) fn string_from_utf8(bytes: Vec<u8>) -> (r: Option<String>)
    ensures
        r is Some <==> valid_utf8(bytes@),
        r matches Some(s) ==> s@ == decode_utf8(bytes@),
{
    String::from_utf8(bytes).ok()
}

/// What `{:?}` renders for a string: the text in double quotes with the
/// standard library's escapes.
pub uninterp spec fn str_debug(s: Seq<char>) -> Seq<char>;

/// `<str as Debug>::fmt` through `format!("{:?}", s)`: the contract names the
/// rendering, a function of the text alone; its exact escaping rules are not
/// restated here.
#[verifier::external_body]
pub(crate) fn debug_quoted(s: &str) -> (r: String)
    ensures
        r@ == str_debug(s@),
{
    format!("{:?}", s)
}

/// A string holds its UTF-8 encoding back when decoded, and that encoding is valid.
pub proof fn lemma_utf8_roundtrip(chars: Seq<char>)
    ensures
        valid_utf8(encode_utf8(chars)),
        decode_utf8(encode_utf8(chars)) == chars,
{
    encode_utf8_valid_utf8(chars);
    encode_utf8_decode_utf8(chars);
}

} // verus!
