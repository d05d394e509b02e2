//! Textual codecs: hexadecimal and base58.
//!
//! Hexadecimal is simple enough to specify outright, so the wrappers promise
//! the exact digit strings and the round trip is proved, not assumed. Base58
//! is a big-number conversion; its results are only named, together with the
//! round trip that the codec documents.

use vstd::prelude::*;

verus! {

pub open spec fn hex_digit_char(n: u8) -> char {
    if n == 0 {
        '0'
    } else if n == 1 {
        '1'
    } else if n == 2 {
        '2'
    } else if n == 3 {
        '3'
    } else if n == 4 {
        '4'
    } else if n == 5 {
        '5'
    } else if n == 6 {
        '6'
    } else if n == 7 {
        '7'
    } else if n == 8 {
        '8'
    } else if n == 9 {
        '9'
    } else if n == 10 {
        'a'
    } else if n == 11 {
        'b'
    } else if n == 12 {
        'c'
    } else if n == 13 {
        'd'
    } else if n == 14 {
        'e'
    } else {
        'f'
    }
}

/// The lowercase hexadecimal rendering: two digits per byte.
pub open spec fn spec_hex_of(b: Seq<u8>) -> Seq<char>
    decreases b.len(),
{
    if b.len() == 0 {
        Seq::empty()
    } else {
        seq![hex_digit_char((b[0] / 16) as u8), hex_digit_char((b[0] % 16) as u8)]
            + spec_hex_of(b.drop_first())
    }
}

pub open spec fn spec_hex_val(c: char) -> Option<u8> {
    if c == '0' {
        Some(0u8)
    } else if c == '1' {
        Some(1u8)
    } else if c == '2' {
        Some(2u8)
    } else if c == '3' {
        Some(3u8)
    } else if c == '4' {
        Some(4u8)
    } else if c == '5' {
        Some(5u8)
    } else if c == '6' {
        Some(6u8)
    } else if c == '7' {
        Some(7u8)
    } else if c == '8' {
        Some(8u8)
    } else if c == '9' {
        Some(9u8)
    } else if c == 'a' || c == 'A' {
        Some(10u8)
    } else if c == 'b' || c == 'B' {
        Some(11u8)
    } else if c == 'c' || c == 'C' {
        Some(12u8)
    } else if c == 'd' || c == 'D' {
        Some(13u8)
    } else if c == 'e' || c == 'E' {
        Some(14u8)
    } else if c == 'f' || c == 'F' {
        Some(15u8)
    } else {
        None
    }
}

/// Hexadecimal decoding: defined exactly on even-length strings of hex
/// digits, upper or lower case.
pub open spec fn spec_hex_decode(s: Seq<char>) -> Option<Seq<u8>>
    decreases s.len(),
{
    if s.len() == 0 {
        Some(Seq::empty())
    } else if s.len() == 1 {
        None
    } else {
        match (spec_hex_val(s[0]), spec_hex_val(s[1])) {
            (Some(h), Some(l)) => match spec_hex_decode(s.subrange(2, s.len() as int)) {
                Some(rest) => Some(seq![(h * 16 + l) as u8] + rest),
                None => None,
            },
            _ => None,
        }
    }
}

/// Decoding inverts encoding: the hexadecimal rendering of any byte string
/// decodes back to it.
pub proof fn lemma_hex_round_trip(b: Seq<u8>)
    ensures
        spec_hex_decode(spec_hex_of(b)) == Some(b),
    decreases b.len(),
{
    if b.len() == 0 {
        assert(spec_hex_of(b) =~= Seq::<char>::empty());
    } else {
        let s = spec_hex_of(b);
        let h = (b[0] / 16) as u8;
        let l = (b[0] % 16) as u8;
        assert(spec_hex_val(hex_digit_char(h)) == Some(h));
        assert(spec_hex_val(hex_digit_char(l)) == Some(l));
        lemma_hex_round_trip(b.drop_first());
        assert(s.subrange(2, s.len() as int) =~= spec_hex_of(b.drop_first()));
        assert(h * 16 + l == b[0]);
        assert(seq![b[0]] + b.drop_first() =~= b);
    }
}

/// Relies on hex::encode: two lowercase hexadecimal digits for each byte.
#[verifier::external_body]
pub fn hex_encode(b: &Vec<u8>) -> (r: String)
    ensures
        r@ == spec_hex_of(b@),
{
    hex::encode(b)
}

/// Relies on hex::FromHex for Vec<u8>: parsing succeeds exactly on
/// even-length strings of hexadecimal digits, upper or lower case, and
/// returns the encoded bytes.
#[verifier::external_body]
pub fn hex_decode(s: &str) -> (r: Option<Vec<u8>>)
    ensures
        r.deep_view() == spec_hex_decode(s@),
{
    <Vec<u8> as hex::FromHex>::from_hex(s).ok()
}

/// Relies on std::str::from_utf8: it succeeds exactly on valid UTF-8 and
/// returns the characters those bytes encode.
#[verifier::external_body]
pub fn utf8_to_string(b: &Vec<u8>) -> (r: Option<String>)
    ensures
        r is Some <==> vstd::utf8::valid_utf8(b@),
        r matches Some(s) ==> s@ == vstd::utf8::decode_utf8(b@),
{
    match std::str::from_utf8(b) {
        Ok(s) => Some(s.to_owned()),
        Err(_) => None,
    }
}

/// What bs58::encode returns for a byte string, with the default Bitcoin
/// alphabet.
pub uninterp spec fn base58_of(b: Seq<u8>) -> Seq<char>;

/// What bs58::decode returns, with the default Bitcoin alphabet: the bytes,
/// or nothing where the string is not valid base58.
pub uninterp spec fn base58_decode_of(s: Seq<char>) -> Option<Seq<u8>>;

/// Relies on bs58::encode with the default Bitcoin alphabet; the codec
/// documents that decoding returns exactly the encoded bytes.
#[verifier::external_body]
pub fn base58_encode(b: &Vec<u8>) -> (r: String)
    ensures
        r@ == base58_of(b@),
        base58_decode_of(r@) == Some(b@),
{
    bs58::encode(b).into_string()
}

/// Relies on bs58::decode with the default Bitcoin alphabet.
#[verifier::external_body]
pub fn base58_decode(s: &str) -> (r: Option<Vec<u8>>)
    ensures
        r.deep_view() == base58_decode_of(s@),
{
    bs58::decode(s).into_vec().ok()
}

} // verus!
