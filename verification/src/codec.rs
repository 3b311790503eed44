//! Hex encoding and SHA-256 hashing, as used for Merkle proofs and key
//! material.  The byte-level work is done by the `hex` and `sha2` crates.
use vstd::prelude::*;
use sha2::Digest;

verus! {

/// The lowercase hex digit for a value below 16.
pub open spec fn hex_digit(v: int) -> char {
    if v < 10 { (('0' as int) + v) as char } else { (('a' as int) + v - 10) as char }
}

/// Lowercase hex text of a byte string: two digits per byte, high nibble first.
pub open spec fn hex_encode_spec(data: Seq<u8>) -> Seq<char>
    decreases data.len(),
{
    if data.len() == 0 {
        Seq::empty()
    } else {
        seq![hex_digit(data[0] as int / 16), hex_digit(data[0] as int % 16)]
            + hex_encode_spec(data.drop_first())
    }
}

/// The value of a hex digit of either case, or `None` for any other character.
pub open spec fn hex_value(c: char) -> Option<int> {
    if '0' <= c && c <= '9' {
        Some(c as int - '0' as int)
    } else if 'a' <= c && c <= 'f' {
        Some(c as int - 'a' as int + 10)
    } else if 'A' <= c && c <= 'F' {
        Some(c as int - 'A' as int + 10)
    } else {
        None
    }
}

/// The bytes denoted by hex text, or `None` when the text has odd length or
/// holds a character that is not a hex digit.
pub open spec fn hex_decode_spec(s: Seq<char>) -> Option<Seq<u8>>
    decreases s.len(),
{
    if s.len() == 0 {
        Some(Seq::empty())
    } else if s.len() == 1 {
        None
    } else {
        match (hex_value(s[0]), hex_value(s[1]), hex_decode_spec(s.subrange(2, s.len() as int))) {
            (Some(hi), Some(lo), Some(rest)) => Some(seq![(hi * 16 + lo) as u8] + rest),
            _ => None,
        }
    }
}

/// Decoding hex text made by `hex_encode_spec` gives back the bytes.
pub proof fn lemma_hex_round_trip(data: Seq<u8>)
    ensures
        hex_decode_spec(hex_encode_spec(data)) == Some(data),
        hex_encode_spec(data).len() == 2 * data.len(),
    decreases data.len(),
{
    if data.len() > 0 {
        lemma_hex_round_trip(data.drop_first());
        let b = data[0] as int;
        lemma_hex_digit(b / 16);
        lemma_hex_digit(b % 16);
        let s = hex_encode_spec(data);
        let rest = hex_encode_spec(data.drop_first());
        assert(s.subrange(2, s.len() as int) =~= rest);
        assert(((b / 16) * 16 + b % 16) as u8 == data[0]);
        assert(seq![data[0]] + data.drop_first() =~= data);
    }
}

proof fn lemma_hex_digit(v: int)
    requires
        0 <= v < 16,
    ensures
        hex_value(hex_digit(v)) == Some(v),
{
}

/// What SHA-256 gives for a byte string.
pub uninterp spec fn sha256_spec(data: Seq<u8>) -> Seq<u8>;

/// Calls `sha2::Sha256::digest`.  Trusted: the 32-byte digest it returns is
/// the value named by `sha256_spec` for the input bytes.
#[verifier::external_body]
pub(crate) fn sha256(data: &[u8]) -> (digest: [u8; 32])
    ensures
        digest@ == sha256_spec(data@),
{
    sha2::Sha256::digest(data).into()
}

/// Calls `hex::encode`.  Trusted: the text is two lowercase hex digits per
/// input byte, high nibble first (the crate's documented behaviour).
#[verifier::external_body]
pub(crate) fn hex_encode(data: &[u8]) -> (text: String)
    ensures
        text@ == hex_encode_spec(data@),
{
    hex::encode(data)
}

/// Calls `hex::decode`.  Trusted: it succeeds exactly when the text has even
/// length and only hex digits of either case, and then yields the denoted
/// bytes.  On failure it returns the crate's error message, whose wording is
/// not stated here.
#[verifier::external_body]
pub(crate) fn hex_decode(text: &str) -> (res: Result<Vec<u8>, String>)
    ensures
        hex_decode_spec(text@) is Some <==> res is Ok,
        res matches Ok(bytes) ==> bytes@ == hex_decode_spec(text@).unwrap(),
{
    match hex::decode(text) {
        Ok(bytes) => Ok(bytes),
        Err(e) => Err(e.to_string()),
    }
}

} // verus!
