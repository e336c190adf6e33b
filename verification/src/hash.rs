//! Content hashes and their hexadecimal form.

use vstd::prelude::*;
use vstd::string::*;
use vstd::utf8::*;

verus! {

/// The 32-byte BLAKE3 digest of a byte string, as `blake3::hash` computes it.
pub uninterp spec fn blake3_digest(input: Seq<u8>) -> Seq<u8>;

/// Calls `blake3::hash`. The digest depends on the input bytes alone; what it is on given bytes
/// is left to that crate.
#[verifier::external_body]
pub(crate) fn blake3_hash(input: &[u8]) -> (r: [u8; 32])
    ensures
        r@ == blake3_digest(input@),
{
    *blake3::hash(input).as_bytes()
}

/// One lower-case hexadecimal digit.
pub open spec fn hex_digit(d: int) -> char {
    if d < 10 {
        (48 + d) as char
    } else {
        (87 + d) as char
    }
}

/// Two lower-case hexadecimal digits per byte, the high half first.
pub open spec fn hex_lower(bytes: Seq<u8>) -> Seq<char> {
    Seq::new(
        2 * bytes.len(),
        |i: int|
            if i % 2 == 0 {
                hex_digit(bytes[i / 2] as int / 16)
            } else {
                hex_digit(bytes[i / 2] as int % 16)
            },
    )
}

/// Calls `blake3::Hash::to_hex`: the digest as 64 lower-case hexadecimal digits.
#[verifier::external_body]
pub(crate) fn digest_hex(digest: &[u8; 32]) -> (r: String)
    ensures
        r@ == hex_lower(digest@),
{
    blake3::Hash::from_bytes(*digest).to_hex().to_string()
}

/// The identifier that a byte string is known by: its digest in hexadecimal.
pub open spec fn content_id(bytes: Seq<u8>) -> Seq<char> {
    hex_lower(blake3_digest(bytes))
}

/// The identifier that a text is known by: the digest of its UTF-8 bytes in hexadecimal.
pub open spec fn text_id(text: Seq<char>) -> Seq<char> {
    content_id(encode_utf8(text))
}

/// Hashes bytes to their digest.
pub fn hash_data(bytes: &[u8]) -> (r: [u8; 32])
    ensures
        r@ == blake3_digest(bytes@),
{
    blake3_hash(bytes)
}

/// Hashes bytes to an identifier.
pub fn hash_bytes(bytes: &[u8]) -> (r: String)
    ensures
        r@ == content_id(bytes@),
{
    digest_hex(&blake3_hash(bytes))
}

/// Hashes a text to an identifier.
pub fn hash_text(text: &str) -> (r: String)
    ensures
        r@ == text_id(text@),
{
    hash_bytes(text.as_bytes())
}

/// The value of a hexadecimal digit of either case.
pub open spec fn hex_value(c: char) -> Option<int> {
    if '0' <= c && c <= '9' {
        Some(c as int - 48)
    } else if 'a' <= c && c <= 'f' {
        Some(c as int - 87)
    } else if 'A' <= c && c <= 'F' {
        Some(c as int - 55)
    } else {
        None
    }
}

/// Whether a text is an even number of hexadecimal digits.
pub open spec fn is_hex(text: Seq<char>) -> bool {
    &&& text.len() % 2 == 0
    &&& forall|i: int| 0 <= i < text.len() ==> (#[trigger] hex_value(text[i])) is Some
}

/// The bytes that an even number of hexadecimal digits stands for.
pub open spec fn hex_bytes(text: Seq<char>) -> Seq<u8> {
    Seq::new(
        text.len() / 2,
        |i: int| (16 * hex_value(text[2 * i])->0 + hex_value(text[2 * i + 1])->0) as u8,
    )
}

/// Calls `hex::decode`, which takes digits of either case and refuses an odd number of them or
/// any other character.
#[verifier::external_body]
pub(crate) fn hex_decode(text: &str) -> (r: Option<Vec<u8>>)
    ensures
        r is Some <==> is_hex(text@),
        r matches Some(bytes) ==> bytes@ == hex_bytes(text@),
{
    hex::decode(text).ok()
}

/// Why a secret key given in hexadecimal was refused.
#[derive(Debug, PartialEq, Eq)]
pub enum KeyError {
    /// The text is not hexadecimal.
    NotHex,
    /// The key does not have 32 bytes; this many were given.
    WrongLength(usize),
}

/// Decodes a 32-byte secret key from hexadecimal.
pub fn decode_secret_key(text: &str) -> (r: Result<[u8; 32], KeyError>)
    ensures
        match r {
            Ok(key) => is_hex(text@) && text@.len() == 64 && key@ == hex_bytes(text@),
            Err(KeyError::NotHex) => !is_hex(text@),
            Err(KeyError::WrongLength(n)) => is_hex(text@) && n == text@.len() / 2 && n != 32,
        },
{
    match hex_decode(text) {
        None => Err(KeyError::NotHex),
        Some(bytes) => {
            if bytes.len() != 32 {
                return Err(KeyError::WrongLength(bytes.len()));
            }
            let mut key: [u8; 32] = [0u8;32];
            let mut i: usize = 0;
            while i < 32
                invariant
                    i <= 32,
                    bytes@.len() == 32,
                    forall|j: int| 0 <= j < i ==> key@[j] == bytes@[j],
                decreases 32 - i,
            {
                key[i] = bytes[i];
                i = i + 1;
            }
            assert(key@ =~= bytes@);
            Ok(key)
        },
    }
}

/// A digest printed in hexadecimal reads back as itself.
pub proof fn hex_round_trip(bytes: Seq<u8>)
    ensures
        is_hex(hex_lower(bytes)),
        hex_bytes(hex_lower(bytes)) == bytes,
{
    let text = hex_lower(bytes);
    assert forall|i: int| 0 <= i < text.len() implies (#[trigger] hex_value(text[i])) is Some by {
        let b = bytes[i / 2];
        assert(0 <= b as int / 16 < 16 && 0 <= b as int % 16 < 16);
    }
    assert(hex_bytes(text) =~= bytes) by {
        assert forall|i: int| 0 <= i < bytes.len() implies hex_bytes(text)[i] == bytes[i] by {
            let b = bytes[i];
            assert((2 * i) / 2 == i && (2 * i) % 2 == 0);
            assert((2 * i + 1) / 2 == i && (2 * i + 1) % 2 == 1);
            assert(0 <= b as int / 16 < 16 && 0 <= b as int % 16 < 16);
        }
    }
}

} // verus!
