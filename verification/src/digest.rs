//! Digests and their printable forms.

use vstd::prelude::*;
use crate::text;

verus! {

/// The SHA-256 digest of the bytes.
pub uninterp spec fn sha256_of(value: Seq<u8>) -> Seq<u8>;

/// Hashes the bytes: `Digest::digest` of `sha2::Sha256`, which depends on the bytes alone and gives
/// thirty-two of them. The hash function itself is left to the crate.
#[verifier::external_body]
pub(crate) fn sha256(value: &[u8]) -> (result: Vec<u8>)
    ensures
        result@ == sha256_of(value@),
        result@.len() == 32,
{
    <sha2::Sha256 as sha2::Digest>::digest(value).to_vec()
}

/// The small hexadecimal digit with the given value.
pub open spec fn hex_digit(value: int) -> char {
    if value < 10 {
        (48 + value) as char
    } else {
        (87 + value) as char
    }
}

/// Two hexadecimal digits for each byte.
pub open spec fn hex_of(value: Seq<u8>) -> Seq<char>
    decreases value.len(),
{
    if value.len() == 0 {
        Seq::empty()
    } else {
        hex_of(value.drop_last()).push(hex_digit(value.last() as int / 16)).push(
            hex_digit(value.last() as int % 16),
        )
    }
}

fn nibble(value: u8) -> (result: char)
    requires
        value < 16,
    ensures
        result == hex_digit(value as int),
{
    if value < 10 {
        (48 + value) as char
    } else {
        (87 + value) as char
    }
}

/// Two hexadecimal digits for each byte.
pub fn hex(value: &[u8]) -> (result: String)
    ensures
        result@ == hex_of(value@),
{
    let mut result = String::new();
    let mut index: usize = 0;
    assert(result@ == hex_of(value@.take(0)));
    while index < value.len()
        invariant
            index <= value.len(),
            result@ == hex_of(value@.take(index as int)),
        decreases value.len() - index,
    {
        proof {
            assert(value@.take(index + 1).drop_last() == value@.take(index as int));
            assert(value@.take(index + 1).last() == value@[index as int]);
        }
        result.push(nibble(value[index] / 16));
        result.push(nibble(value[index] % 16));
        index = index + 1;
    }
    assert(value@.take(value@.len() as int) == value@);
    result
}

/// Every byte takes two digits.
pub proof fn lemma_hex_len(value: Seq<u8>)
    ensures
        hex_of(value).len() == 2 * value.len(),
    decreases value.len(),
{
    if value.len() > 0 {
        lemma_hex_len(value.drop_last());
    }
}

/// The URL-safe Base64 form of the bytes, without padding.
pub uninterp spec fn url_base64_of(value: Seq<u8>) -> Seq<char>;

/// The bytes that an unpadded URL-safe Base64 text stands for.
pub uninterp spec fn url_base64_bytes(value: Seq<char>) -> Option<Seq<u8>>;

/// Whether a text holds only letters, digits, dashes and underscores.
pub open spec fn is_url_safe(value: Seq<char>) -> bool {
    text::every(value, |ch: char| text::is_alnum(ch) || ch == '-' || ch == '_')
}

/// Encodes the bytes: `base64::Engine::encode` of `URL_SAFE_NO_PAD`, which depends on the bytes
/// alone; decoding the result gives the bytes back. It holds only letters, digits, dashes and
/// underscores, one for each six bits.
#[verifier::external_body]
pub(crate) fn url_base64(value: &[u8]) -> (result: String)
    ensures
        result@ == url_base64_of(value@),
        url_base64_bytes(result@) == Some(value@),
        is_url_safe(result@),
        result@.len() == (4 * value@.len() + 2) / 3,
{
    base64::Engine::encode(&base64::engine::general_purpose::URL_SAFE_NO_PAD, value)
}

/// Decodes a text: `base64::Engine::decode` of `URL_SAFE_NO_PAD`, which depends on the text alone.
#[verifier::external_body]
pub(crate) fn from_url_base64(value: &str) -> (result: Option<Vec<u8>>)
    ensures
        match result {
            Some(inner) => url_base64_bytes(value@) == Some(inner@),
            None => url_base64_bytes(value@) is None,
        },
{
    base64::Engine::decode(&base64::engine::general_purpose::URL_SAFE_NO_PAD, value).ok()
}

/// The standard Base64 form of the bytes, with padding.
pub uninterp spec fn base64_of(value: Seq<u8>) -> Seq<char>;

/// Encodes the bytes: `base64::Engine::encode` of `STANDARD`, which depends on the bytes alone.
#[verifier::external_body]
pub(crate) fn base64(value: &[u8]) -> (result: String)
    ensures
        result@ == base64_of(value@),
{
    base64::Engine::encode(&base64::engine::general_purpose::STANDARD, value)
}

/// The code that HMAC with SHA-256 gives for a message under a key.
pub uninterp spec fn hmac_of(key: Seq<u8>, message: Seq<u8>) -> Seq<u8>;

/// Authenticates a message: `Mac::finalize` of `hmac::Hmac` over `sha2::Sha256`, which depends on the
/// key and the message alone and gives thirty-two bytes. A key of any length is taken.
#[verifier::external_body]
pub(crate) fn hmac(key: &[u8], message: &[u8]) -> (result: Vec<u8>)
    ensures
        result@ == hmac_of(key@, message@),
        result@.len() == 32,
{
    let mut mac = <hmac::Hmac<sha2::Sha256> as hmac::KeyInit>::new_from_slice(key)
        .expect("HMAC takes keys of any length");
    hmac::Mac::update(&mut mac, message);
    hmac::Mac::finalize(mac).into_bytes().to_vec()
}

/// Checks the code of a message: `Mac::verify_slice` of `hmac::Hmac` over `sha2::Sha256` accepts the
/// whole code and nothing else.
#[verifier::external_body]
pub(crate) fn hmac_matches(key: &[u8], message: &[u8], code: &[u8]) -> (result: bool)
    ensures
        result == (hmac_of(key@, message@) == code@),
{
    let mut mac = <hmac::Hmac<sha2::Sha256> as hmac::KeyInit>::new_from_slice(key)
        .expect("HMAC takes keys of any length");
    hmac::Mac::update(&mut mac, message);
    hmac::Mac::verify_slice(mac, code).is_ok()
}

/// The digits of a byte are those of its halves, in small letters.
pub proof fn lemma_hex_digits(value: Seq<u8>, byte: u8)
    ensures
        hex_of(value.push(byte)) == hex_of(value) + seq![
            hex_digit(byte as int / 16),
            hex_digit(byte as int % 16),
        ],
        hex_digit(0) == '0' && hex_digit(9) == '9' && hex_digit(10) == 'a' && hex_digit(15) == 'f',
        hex_of(Seq::empty()).len() == 0,
{
    assert(value.push(byte).drop_last() =~= value);
    assert(hex_of(value.push(byte)) =~= hex_of(value) + seq![
        hex_digit(byte as int / 16),
        hex_digit(byte as int % 16),
    ]);
}

} // verus!
