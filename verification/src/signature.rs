//! Request signing for the game's account service: an HMAC-SHA-256
//! signature over the request body, keyed by the account code and a random
//! nonce, sent as the nonce followed by the digest in hexadecimal.

use vstd::prelude::*;
use vstd::string::StringExecFns;

verus! {

/// The lowercase hexadecimal digit for a value below 16.
pub open spec fn hex_digit(v: u8) -> char {
    if v < 10 {
        (48 + v) as char
    } else {
        (87 + v) as char
    }
}

/// The lowercase hexadecimal encoding of a byte string: two digits per
/// byte, high nibble first.
pub open spec fn hex_of(bytes: Seq<u8>) -> Seq<char> {
    Seq::new(
        2 * bytes.len(),
        |i: int|
            if i % 2 == 0 {
                hex_digit(bytes[i / 2] >> 4u8)
            } else {
                hex_digit(bytes[i / 2] & 15u8)
            },
    )
}

/// Relies on `hex::encode`: it encodes each byte as two lowercase
/// hexadecimal digits, high nibble first.
#[verifier::external_body]
fn hex_encode(bytes: &Vec<u8>) -> (r: String)
    ensures
        r@ == hex_of(bytes@),
        r@.len() == 2 * bytes@.len(),
{
    hex::encode(bytes)
}

/// The HMAC-SHA-256 digest of `data` under `key`: 32 bytes, a function of
/// the two strings alone.
pub uninterp spec fn hmac_sha256_of(key: Seq<char>, data: Seq<char>) -> Seq<u8>;

/// Relies on `hmac::Hmac<sha2::Sha256>` through `hmac::Mac`
/// (`new_from_slice`, `update`, `finalize`): the HMAC-SHA-256 digest of the
/// data under the key, 32 bytes, a function of both alone. HMAC accepts a
/// key of any length, so `new_from_slice` cannot fail here.
#[verifier::external_body]
fn hmac_sha256(key: &str, data: &str) -> (r: Vec<u8>)
    ensures
        r@ == hmac_sha256_of(key@, data@),
        r@.len() == 32,
{
    let mut mac = <hmac::Hmac<sha2::Sha256> as hmac::Mac>::new_from_slice(key.as_bytes()).unwrap();
    hmac::Mac::update(&mut mac, data.as_bytes());
    hmac::Mac::finalize(mac).into_bytes().to_vec()
}

/// Relies on `rand::thread_rng` / `rand::Rng::fill`: it fills the buffer
/// with bytes; nothing is promised of their values.
#[verifier::external_body]
fn random_bytes(len: usize) -> (r: Vec<u8>)
    ensures
        r@.len() == len,
{
    let mut buf = vec![0u8; len];
    rand::Rng::fill(&mut rand::thread_rng(), &mut buf[..]);
    buf
}

/// A random string of `2 * length` hexadecimal digits.
pub fn get_random_hex_str(length: i32) -> (r: String)
    requires
        length >= 0,
    ensures
        r@.len() == 2 * length,
{
    let bytes = random_bytes(length as usize);
    hex_encode(&bytes)
}

/// Sign `data` under the key `inquiry_code + nonce` and return the nonce
/// followed by the hexadecimal HMAC-SHA-256 digest.
pub fn sign_with_nonce(inquiry_code: &str, data: &str, nonce: &str) -> (r: String)
    ensures
        r@ == nonce@ + hex_of(hmac_sha256_of(inquiry_code@ + nonce@, data@)),
{
    let key = inquiry_code.to_owned().concat(nonce);
    let digest = hmac_sha256(key.as_str(), data);
    let sig = hex_encode(&digest);
    nonce.to_owned().concat(sig.as_str())
}

/// Sign `data` as the account service expects: draw a fresh 64-digit
/// hexadecimal nonce, key the digest by the inquiry code followed by the
/// nonce, and return the nonce followed by the digest.
pub fn generate_signature(inquiry_code: String, data: String) -> (r: String)
    ensures
        exists|nonce: Seq<char>| {
            &&& nonce.len() == 64
            &&& r@ == nonce + hex_of(#[trigger] hmac_sha256_of(inquiry_code@ + nonce, data@))
        },
{
    let random_data = get_random_hex_str(32);
    let r = sign_with_nonce(inquiry_code.as_str(), data.as_str(), random_data.as_str());
    proof {
        assert(random_data@.len() == 64);
        assert(r@ == random_data@ + hex_of(hmac_sha256_of(inquiry_code@ + random_data@, data@)));
    }
    r
}

} // verus!
