//! Calls into the cipher, encoding and randomness crates, each behind a
//! trusted contract that states what the crate's source and documentation show.
use vstd::prelude::*;
use aes_gcm::aead::{Aead, KeyInit};
use aes_gcm::{Aes256Gcm, Key, Nonce};
use base64::engine::general_purpose::STANDARD as B64;
use base64::Engine as _;
use rand::RngCore;

verus! {

/// The plaintext that AES-256-GCM authenticates and recovers from `ciphertext`
/// (ciphertext followed by its 16-byte tag) under `key` and `nonce`, or `None`
/// when authentication fails.
pub uninterp spec fn aes256gcm_open(key: Seq<u8>, nonce: Seq<u8>, ciphertext: Seq<u8>) -> Option<Seq<u8>>;

/// The ciphertext-and-tag that AES-256-GCM produces for `plaintext` under `key` and `nonce`.
pub uninterp spec fn aes256gcm_seal(key: Seq<u8>, nonce: Seq<u8>, plaintext: Seq<u8>) -> Seq<u8>;

/// The bytes that the standard, padded base64 alphabet decodes `text` to, or
/// `None` when `text` is not valid padded base64.
pub uninterp spec fn base64_decoded(text: Seq<char>) -> Option<Seq<u8>>;

/// The padded standard base64 encoding of `bytes`.
pub uninterp spec fn base64_encoded(bytes: Seq<u8>) -> Seq<char>;

/// Largest plaintext that AES-GCM accepts (`aes_gcm::P_MAX`).
pub open spec fn gcm_plaintext_max() -> nat {
    0x1000000000
}

pub open spec fn option_bytes(o: Option<Vec<u8>>) -> Option<Seq<u8>> {
    match o {
        Some(v) => Some(v@),
        None => None,
    }
}

/// `Aes256Gcm::decrypt` (aes-gcm): the result is the named plaintext. The
/// source rejects a ciphertext shorter than the 16-byte tag and strips the tag
/// from a successful result.
#[verifier::external_body]
pub(crate) fn aes256gcm_decrypt(key: &[u8; 32], nonce: &[u8; 12], ciphertext: &[u8]) -> (r: Option<Vec<u8>>)
    ensures
        option_bytes(r) == aes256gcm_open(key@, nonce@, ciphertext@),
        ciphertext@.len() < 16 ==> r is None,
        r matches Some(p) ==> p@.len() + 16 == ciphertext@.len(),
{
    let cipher = Aes256Gcm::new(Key::<Aes256Gcm>::from_slice(key));
    cipher.decrypt(Nonce::from_slice(nonce), ciphertext).ok()
}

/// `Aes256Gcm::encrypt` (aes-gcm): the result is the named ciphertext. The
/// source only refuses plaintexts longer than `P_MAX` and appends a 16-byte
/// tag; decrypting its output under the same key and nonce gives the
/// plaintext back, as the crate's documented round trip shows.
#[verifier::external_body]
pub(crate) fn aes256gcm_encrypt(key: &[u8; 32], nonce: &[u8; 12], plaintext: &[u8]) -> (r: Option<Vec<u8>>)
    ensures
        plaintext@.len() <= gcm_plaintext_max() <==> r is Some,
        r matches Some(c) ==> c@ == aes256gcm_seal(key@, nonce@, plaintext@),
        r matches Some(c) ==> c@.len() == plaintext@.len() + 16,
        r matches Some(c) ==> aes256gcm_open(key@, nonce@, c@) == Some(plaintext@),
{
    let cipher = Aes256Gcm::new(Key::<Aes256Gcm>::from_slice(key));
    cipher.encrypt(Nonce::from_slice(nonce), plaintext).ok()
}

/// `STANDARD.decode` (base64) applied to the UTF-8 bytes of `text`.
#[verifier::external_body]
pub(crate) fn base64_decode(text: &str) -> (r: Option<Vec<u8>>)
    ensures
        option_bytes(r) == base64_decoded(text@),
{
    B64.decode(text.as_bytes()).ok()
}

/// `STANDARD.encode` (base64). The source panics only when the encoded length
/// overflows `usize`; decoding the result gives the input back.
#[verifier::external_body]
pub(crate) fn base64_encode(bytes: &[u8]) -> (r: String)
    requires
        bytes@.len() <= usize::MAX / 2,
    ensures
        r@ == base64_encoded(bytes@),
        base64_decoded(r@) == Some(bytes@),
{
    B64.encode(bytes)
}

/// `RngCore::fill_bytes` on `rand::thread_rng()` for a 12-byte buffer; the
/// content is random, so nothing is stated of it.
#[verifier::external_body]
pub(crate) fn random_nonce() -> (r: [u8; 12]) {
    let mut nonce = [0u8; 12];
    rand::thread_rng().fill_bytes(&mut nonce);
    nonce
}

/// `RngCore::fill_bytes` on `rand::thread_rng()` for a 32-byte buffer; the
/// content is random, so nothing is stated of it.
#[verifier::external_body]
pub(crate) fn random_key() -> (r: [u8; 32]) {
    let mut key = [0u8; 32];
    rand::thread_rng().fill_bytes(&mut key);
    key
}


pub open spec fn is_lower_hex(c: char) -> bool {
    ('0' <= c && c <= '9') || ('a' <= c && c <= 'f')
}

/// The text of a version 4 UUID: 36 characters, hyphens at 8, 13, 18 and 23,
/// lower-case hex digits elsewhere, version digit `4` and a variant digit of
/// `8`, `9`, `a` or `b`.
pub open spec fn is_uuid_v4_text(s: Seq<char>) -> bool {
    &&& s.len() == 36
    &&& forall|i: int| 0 <= i < 36 ==> (if i == 8 || i == 13 || i == 18 || i == 23 {
            s[i] == '-'
        } else {
            is_lower_hex(#[trigger] s[i])
        })
    &&& s[14] == '4'
    &&& (s[19] == '8' || s[19] == '9' || s[19] == 'a' || s[19] == 'b')
}

/// `uuid::Uuid::new_v4().to_string()`: a random version 4 UUID in its
/// hyphenated lower-case form; only that form is stated.
#[verifier::external_body]
pub(crate) fn random_uuid() -> (r: String)
    ensures
        is_uuid_v4_text(r@),
{
    uuid::Uuid::new_v4().to_string()
}

/// The SHA-256 digest of a byte string.
pub uninterp spec fn sha256_of_bytes(data: Seq<u8>) -> Seq<u8>;

/// `Sha256::digest(data)` (sha2): the 32-byte digest of `data`; the digest
/// itself is named, not described.
#[verifier::external_body]
pub(crate) fn sha256_bytes(data: &[u8]) -> (r: Vec<u8>)
    ensures
        r@ == sha256_of_bytes(data@),
        r@.len() == 32,
{
    <sha2::Sha256 as sha2::Digest>::digest(data).to_vec()
}

/// The SHA-256 digest of a text's UTF-8 bytes.
pub open spec fn sha256_of_utf8(text: Seq<char>) -> Seq<u8> {
    sha256_of_bytes(vstd::utf8::encode_utf8(text))
}

/// The SHA-256 digest of a text's UTF-8 bytes.
pub fn sha256_text(text: &str) -> (r: Vec<u8>)
    ensures
        r@ == sha256_of_utf8(text@),
        r@.len() == 32,
{
    sha256_bytes(text.as_bytes())
}

pub open spec fn hex_digit(n: u8) -> char {
    if n < 10 { (('0' as u8) + n) as char } else { (('a' as u8) + n - 10) as char }
}

/// Two lower-case hex digits per byte, high nibble first.
pub open spec fn hex_lower(bytes: Seq<u8>) -> Seq<char>
    decreases bytes.len(),
{
    if bytes.len() == 0 {
        Seq::empty()
    } else {
        hex_lower(bytes.drop_last()) + seq![hex_digit(bytes.last() / 16), hex_digit(bytes.last() % 16)]
    }
}

/// `hex::encode(bytes)`: two lower-case hex digits per byte, high nibble
/// first (the crate's `HEX_CHARS_LOWER` table).
#[verifier::external_body]
pub(crate) fn hex_encode(bytes: &[u8]) -> (r: String)
    ensures
        r@ == hex_lower(bytes@),
{
    hex::encode(bytes)
}

/// The lower-case hex text of the SHA-256 digest of `data`.
pub fn sha256_hex(data: &[u8]) -> (r: String)
    ensures
        r@ == hex_lower(sha256_of_bytes(data@)),
{
    let digest = sha256_bytes(data);
    hex_encode(digest.as_slice())
}

} // verus!
