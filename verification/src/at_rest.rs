//! Encryption at rest: master and project keys, the wrapped-key record,
//! per-project encryption policy, and the legacy `TSE1` chunked format.
use vstd::prelude::*;
use crate::text::{
    chars_of, decimal, ends_with, file_extension, flatten_name, flatten_separators, has_suffix, join_path,
    name_extension, path_join, push_decimal, push_str, string_of, trim, trim_bounds, trim_end_all,
    trim_end_matches, utf8_lossy, utf8_lossy_text,
};
use crate::crypto::{
    aes256gcm_decrypt, aes256gcm_encrypt, aes256gcm_open, aes256gcm_seal, base64_decode,
    base64_decoded, base64_encode, base64_encoded, gcm_plaintext_max, random_key, random_nonce,
};
use crate::text::string_views;

verus! {

/// Failures of the at-rest encryption layer.
#[derive(Debug, Clone, Copy, PartialEq, Eq, Structural)]
pub enum AtRestError {
    InvalidMasterKeyLength,
    MasterKeyRequired,
    InvalidBase64MasterKey,
    UnsupportedWrappedKeyVersion(u8),
    InvalidWrappedKeyNonce,
    InvalidWrappedKeyNonceLength,
    InvalidWrappedKeyPayload,
    UnwrapFailed,
    InvalidUnwrappedKeyLength,
    WrapFailed,
    Truncated,
    InvalidHeader,
    UnsupportedVersion,
    InvalidChunkSize,
    InvalidChunkLength,
    DecryptionFailed,
    ExceedsReadLimit(usize),
    TooManyChunks,
}

/// The text of each failure, as it is reported.
pub open spec fn at_rest_error_text(e: AtRestError) -> Seq<char> {
    match e {
        AtRestError::InvalidMasterKeyLength => "Invalid master key length: expected 32 bytes"@,
        AtRestError::MasterKeyRequired => "Encryption master key is required but not configured"@,
        AtRestError::InvalidBase64MasterKey => "Invalid base64 master key"@,
        AtRestError::UnsupportedWrappedKeyVersion(v) => "Unsupported wrapped key version: "@ + decimal(v as nat),
        AtRestError::InvalidWrappedKeyNonce => "Invalid wrapped key nonce"@,
        AtRestError::InvalidWrappedKeyNonceLength => "Invalid wrapped key nonce length"@,
        AtRestError::InvalidWrappedKeyPayload => "Invalid wrapped key payload"@,
        AtRestError::UnwrapFailed => "Failed to unwrap project key"@,
        AtRestError::InvalidUnwrappedKeyLength => "Invalid project key length after unwrap"@,
        AtRestError::WrapFailed => "Failed to wrap project key"@,
        AtRestError::Truncated => "Encrypted file is truncated"@,
        AtRestError::InvalidHeader => "Invalid encryption header"@,
        AtRestError::UnsupportedVersion => "Unsupported encryption version"@,
        AtRestError::InvalidChunkSize => "Invalid encrypted chunk size"@,
        AtRestError::InvalidChunkLength => "Invalid encrypted chunk length"@,
        AtRestError::DecryptionFailed => "Decryption failed"@,
        AtRestError::ExceedsReadLimit(max) => "Decrypted file exceeds "@ + decimal(max as nat) + " byte read limit"@,
        AtRestError::TooManyChunks => "Encrypted file contains too many chunks"@,
    }
}

impl AtRestError {
    /// The failure's message.
    pub fn message(&self) -> (r: String)
        ensures
            r@ == at_rest_error_text(*self),
    {
        let mut v: Vec<char> = Vec::new();
        match *self {
            AtRestError::InvalidMasterKeyLength => push_str(&mut v, "Invalid master key length: expected 32 bytes"),
            AtRestError::MasterKeyRequired => push_str(&mut v, "Encryption master key is required but not configured"),
            AtRestError::InvalidBase64MasterKey => push_str(&mut v, "Invalid base64 master key"),
            AtRestError::UnsupportedWrappedKeyVersion(n) => {
                push_str(&mut v, "Unsupported wrapped key version: ");
                push_decimal(&mut v, n as u64);
            },
            AtRestError::InvalidWrappedKeyNonce => push_str(&mut v, "Invalid wrapped key nonce"),
            AtRestError::InvalidWrappedKeyNonceLength => push_str(&mut v, "Invalid wrapped key nonce length"),
            AtRestError::InvalidWrappedKeyPayload => push_str(&mut v, "Invalid wrapped key payload"),
            AtRestError::UnwrapFailed => push_str(&mut v, "Failed to unwrap project key"),
            AtRestError::InvalidUnwrappedKeyLength => push_str(&mut v, "Invalid project key length after unwrap"),
            AtRestError::WrapFailed => push_str(&mut v, "Failed to wrap project key"),
            AtRestError::Truncated => push_str(&mut v, "Encrypted file is truncated"),
            AtRestError::InvalidHeader => push_str(&mut v, "Invalid encryption header"),
            AtRestError::UnsupportedVersion => push_str(&mut v, "Unsupported encryption version"),
            AtRestError::InvalidChunkSize => push_str(&mut v, "Invalid encrypted chunk size"),
            AtRestError::InvalidChunkLength => push_str(&mut v, "Invalid encrypted chunk length"),
            AtRestError::DecryptionFailed => push_str(&mut v, "Decryption failed"),
            AtRestError::ExceedsReadLimit(max) => {
                push_str(&mut v, "Decrypted file exceeds ");
                push_decimal(&mut v, max as u64);
                push_str(&mut v, " byte read limit");
            },
            AtRestError::TooManyChunks => push_str(&mut v, "Encrypted file contains too many chunks"),
        }
        string_of(v.as_slice())
    }
}

/// The 32-byte key that wraps every per-project key.
#[derive(Clone, Copy)]
pub struct MasterKey {
    key: [u8; 32],
}

impl View for MasterKey {
    type V = Seq<u8>;

    closed spec fn view(&self) -> Seq<u8> {
        self.key@
    }
}

impl MasterKey {
    /// Accepts exactly 32 bytes of key material.
    pub fn from_bytes(bytes: Vec<u8>) -> (r: Result<MasterKey, AtRestError>)
        ensures
            bytes@.len() == 32 <==> r is Ok,
            r matches Ok(k) ==> k@ == bytes@,
            r matches Err(e) ==> e == AtRestError::InvalidMasterKeyLength,
    {
        if bytes.len() != 32 {
            return Err(AtRestError::InvalidMasterKeyLength);
        }
        let key = key_from_slice(bytes.as_slice());
        Ok(MasterKey { key })
    }

    pub fn as_bytes(&self) -> (r: &[u8; 32])
        ensures
            r@ == self@,
            r@.len() == 32,
    {
        &self.key
    }
}

/// Copies 32 bytes into a key array.
pub fn key_from_slice(bytes: &[u8]) -> (key: [u8; 32])
    requires
        bytes@.len() == 32,
    ensures
        key@ == bytes@,
{
    let mut key = [0u8; 32];
    let mut i: usize = 0;
    while i < 32
        invariant
            i <= 32,
            bytes@.len() == 32,
            key@.len() == 32,
            forall|j: int| 0 <= j < i ==> key@[j] == bytes@[j],
        decreases 32 - i,
    {
        key[i] = bytes[i];
        i = i + 1;
    }
    assert(key@ =~= bytes@);
    key
}

/// Big-endian bytes of a 32-bit counter.
pub open spec fn be32(counter: u32) -> Seq<u8> {
    seq![
        (counter / 0x1000000) as u8,
        ((counter / 0x10000) % 0x100) as u8,
        ((counter / 0x100) % 0x100) as u8,
        (counter % 0x100) as u8,
    ]
}

/// The 12-byte chunk nonce: an 8-byte prefix, then the chunk counter big-endian.
pub open spec fn spec_nonce(prefix: Seq<u8>, counter: u32) -> Seq<u8> {
    prefix + be32(counter)
}

pub fn build_nonce(prefix: &[u8; 8], counter: u32) -> (n: [u8; 12])
    ensures
        n@ == spec_nonce(prefix@, counter),
{
    let b0 = (counter / 0x1000000) as u8;
    let b1 = ((counter / 0x10000) % 0x100) as u8;
    let b2 = ((counter / 0x100) % 0x100) as u8;
    let b3 = (counter % 0x100) as u8;
    let n = [prefix[0], prefix[1], prefix[2], prefix[3], prefix[4], prefix[5], prefix[6], prefix[7], b0, b1, b2, b3];
    assert(n@ =~= spec_nonce(prefix@, counter));
    n
}

/// Magic of the legacy chunked format.
pub open spec fn legacy_magic() -> Seq<u8> {
    seq![0x54u8, 0x53u8, 0x45u8, 0x31u8]
}

/// Largest legacy chunk of plaintext.
pub open spec fn legacy_max_chunk() -> nat {
    1024 * 1024
}

/// Little-endian 32-bit value stored at `at`.
pub open spec fn le32_at(data: Seq<u8>, at: int) -> nat {
    (data[at] + 0x100 * data[at + 1] + 0x10000 * data[at + 2] + 0x1000000 * data[at + 3]) as nat
}

/// Chunks of a legacy file from byte `pos` on, decoded into memory with the
/// plaintext bounded by `max`: each chunk is a little-endian length and that
/// many bytes of ciphertext, sealed under the nonce for its index.
pub open spec fn legacy_bounded_chunks(
    data: Seq<u8>,
    pos: int,
    key: Seq<u8>,
    prefix: Seq<u8>,
    index: u32,
    chunk_size: nat,
    max: nat,
    acc: Seq<u8>,
) -> Result<Seq<u8>, AtRestError>
    decreases data.len() - pos,
{
    if pos < 0 || pos >= data.len() {
        Ok(acc)
    } else if pos + 4 > data.len() {
        Err(AtRestError::Truncated)
    } else {
        let len = le32_at(data, pos);
        if len < 16 || len > chunk_size + 16 {
            Err(AtRestError::InvalidChunkLength)
        } else if pos + 4 + len > data.len() {
            Err(AtRestError::Truncated)
        } else {
            match aes256gcm_open(key, spec_nonce(prefix, index), data.subrange(pos + 4, pos + 4 + len)) {
                None => Err(AtRestError::DecryptionFailed),
                Some(p) => if acc.len() + p.len() > max {
                    Err(AtRestError::ExceedsReadLimit(max as usize))
                } else if index == u32::MAX {
                    Err(AtRestError::TooManyChunks)
                } else {
                    legacy_bounded_chunks(data, pos + 4 + len, key, prefix, (index + 1) as u32, chunk_size, max, acc + p)
                },
            }
        }
    }
}

/// A whole legacy file (anything but the current format's magic) decoded into
/// memory, refusing more than `max` bytes of plaintext.
pub open spec fn spec_decode_legacy_bounded(data: Seq<u8>, key: Seq<u8>, max: nat) -> Result<Seq<u8>, AtRestError> {
    if data.len() < 4 {
        Err(AtRestError::Truncated)
    } else if data.take(4) != legacy_magic() {
        Err(AtRestError::InvalidHeader)
    } else if data.len() < 5 {
        Err(AtRestError::Truncated)
    } else if data[4] != 1 {
        Err(AtRestError::UnsupportedVersion)
    } else if data.len() < 9 {
        Err(AtRestError::Truncated)
    } else if le32_at(data, 5) == 0 || le32_at(data, 5) > legacy_max_chunk() {
        Err(AtRestError::InvalidChunkSize)
    } else if data.len() < 17 {
        Err(AtRestError::Truncated)
    } else {
        legacy_bounded_chunks(data, 17, key, data.subrange(9, 17), 0, le32_at(data, 5), max, Seq::empty())
    }
}

proof fn lemma_bounded_chunks_limit(
    data: Seq<u8>,
    pos: int,
    key: Seq<u8>,
    prefix: Seq<u8>,
    index: u32,
    chunk_size: nat,
    max: nat,
    acc: Seq<u8>,
)
    requires
        acc.len() <= max,
    ensures
        legacy_bounded_chunks(data, pos, key, prefix, index, chunk_size, max, acc) matches Ok(p) ==> p.len() <= max,
    decreases data.len() - pos,
{
    if 0 <= pos < data.len() && pos + 4 <= data.len() {
        let len = le32_at(data, pos);
        if 16 <= len <= chunk_size + 16 && pos + 4 + len <= data.len() {
            if let Some(p) = aes256gcm_open(key, spec_nonce(prefix, index), data.subrange(pos + 4, pos + 4 + len)) {
                if acc.len() + p.len() <= max && index != u32::MAX {
                    lemma_bounded_chunks_limit(data, pos + 4 + len, key, prefix, (index + 1) as u32, chunk_size, max, acc + p);
                }
            }
        }
    }
}

/// A bounded read of a legacy file never yields more plaintext than its
/// limit.
pub proof fn bounded_legacy_reads_stay_within_the_limit(data: Seq<u8>, key: Seq<u8>, max: nat)
    ensures
        spec_decode_legacy_bounded(data, key, max) matches Ok(p) ==> p.len() <= max,
{
    if data.len() >= 17 {
        lemma_bounded_chunks_limit(data, 17, key, data.subrange(9, 17), 0, le32_at(data, 5), max, Seq::empty());
    }
}

fn read_le32(data: &[u8], at: usize) -> (v: u64)
    requires
        at + 4 <= data@.len(),
    ensures
        v == le32_at(data@, at as int),
        v <= u32::MAX,
{
    (data[at] as u64) + 0x100 * (data[at + 1] as u64) + 0x10000 * (data[at + 2] as u64)
        + 0x1000000 * (data[at + 3] as u64)
}

fn prefix_of(data: &[u8]) -> (p: [u8; 8])
    requires
        data@.len() >= 17,
    ensures
        p@ == data@.subrange(9, 17),
{
    let p = [data[9], data[10], data[11], data[12], data[13], data[14], data[15], data[16]];
    assert(p@ =~= data@.subrange(9, 17));
    p
}

/// Decodes a legacy `TSE1` file held in memory without writing any plaintext,
/// refusing more than `max_plaintext_bytes` of plaintext.
pub fn decode_legacy_bounded(data: &[u8], key: &[u8; 32], max_plaintext_bytes: usize) -> (r: Result<Vec<u8>, AtRestError>)
    ensures
        match r {
            Ok(v) => spec_decode_legacy_bounded(data@, key@, max_plaintext_bytes as nat) == Ok::<Seq<u8>, AtRestError>(v@),
            Err(e) => spec_decode_legacy_bounded(data@, key@, max_plaintext_bytes as nat) == Err::<Seq<u8>, AtRestError>(e),
        },
        r matches Ok(v) ==> v@.len() <= max_plaintext_bytes,
{
    if data.len() < 4 {
        return Err(AtRestError::Truncated);
    }
    if !(data[0] == 0x54 && data[1] == 0x53 && data[2] == 0x45 && data[3] == 0x31) {
        assert(data@.take(4) != legacy_magic()) by {
            if data@.take(4) == legacy_magic() {
                assert(data@.take(4)[0] == data@[0]);
                assert(data@.take(4)[1] == data@[1]);
                assert(data@.take(4)[2] == data@[2]);
                assert(data@.take(4)[3] == data@[3]);
            }
        }
        return Err(AtRestError::InvalidHeader);
    }
    assert(data@.take(4) =~= legacy_magic());
    if data.len() < 5 {
        return Err(AtRestError::Truncated);
    }
    if data[4] != 1 {
        return Err(AtRestError::UnsupportedVersion);
    }
    if data.len() < 9 {
        return Err(AtRestError::Truncated);
    }
    let chunk_size = read_le32(data, 5);
    if chunk_size == 0 || chunk_size > 1024 * 1024 {
        return Err(AtRestError::InvalidChunkSize);
    }
    if data.len() < 17 {
        return Err(AtRestError::Truncated);
    }
    let prefix = prefix_of(data);
    let ghost total = spec_decode_legacy_bounded(data@, key@, max_plaintext_bytes as nat);
    let mut out: Vec<u8> = Vec::new();
    let mut pos: usize = 17;
    let mut index: u32 = 0;
    while pos < data.len()
        invariant
            17 <= pos <= data@.len(),
            1 <= chunk_size <= 1024 * 1024,
            prefix@ == data@.subrange(9, 17),
            out@.len() <= max_plaintext_bytes,
            total == spec_decode_legacy_bounded(data@, key@, max_plaintext_bytes as nat),
            total == legacy_bounded_chunks(data@, pos as int, key@, prefix@, index, chunk_size as nat,
                max_plaintext_bytes as nat, out@),
        decreases data@.len() - pos,
    {
        if data.len() - pos < 4 {
            return Err(AtRestError::Truncated);
        }
        let len = read_le32(data, pos);
        if len < 16 || len > chunk_size + 16 {
            return Err(AtRestError::InvalidChunkLength);
        }
        let len = len as usize;
        if data.len() - pos - 4 < len {
            return Err(AtRestError::Truncated);
        }
        let nonce = build_nonce(&prefix, index);
        let ct = &data[pos + 4..pos + 4 + len];
        assert(ct@ == data@.subrange(pos + 4, pos + 4 + len));
        let plain = match aes256gcm_decrypt(key, &nonce, ct) {
            None => return Err(AtRestError::DecryptionFailed),
            Some(p) => p,
        };
        if plain.len() > max_plaintext_bytes - out.len() {
            return Err(AtRestError::ExceedsReadLimit(max_plaintext_bytes));
        }
        if index == u32::MAX {
            return Err(AtRestError::TooManyChunks);
        }
        let ghost before = out@;
        let mut i: usize = 0;
        while i < plain.len()
            invariant
                i <= plain@.len(),
                out@ == before + plain@.take(i as int),
            decreases plain@.len() - i,
        {
            out.push(plain[i]);
            i = i + 1;
            assert(plain@.take(i as int) =~= plain@.take(i - 1).push(plain@[i - 1]));
        }
        assert(plain@.take(plain@.len() as int) =~= plain@);
        pos = pos + 4 + len;
        index = index + 1;
    }
    Ok(out)
}

/// The stored form of a project key wrapped under the master key.
#[derive(Debug, Clone, PartialEq, Eq)]
pub struct WrappedKeyRecord {
    pub version: u8,
    pub nonce: String,
    pub wrapped_key: String,
    pub created_at: String,
}

/// The project key recovered from a wrapped-key record's fields.
pub open spec fn spec_unwrap_project_key(master: Seq<u8>, version: u8, nonce_text: Seq<char>, wrapped_text: Seq<char>) -> Result<Seq<u8>, AtRestError> {
    if version != 1 {
        Err(AtRestError::UnsupportedWrappedKeyVersion(version))
    } else {
        match base64_decoded(nonce_text) {
            None => Err(AtRestError::InvalidWrappedKeyNonce),
            Some(nonce) => if nonce.len() != 12 {
                Err(AtRestError::InvalidWrappedKeyNonceLength)
            } else {
                match base64_decoded(wrapped_text) {
                    None => Err(AtRestError::InvalidWrappedKeyPayload),
                    Some(wrapped) => match aes256gcm_open(master, nonce, wrapped) {
                        None => Err(AtRestError::UnwrapFailed),
                        Some(p) => if p.len() != 32 {
                            Err(AtRestError::InvalidUnwrappedKeyLength)
                        } else {
                            Ok(p)
                        },
                    },
                }
            },
        }
    }
}

pub open spec fn record_unwraps_to(master: Seq<u8>, record: WrappedKeyRecord, key: Seq<u8>) -> bool {
    spec_unwrap_project_key(master, record.version, record.nonce@, record.wrapped_key@) == Ok::<Seq<u8>, AtRestError>(key)
}

fn nonce_from_slice(bytes: &[u8]) -> (n: [u8; 12])
    requires
        bytes@.len() == 12,
    ensures
        n@ == bytes@,
{
    let n = [bytes[0], bytes[1], bytes[2], bytes[3], bytes[4], bytes[5], bytes[6], bytes[7], bytes[8], bytes[9], bytes[10], bytes[11]];
    assert(n@ =~= bytes@);
    n
}

/// Wraps a project key under the master key with the given nonce and creation
/// time. Unwrapping the record with the same master key gives the key back.
pub fn wrap_project_key_with(master: &MasterKey, project_key: &[u8; 32], nonce: [u8; 12], created_at: String) -> (r: Result<WrappedKeyRecord, AtRestError>)
    ensures
        r is Ok,
        r matches Ok(rec) ==> {
            &&& rec.version == 1
            &&& rec.nonce@ == base64_encoded(nonce@)
            &&& rec.wrapped_key@ == base64_encoded(aes256gcm_seal(master@, nonce@, project_key@))
            &&& rec.created_at == created_at
            &&& record_unwraps_to(master@, rec, project_key@)
        },
{
    let ciphertext = match aes256gcm_encrypt(master.as_bytes(), &nonce, project_key.as_slice()) {
        Some(c) => c,
        None => {
            assert(project_key@.len() <= gcm_plaintext_max());
            return Err(AtRestError::WrapFailed);
        },
    };
    let nonce_text = base64_encode(nonce.as_slice());
    let wrapped_text = base64_encode(ciphertext.as_slice());
    let rec = WrappedKeyRecord { version: 1, nonce: nonce_text, wrapped_key: wrapped_text, created_at };
    assert(project_key@.len() == 32);
    Ok(rec)
}

/// Where a project's key comes from: its wrapped-key record when there is
/// one, else an unwrapped key of the older layout (which is then wrapped and
/// removed), else a fresh random key.
#[derive(Debug, Clone, Copy, PartialEq, Eq, Structural)]
pub enum KeySource {
    Wrapped,
    Legacy,
    Fresh,
}

pub fn key_source(wrapped_exists: bool, legacy_exists: bool) -> (r: KeySource)
    ensures
        r == (if wrapped_exists { KeySource::Wrapped } else if legacy_exists { KeySource::Legacy } else { KeySource::Fresh }),
{
    if wrapped_exists {
        KeySource::Wrapped
    } else if legacy_exists {
        KeySource::Legacy
    } else {
        KeySource::Fresh
    }
}

/// A key file of the older layout holds exactly the 32 key bytes.
pub fn legacy_project_key(bytes: &[u8]) -> (r: Result<[u8; 32], &'static str>)
    ensures
        bytes@.len() == 32 ==> (r matches Ok(k) && k@ == bytes@),
        bytes@.len() != 32 ==> (r matches Err(e) && e@ == "Invalid encryption key length: expected 32 bytes"@),
{
    if bytes.len() != 32 {
        return Err("Invalid encryption key length: expected 32 bytes");
    }
    Ok(key_from_slice(bytes))
}

/// Current UTC time in RFC 3339 (`chrono::Utc::now().to_rfc3339()`). As
/// chrono writes it, the text is the date, `T`, the time to the second with an
/// optional fraction, and the offset of UTC, which is written `+00:00`; so it
/// is at least 25 characters and ends in `+00:00`. The clock's value is not
/// stated.
#[verifier::external_body]
pub(crate) fn now_rfc3339() -> (s: String)
    ensures
        s@.len() >= 25,
        ends_with(s@, "+00:00"@),
{
    chrono::Utc::now().to_rfc3339()
}

/// Wraps a project key under the master key with a fresh random nonce.
pub fn wrap_project_key(master: &MasterKey, project_key: &[u8; 32]) -> (r: Result<WrappedKeyRecord, AtRestError>)
    ensures
        r is Ok,
        r matches Ok(rec) ==> rec.version == 1 && record_unwraps_to(master@, rec, project_key@),
        r matches Ok(rec) ==> rec.created_at@.len() >= 25 && ends_with(rec.created_at@, "+00:00"@),
{
    let nonce = random_nonce();
    let created_at = now_rfc3339();
    wrap_project_key_with(master, project_key, nonce, created_at)
}

/// Recovers a project key from its wrapped-key record.
pub fn unwrap_project_key(master: &MasterKey, record: &WrappedKeyRecord) -> (r: Result<[u8; 32], AtRestError>)
    ensures
        match r {
            Ok(k) => spec_unwrap_project_key(master@, record.version, record.nonce@, record.wrapped_key@) == Ok::<Seq<u8>, AtRestError>(k@),
            Err(e) => spec_unwrap_project_key(master@, record.version, record.nonce@, record.wrapped_key@) == Err::<Seq<u8>, AtRestError>(e),
        },
{
    if record.version != 1 {
        return Err(AtRestError::UnsupportedWrappedKeyVersion(record.version));
    }
    let nonce = match base64_decode(record.nonce.as_str()) {
        None => return Err(AtRestError::InvalidWrappedKeyNonce),
        Some(n) => n,
    };
    if nonce.len() != 12 {
        return Err(AtRestError::InvalidWrappedKeyNonceLength);
    }
    let wrapped = match base64_decode(record.wrapped_key.as_str()) {
        None => return Err(AtRestError::InvalidWrappedKeyPayload),
        Some(w) => w,
    };
    let nonce = nonce_from_slice(nonce.as_slice());
    let plain = match aes256gcm_decrypt(master.as_bytes(), &nonce, wrapped.as_slice()) {
        None => return Err(AtRestError::UnwrapFailed),
        Some(p) => p,
    };
    if plain.len() != 32 {
        return Err(AtRestError::InvalidUnwrappedKeyLength);
    }
    Ok(key_from_slice(plain.as_slice()))
}

/// Where per-project keys are kept, and the master key that wraps them.
#[derive(Clone)]
pub struct ProjectKeyStore {
    root: String,
    master_key: MasterKey,
}

pub open spec fn spec_security_dir(projects_dir: Seq<char>) -> Seq<char> {
    path_join(projects_dir, seq!['_', 's', 'e', 'c', 'u', 'r', 'i', 't', 'y'])
}

pub open spec fn spec_keys_root(projects_dir: Seq<char>) -> Seq<char> {
    path_join(spec_security_dir(projects_dir), seq!['k', 'e', 'y', 's'])
}

/// `<project id with separators flattened><suffix>` under `dir`.
pub open spec fn spec_named_file(dir: Seq<char>, project_id: Seq<char>, suffix: Seq<char>) -> Seq<char> {
    path_join(dir, flatten_separators(project_id) + suffix)
}

pub open spec fn key_suffix() -> Seq<char> {
    seq!['.', 'k', 'e', 'y']
}

pub open spec fn json_suffix() -> Seq<char> {
    seq!['.', 'j', 's', 'o', 'n']
}

fn named_file(dir: &[char], project_id: &str, suffix: &str) -> (r: String)
    ensures
        r@ == spec_named_file(dir@, project_id@, suffix@),
{
    let mut name = flatten_name(project_id);
    push_str(&mut name, suffix);
    let joined = join_path(dir, name.as_slice());
    string_of(joined.as_slice())
}

impl ProjectKeyStore {
    pub closed spec fn spec_root(&self) -> Seq<char> {
        self.root@
    }

    pub closed spec fn spec_master(&self) -> Seq<u8> {
        self.master_key@
    }

    /// A key store rooted at `<projects_dir>/_security/keys`.
    pub fn new(projects_dir: &str, master_key: MasterKey) -> (s: Self)
        ensures
            s.spec_root() == spec_keys_root(projects_dir@),
            s.spec_master() == master_key@,
    {
        let dir = chars_of(projects_dir);
        let sec = join_path(dir.as_slice(), ['_', 's', 'e', 'c', 'u', 'r', 'i', 't', 'y'].as_slice());
        let keys = join_path(sec.as_slice(), ['k', 'e', 'y', 's'].as_slice());
        proof {
            assert(['_', 's', 'e', 'c', 'u', 'r', 'i', 't', 'y']@ =~= seq!['_', 's', 'e', 'c', 'u', 'r', 'i', 't', 'y']);
            assert(['k', 'e', 'y', 's']@ =~= seq!['k', 'e', 'y', 's']);
        }
        ProjectKeyStore { root: string_of(keys.as_slice()), master_key }
    }

    pub fn root(&self) -> (r: &str)
        ensures
            r@ == self.spec_root(),
    {
        self.root.as_str()
    }

    pub fn master_key(&self) -> (r: MasterKey)
        ensures
            r@ == self.spec_master(),
    {
        self.master_key
    }

    /// `<root>/<id>.key`: where an unwrapped key of an older layout is kept.
    pub fn legacy_key_path(&self, project_id: &str) -> (r: String)
        ensures
            r@ == spec_named_file(self.spec_root(), project_id@, key_suffix()),
    {
        let root = chars_of(self.root.as_str());
        let r = named_file(root.as_slice(), project_id, ".key");
        proof { reveal_strlit(".key"); assert(".key"@ =~= key_suffix()); }
        r
    }

    /// `<root>/<id>.json`: the wrapped-key record.
    pub fn wrapped_key_path(&self, project_id: &str) -> (r: String)
        ensures
            r@ == spec_named_file(self.spec_root(), project_id@, json_suffix()),
    {
        let root = chars_of(self.root.as_str());
        let r = named_file(root.as_slice(), project_id, ".json");
        proof { reveal_strlit(".json"); assert(".json"@ =~= json_suffix()); }
        r
    }
}

pub open spec fn spec_marker_dir(projects_dir: Seq<char>) -> Seq<char> {
    path_join(spec_security_dir(projects_dir), seq!['e', 'n', 'c', 'r', 'y', 'p', 't', 'e', 'd'])
}

/// `<projects_dir>/_security/encrypted/<id>.json`: the marker of an encrypted project.
pub fn project_marker_path(projects_dir: &str, project_id: &str) -> (r: String)
    ensures
        r@ == spec_named_file(spec_marker_dir(projects_dir@), project_id@, json_suffix()),
{
    let dir = chars_of(projects_dir);
    let sec = join_path(dir.as_slice(), ['_', 's', 'e', 'c', 'u', 'r', 'i', 't', 'y'].as_slice());
    let enc = join_path(sec.as_slice(), ['e', 'n', 'c', 'r', 'y', 'p', 't', 'e', 'd'].as_slice());
    proof {
        assert(['_', 's', 'e', 'c', 'u', 'r', 'i', 't', 'y']@ =~= seq!['_', 's', 'e', 'c', 'u', 'r', 'i', 't', 'y']);
        assert(['e', 'n', 'c', 'r', 'y', 'p', 't', 'e', 'd']@ =~= seq!['e', 'n', 'c', 'r', 'y', 'p', 't', 'e', 'd']);
    }
    let r = named_file(enc.as_slice(), project_id, ".json");
    proof { reveal_strlit(".json"); assert(".json"@ =~= json_suffix()); }
    r
}

/// The privacy settings that encryption at rest reads.
#[derive(Debug, Clone, PartialEq, Eq)]
pub struct PrivacyConfig {
    pub encrypt_at_rest: Option<bool>,
    pub encrypt_scopes: Option<Vec<String>>,
    pub encrypt_min_age_seconds: Option<u64>,
    pub encrypt_sweep_interval_seconds: Option<u64>,
    pub encryption_master_key_path: Option<String>,
}

/// Which parts of a project are encrypted, and how old a file must be first.
#[derive(Debug, Clone, PartialEq, Eq)]
pub struct EncryptionPolicy {
    pub scopes: Vec<String>,
    pub min_age_seconds: u64,
}

/// Counts kept while a project tree is encrypted or decrypted.
#[derive(Debug, Clone, Copy, PartialEq, Eq, Structural)]
pub struct EncryptionReport {
    pub encrypted_files: usize,
    pub decrypted_files: usize,
    pub skipped_files: usize,
    pub bytes_in: u64,
    pub bytes_out: u64,
}

impl EncryptionReport {
    pub fn new() -> (r: Self)
        ensures
            r == (EncryptionReport { encrypted_files: 0, decrypted_files: 0, skipped_files: 0, bytes_in: 0, bytes_out: 0 }),
    {
        EncryptionReport { encrypted_files: 0, decrypted_files: 0, skipped_files: 0, bytes_in: 0, bytes_out: 0 }
    }
}

pub open spec fn default_scope_names() -> Seq<Seq<char>> {
    seq![seq!['r', 'a', 'w'], seq!['p', 'r', 'o', 'c', 'e', 's', 's', 'e', 'd'], seq!['o', 'u', 't', 'p', 'u', 't']]
}

/// Encryption is required when the configuration asks for it or some project
/// carries an encryption marker.
pub open spec fn spec_encryption_required(encrypt_at_rest: Option<bool>, any_marker: bool) -> bool {
    encrypt_at_rest == Some(true) || any_marker
}

pub fn encryption_required(config: &PrivacyConfig, any_marker_exists: bool) -> (b: bool)
    ensures
        b == spec_encryption_required(config.encrypt_at_rest, any_marker_exists),
{
    match config.encrypt_at_rest {
        Some(true) => true,
        _ => any_marker_exists,
    }
}

fn default_scopes() -> (v: Vec<String>)
    ensures
        string_views(v@) == default_scope_names(),
{
    let mut v: Vec<String> = Vec::new();
    v.push(string_of(['r', 'a', 'w'].as_slice()));
    v.push(string_of(['p', 'r', 'o', 'c', 'e', 's', 's', 'e', 'd'].as_slice()));
    v.push(string_of(['o', 'u', 't', 'p', 'u', 't'].as_slice()));
    assert(string_views(v@) =~= default_scope_names());
    v
}

/// A project has an encryption policy when the configuration enables
/// encryption or the project carries a marker.
pub open spec fn spec_policy_enabled(encrypt_at_rest: Option<bool>, marker_exists: bool) -> bool {
    encrypt_at_rest == Some(true) || marker_exists
}

/// Whenever some project has an encryption policy, encryption is required,
/// provided that project's marker is among the markers counted.
pub proof fn projects_with_a_policy_require_encryption(encrypt_at_rest: Option<bool>, marker_exists: bool, any_marker_exists: bool)
    requires
        marker_exists ==> any_marker_exists,
    ensures
        spec_policy_enabled(encrypt_at_rest, marker_exists) ==> spec_encryption_required(encrypt_at_rest, any_marker_exists),
{
}

/// The policy of a project: `None` unless the configuration enables
/// encryption or the project is marked; the scopes come from the marker, else
/// the configuration, else `raw`, `processed` and `output`; files must be 60
/// seconds old unless configured otherwise.
pub fn policy_for_project(marker_scopes: Option<Vec<String>>, config: &PrivacyConfig, marker_exists: bool) -> (r: Option<EncryptionPolicy>)
    ensures
        r is Some <==> spec_policy_enabled(config.encrypt_at_rest, marker_exists),
        r matches Some(p) ==> {
            &&& string_views(p.scopes@) == match marker_scopes {
                Some(m) => string_views(m@),
                None => match config.encrypt_scopes {
                    Some(c) => string_views(c@),
                    None => default_scope_names(),
                },
            }
            &&& p.min_age_seconds == match config.encrypt_min_age_seconds {
                Some(a) => a,
                None => 60u64,
            }
        },
{
    let enabled = match config.encrypt_at_rest {
        Some(true) => true,
        _ => marker_exists,
    };
    if !enabled {
        return None;
    }
    let scopes = match marker_scopes {
        Some(m) => m,
        None => match &config.encrypt_scopes {
            Some(c) => c.clone(),
            None => default_scopes(),
        },
    };
    let min_age_seconds = match config.encrypt_min_age_seconds {
        Some(a) => a,
        None => 60,
    };
    Some(EncryptionPolicy { scopes, min_age_seconds })
}

/// The scopes named by an encryption marker: its string entries in order,
/// `None` when there are none (or the marker has no scope list).
pub fn marker_scopes(entries: Option<Vec<Option<String>>>) -> (r: Option<Vec<String>>)
    ensures
        match entries {
            None => r is None,
            Some(e) => {
                let kept = e@.filter_map(|x: Option<String>| match x { Some(t) => Some(t@), None => None });
                &&& (r is None <==> kept.len() == 0)
                &&& (r matches Some(v) ==> string_views(v@) == kept)
            },
        },
{
    match entries {
        None => None,
        Some(e) => {
            let mut out: Vec<String> = Vec::new();
            let mut i: usize = 0;
            while i < e.len()
                invariant
                    i <= e@.len(),
                    string_views(out@) == e@.take(i as int).filter_map(|x: Option<String>| match x { Some(t) => Some(t@), None => None }),
                decreases e@.len() - i,
            {
                let ghost before = e@.take(i as int);
                assert(e@.take(i + 1).drop_last() =~= before);
                match &e[i] {
                    Some(s) => {
                        out.push(s.clone());
                        assert(string_views(out@) =~= string_views(out@.drop_last()).push(s@));
                    },
                    None => {},
                }
                i = i + 1;
            }
            assert(e@.take(e@.len() as int) =~= e@);
            if out.len() == 0 {
                None
            } else {
                Some(out)
            }
        },
    }
}

/// A loaded master key, or the error for a key that is required but absent.
pub fn require_master_key(loaded: Result<Option<MasterKey>, AtRestError>) -> (r: Result<MasterKey, AtRestError>)
    ensures
        match loaded {
            Ok(Some(k)) => r matches Ok(k2) && k2@ == k@,
            Ok(None) => r == Err::<MasterKey, AtRestError>(AtRestError::MasterKeyRequired),
            Err(e) => r == Err::<MasterKey, AtRestError>(e),
        },
{
    match loaded {
        Ok(Some(k)) => Ok(k),
        Ok(None) => Err(AtRestError::MasterKeyRequired),
        Err(e) => Err(e),
    }
}

/// A master key given as base64 text (the environment variable form).
pub fn master_key_from_base64(text: &str) -> (r: Result<MasterKey, AtRestError>)
    ensures
        match base64_decoded(text@) {
            None => r == Err::<MasterKey, AtRestError>(AtRestError::InvalidBase64MasterKey),
            Some(b) => if b.len() == 32 {
                r matches Ok(k) && k@ == b
            } else {
                r == Err::<MasterKey, AtRestError>(AtRestError::InvalidMasterKeyLength)
            },
        },
{
    match base64_decode(text) {
        None => Err(AtRestError::InvalidBase64MasterKey),
        Some(b) => MasterKey::from_bytes(b),
    }
}

/// Plaintext recovered from a legacy file when it is decrypted to a new file,
/// the ciphertext and plaintext byte counts, and the failure that stopped the
/// copy, if any (the plaintext before that failure has already been written).
#[derive(Debug, Clone, PartialEq, Eq)]
pub struct LegacyStream {
    pub plaintext: Vec<u8>,
    pub bytes_in: u64,
    pub bytes_out: u64,
    pub error: Option<AtRestError>,
}

pub open spec fn sat_add(a: u64, b: int) -> u64 {
    if a + b > u64::MAX { u64::MAX } else { (a + b) as u64 }
}

/// The chunk loop of a legacy file decrypted to a new file: a missing or short
/// length field, or a zero length, ends the file; the counter stops at its
/// largest value instead of failing.
pub open spec fn legacy_stream_chunks(
    data: Seq<u8>,
    pos: int,
    key: Seq<u8>,
    prefix: Seq<u8>,
    index: u32,
    acc: Seq<u8>,
    bytes_in: u64,
    bytes_out: u64,
) -> (Seq<u8>, u64, u64, Option<AtRestError>)
    decreases data.len() - pos,
{
    if pos < 0 || pos + 4 > data.len() {
        (acc, bytes_in, bytes_out, None)
    } else {
        let len = le32_at(data, pos);
        if len == 0 {
            (acc, bytes_in, bytes_out, None)
        } else if pos + 4 + len > data.len() {
            (acc, bytes_in, bytes_out, Some(AtRestError::Truncated))
        } else {
            let bin = sat_add(bytes_in, len as int);
            match aes256gcm_open(key, spec_nonce(prefix, index), data.subrange(pos + 4, pos + 4 + len)) {
                None => (acc, bin, bytes_out, Some(AtRestError::DecryptionFailed)),
                Some(p) => legacy_stream_chunks(
                    data,
                    pos + 4 + len,
                    key,
                    prefix,
                    if index == u32::MAX { u32::MAX } else { (index + 1) as u32 },
                    acc + p,
                    bin,
                    sat_add(bytes_out, p.len() as int),
                ),
            }
        }
    }
}

/// A legacy file decrypted to a new file: header failures come before anything
/// is written; chunk failures after some plaintext may have been.
pub open spec fn spec_decode_legacy_stream(data: Seq<u8>, key: Seq<u8>) -> Result<(Seq<u8>, u64, u64, Option<AtRestError>), AtRestError> {
    if data.len() < 4 {
        Err(AtRestError::Truncated)
    } else if data.take(4) != legacy_magic() {
        Err(AtRestError::InvalidHeader)
    } else if data.len() < 5 {
        Err(AtRestError::Truncated)
    } else if data[4] != 1 {
        Err(AtRestError::UnsupportedVersion)
    } else if data.len() < 17 {
        Err(AtRestError::Truncated)
    } else {
        Ok(legacy_stream_chunks(data, 17, key, data.subrange(9, 17), 0, Seq::empty(), 0, 0))
    }
}

/// A 32-bit value as four little-endian bytes.
pub open spec fn le32_bytes(v: nat) -> Seq<u8> {
    seq![(v % 256) as u8, ((v / 256) % 256) as u8, ((v / 65536) % 256) as u8, ((v / 16777216) % 256) as u8]
}

/// The chunk records of a legacy file: each ciphertext after its length.
pub open spec fn legacy_chunk_records(cts: Seq<Seq<u8>>) -> Seq<u8>
    decreases cts.len(),
{
    if cts.len() == 0 {
        Seq::empty()
    } else {
        le32_bytes(cts[0].len()) + cts[0] + legacy_chunk_records(cts.drop_first())
    }
}

/// A legacy file as it is written: `TSE1`, version 1, the chunk size, the
/// 8-byte nonce prefix, then the chunk records.
pub open spec fn legacy_file(chunk_size: nat, prefix: Seq<u8>, cts: Seq<Seq<u8>>) -> Seq<u8> {
    legacy_magic() + seq![1u8] + le32_bytes(chunk_size) + prefix + legacy_chunk_records(cts)
}

/// The chunks one after another.
pub open spec fn joined_chunks(s: Seq<Seq<u8>>) -> Seq<u8>
    decreases s.len(),
{
    if s.len() == 0 { Seq::empty() } else { joined_chunks(s.drop_last()) + s.last() }
}

/// Chunk `i` of the plaintext was sealed under the nonce for counter `i`.
pub open spec fn chunks_sealed(key: Seq<u8>, prefix: Seq<u8>, plains: Seq<Seq<u8>>, cts: Seq<Seq<u8>>) -> bool {
    &&& cts.len() == plains.len()
    &&& forall|i: int| 0 <= i < cts.len() ==> aes256gcm_open(key, spec_nonce(prefix, i as u32), #[trigger] cts[i]) == Some(plains[i])
}

proof fn lemma_le32_read(data: Seq<u8>, pos: int, v: nat)
    requires
        v < 0x1_0000_0000,
        0 <= pos,
        pos + 4 <= data.len(),
        data.subrange(pos, pos + 4) == le32_bytes(v),
    ensures
        le32_at(data, pos) == v,
{
    assert(data[pos] == data.subrange(pos, pos + 4)[0]);
    assert(data[pos + 1] == data.subrange(pos, pos + 4)[1]);
    assert(data[pos + 2] == data.subrange(pos, pos + 4)[2]);
    assert(data[pos + 3] == data.subrange(pos, pos + 4)[3]);
    assert(data[pos] == v % 256);
    assert(data[pos + 1] == (v / 256) % 256);
    assert(data[pos + 2] == (v / 65536) % 256);
    assert(data[pos + 3] == (v / 16777216) % 256);
}

proof fn lemma_joined_prefix(s: Seq<Seq<u8>>, k: int)
    requires
        0 <= k <= s.len(),
    ensures
        joined_chunks(s.take(k)).len() <= joined_chunks(s).len(),
    decreases s.len() - k,
{
    if k < s.len() {
        lemma_joined_prefix(s, k + 1);
        assert(s.take(k + 1).drop_last() =~= s.take(k));
    } else {
        assert(s.take(k) =~= s);
    }
}

proof fn lemma_record_split(data: Seq<u8>, pos: int, cts: Seq<Seq<u8>>, k: int)
    requires
        0 <= k < cts.len(),
        0 <= pos <= data.len(),
        data.subrange(pos, data.len() as int) == legacy_chunk_records(cts.skip(k)),
    ensures
        pos + 4 + cts[k].len() <= data.len(),
        data.subrange(pos, pos + 4) == le32_bytes(cts[k].len()),
        data.subrange(pos + 4, pos + 4 + cts[k].len()) == cts[k],
        data.subrange(pos + 4 + cts[k].len(), data.len() as int) == legacy_chunk_records(cts.skip(k + 1)),
{
    let rest = cts.skip(k);
    assert(rest[0] == cts[k]);
    assert(rest.drop_first() =~= cts.skip(k + 1));
    let whole = data.subrange(pos, data.len() as int);
    let len = cts[k].len() as int;
    assert(whole == le32_bytes(cts[k].len()) + cts[k] + legacy_chunk_records(cts.skip(k + 1)));
    assert(data.subrange(pos, pos + 4) =~= whole.subrange(0, 4));
    assert(data.subrange(pos + 4, pos + 4 + len) =~= whole.subrange(4, 4 + len));
    assert(data.subrange(pos + 4 + len, data.len() as int) =~= whole.subrange(4 + len, whole.len() as int));
}

proof fn lemma_bounded_decodes(
    data: Seq<u8>,
    pos: int,
    key: Seq<u8>,
    prefix: Seq<u8>,
    chunk_size: nat,
    max: nat,
    plains: Seq<Seq<u8>>,
    cts: Seq<Seq<u8>>,
    k: int,
)
    requires
        0 <= k <= cts.len(),
        cts.len() <= u32::MAX,
        chunk_size <= legacy_max_chunk(),
        chunks_sealed(key, prefix, plains, cts),
        forall|i: int| 0 <= i < cts.len() ==> 16 <= (#[trigger] cts[i]).len() <= chunk_size + 16,
        joined_chunks(plains).len() <= max,
        0 <= pos <= data.len(),
        data.subrange(pos, data.len() as int) == legacy_chunk_records(cts.skip(k)),
    ensures
        legacy_bounded_chunks(data, pos, key, prefix, k as u32, chunk_size, max, joined_chunks(plains.take(k)))
            == Ok::<Seq<u8>, AtRestError>(joined_chunks(plains)),
    decreases cts.len() - k,
{
    if k == cts.len() {
        assert(cts.skip(k) =~= Seq::<Seq<u8>>::empty());
        assert(data.subrange(pos, data.len() as int).len() == 0);
        assert(plains.take(k) =~= plains);
    } else {
        lemma_record_split(data, pos, cts, k);
        let len = cts[k].len();
        lemma_le32_read(data, pos, len);
        assert(aes256gcm_open(key, spec_nonce(prefix, k as u32), cts[k]) == Some(plains[k]));
        assert(plains.take(k + 1).drop_last() =~= plains.take(k));
        assert(joined_chunks(plains.take(k + 1)) == joined_chunks(plains.take(k)) + plains[k]);
        lemma_joined_prefix(plains, k + 1);
        assert(((k as u32) + 1) as u32 == (k + 1) as u32);
        lemma_bounded_decodes(data, pos + 4 + len, key, prefix, chunk_size, max, plains, cts, k + 1);
    }
}

proof fn lemma_stream_decodes(
    data: Seq<u8>,
    pos: int,
    key: Seq<u8>,
    prefix: Seq<u8>,
    plains: Seq<Seq<u8>>,
    cts: Seq<Seq<u8>>,
    k: int,
    bytes_in: u64,
    bytes_out: u64,
)
    requires
        0 <= k <= cts.len(),
        cts.len() <= u32::MAX,
        chunks_sealed(key, prefix, plains, cts),
        forall|i: int| 0 <= i < cts.len() ==> 16 <= (#[trigger] cts[i]).len() <= legacy_max_chunk() + 16,
        0 <= pos <= data.len(),
        data.subrange(pos, data.len() as int) == legacy_chunk_records(cts.skip(k)),
    ensures
        legacy_stream_chunks(data, pos, key, prefix, k as u32, joined_chunks(plains.take(k)), bytes_in, bytes_out).0
            == joined_chunks(plains),
        legacy_stream_chunks(data, pos, key, prefix, k as u32, joined_chunks(plains.take(k)), bytes_in, bytes_out).3
            is None,
    decreases cts.len() - k,
{
    if k == cts.len() {
        assert(cts.skip(k) =~= Seq::<Seq<u8>>::empty());
        assert(data.subrange(pos, data.len() as int).len() == 0);
        assert(plains.take(k) =~= plains);
    } else {
        lemma_record_split(data, pos, cts, k);
        let len = cts[k].len();
        lemma_le32_read(data, pos, len);
        assert(aes256gcm_open(key, spec_nonce(prefix, k as u32), cts[k]) == Some(plains[k]));
        assert(plains.take(k + 1).drop_last() =~= plains.take(k));
        assert(joined_chunks(plains.take(k + 1)) == joined_chunks(plains.take(k)) + plains[k]);
        assert(((k as u32) + 1) as u32 == (k + 1) as u32);
        lemma_stream_decodes(data, pos + 4 + len, key, prefix, plains, cts, k + 1,
            sat_add(bytes_in, len as int), sat_add(bytes_out, plains[k].len() as int));
    }
}

/// A legacy file written from a payload cut into chunks, each chunk `i`
/// sealed under the nonce for counter `i`, reads back as the whole payload:
/// a bounded read whose limit the payload fits gives it, and a streamed read
/// gives it with no chunk failure.
pub proof fn legacy_files_read_back_their_sealed_chunks(
    key: Seq<u8>,
    prefix: Seq<u8>,
    chunk_size: nat,
    plains: Seq<Seq<u8>>,
    cts: Seq<Seq<u8>>,
    max: nat,
)
    requires
        prefix.len() == 8,
        0 < chunk_size <= legacy_max_chunk(),
        cts.len() <= u32::MAX,
        chunks_sealed(key, prefix, plains, cts),
        forall|i: int| 0 <= i < cts.len() ==> 16 <= (#[trigger] cts[i]).len() <= chunk_size + 16,
        joined_chunks(plains).len() <= max,
    ensures
        spec_decode_legacy_bounded(legacy_file(chunk_size, prefix, cts), key, max)
            == Ok::<Seq<u8>, AtRestError>(joined_chunks(plains)),
        spec_decode_legacy_stream(legacy_file(chunk_size, prefix, cts), key) matches Ok((p, _, _, e))
            && p == joined_chunks(plains) && e is None,
{
    let data = legacy_file(chunk_size, prefix, cts);
    let recs = legacy_chunk_records(cts);
    assert(data.len() >= 17);
    assert(data.take(4) =~= legacy_magic());
    assert(data[4] == 1u8);
    assert(data.subrange(5, 9) =~= le32_bytes(chunk_size));
    lemma_le32_read(data, 5, chunk_size);
    assert(data.subrange(9, 17) =~= prefix);
    assert(cts.skip(0) =~= cts);
    assert(data.subrange(17, data.len() as int) =~= recs);
    assert(plains.take(0) =~= Seq::<Seq<u8>>::empty());
    assert(joined_chunks(plains.take(0)) =~= Seq::<u8>::empty());
    assert forall|i: int| 0 <= i < cts.len() implies 16 <= (#[trigger] cts[i]).len() <= legacy_max_chunk() + 16 by {
        assert(16 <= cts[i].len() <= chunk_size + 16);
    }
    lemma_bounded_decodes(data, 17, key, prefix, chunk_size, max, plains, cts, 0);
    lemma_stream_decodes(data, 17, key, prefix, plains, cts, 0, 0, 0);
}

/// Decodes a legacy `TSE1` file held in memory the way it is decrypted to a
/// new file.
pub fn decode_legacy_stream(data: &[u8], key: &[u8; 32]) -> (r: Result<LegacyStream, AtRestError>)
    ensures
        match r {
            Ok(st) => spec_decode_legacy_stream(data@, key@)
                == Ok::<(Seq<u8>, u64, u64, Option<AtRestError>), AtRestError>((st.plaintext@, st.bytes_in, st.bytes_out, st.error)),
            Err(e) => spec_decode_legacy_stream(data@, key@) == Err::<(Seq<u8>, u64, u64, Option<AtRestError>), AtRestError>(e),
        },
{
    if data.len() < 4 {
        return Err(AtRestError::Truncated);
    }
    if !(data[0] == 0x54 && data[1] == 0x53 && data[2] == 0x45 && data[3] == 0x31) {
        assert(data@.take(4) != legacy_magic()) by {
            if data@.take(4) == legacy_magic() {
                assert(data@.take(4)[0] == data@[0]);
                assert(data@.take(4)[1] == data@[1]);
                assert(data@.take(4)[2] == data@[2]);
                assert(data@.take(4)[3] == data@[3]);
            }
        }
        return Err(AtRestError::InvalidHeader);
    }
    assert(data@.take(4) =~= legacy_magic());
    if data.len() < 5 {
        return Err(AtRestError::Truncated);
    }
    if data[4] != 1 {
        return Err(AtRestError::UnsupportedVersion);
    }
    if data.len() < 17 {
        return Err(AtRestError::Truncated);
    }
    let prefix = prefix_of(data);
    let ghost total = legacy_stream_chunks(data@, 17, key@, prefix@, 0, Seq::empty(), 0, 0);
    let mut out: Vec<u8> = Vec::new();
    let mut pos: usize = 17;
    let mut index: u32 = 0;
    let mut bytes_in: u64 = 0;
    let mut bytes_out: u64 = 0;
    loop
        invariant
            17 <= pos <= data@.len(),
            prefix@ == data@.subrange(9, 17),
            spec_decode_legacy_stream(data@, key@) == Ok::<(Seq<u8>, u64, u64, Option<AtRestError>), AtRestError>(total),
            total == legacy_stream_chunks(data@, pos as int, key@, prefix@, index, out@, bytes_in, bytes_out),
        decreases data@.len() - pos,
    {
        if data.len() - pos < 4 {
            return Ok(LegacyStream { plaintext: out, bytes_in, bytes_out, error: None });
        }
        let len = read_le32(data, pos);
        if len == 0 {
            return Ok(LegacyStream { plaintext: out, bytes_in, bytes_out, error: None });
        }
        let len = len as usize;
        if data.len() - pos - 4 < len {
            return Ok(LegacyStream { plaintext: out, bytes_in, bytes_out, error: Some(AtRestError::Truncated) });
        }
        bytes_in = bytes_in.saturating_add(len as u64);
        let nonce = build_nonce(&prefix, index);
        let ct = &data[pos + 4..pos + 4 + len];
        assert(ct@ == data@.subrange(pos + 4, pos + 4 + len));
        let plain = match aes256gcm_decrypt(key, &nonce, ct) {
            None => return Ok(LegacyStream { plaintext: out, bytes_in, bytes_out, error: Some(AtRestError::DecryptionFailed) }),
            Some(p) => p,
        };
        bytes_out = bytes_out.saturating_add(plain.len() as u64);
        let ghost before = out@;
        let mut i: usize = 0;
        while i < plain.len()
            invariant
                i <= plain@.len(),
                out@ == before + plain@.take(i as int),
            decreases plain@.len() - i,
        {
            out.push(plain[i]);
            i = i + 1;
            assert(plain@.take(i as int) =~= plain@.take(i - 1).push(plain@[i - 1]));
        }
        assert(plain@.take(plain@.len() as int) =~= plain@);
        pos = pos + 4 + len;
        index = index.saturating_add(1);
    }
}

pub open spec fn enc_ext() -> Seq<char> {
    seq!['e', 'n', 'c']
}

pub open spec fn dot_enc() -> Seq<char> {
    seq!['.', 'e', 'n', 'c']
}

/// Whether a file name has the `enc` extension of an encrypted artifact.
pub fn is_encrypted_name(name: &str) -> (b: bool)
    ensures
        b == (name_extension(name@) == Some(enc_ext())),
{
    let v = chars_of(name);
    match file_extension(v.as_slice()) {
        None => false,
        Some(e) => {
            let b = e.len() == 3 && e[0] == 'e' && e[1] == 'n' && e[2] == 'c';
            proof {
                if b {
                    assert(e@ =~= enc_ext());
                } else if e@ == enc_ext() {
                    assert(e@.len() == 3 && e@[0] == 'e' && e@[1] == 'n' && e@[2] == 'c');
                }
            }
            b
        },
    }
}

/// The file name of the decrypted copy of `name`: every trailing `.enc`
/// removed, when the name ends with `.enc`.
pub fn decrypted_file_name(name: &str) -> (r: Option<String>)
    ensures
        ends_with(name@, dot_enc()) <==> r is Some,
        r matches Some(n) ==> n@ == trim_end_all(name@, dot_enc()),
{
    let v = chars_of(name);
    let suffix = ['.', 'e', 'n', 'c'];
    assert(suffix@ =~= dot_enc());
    if !has_suffix(v.as_slice(), suffix.as_slice()) {
        return None;
    }
    let t = trim_end_matches(v.as_slice(), suffix.as_slice());
    Some(string_of(t.as_slice()))
}

/// Whether a file is old enough to encrypt: always when no age is required,
/// otherwise when its age in whole seconds is known and reaches the minimum.
pub fn file_is_stable(min_age_seconds: u64, age_seconds: Option<u64>) -> (b: bool)
    ensures
        b == (min_age_seconds == 0 || (age_seconds matches Some(a) && a >= min_age_seconds)),
{
    if min_age_seconds == 0 {
        return true;
    }
    match age_seconds {
        Some(a) => a >= min_age_seconds,
        None => false,
    }
}

/// What a sweep does with one regular file of an encrypted scope.
#[derive(Debug, Clone, Copy, PartialEq, Eq, Structural)]
pub enum EncryptStep {
    /// Already an encrypted artifact.
    SkipEncrypted,
    /// An authenticated encrypted copy with the same content exists: the
    /// plaintext is removed.
    RemoveCommittedPlaintext,
    /// An encrypted copy exists but does not match: the sweep fails.
    MismatchedDestination,
    /// Too recently written.
    NotStable,
    /// Encrypt the file.
    Encrypt,
}

/// The decision for one file of a tree sweep, in the order the sweep checks.
pub fn encrypt_tree_step(name_is_encrypted: bool, encrypted_copy_exists: bool, copy_matches: bool, stable: bool) -> (r: EncryptStep)
    ensures
        r == (if name_is_encrypted {
            EncryptStep::SkipEncrypted
        } else if encrypted_copy_exists {
            if copy_matches { EncryptStep::RemoveCommittedPlaintext } else { EncryptStep::MismatchedDestination }
        } else if !stable {
            EncryptStep::NotStable
        } else {
            EncryptStep::Encrypt
        }),
{
    if name_is_encrypted {
        EncryptStep::SkipEncrypted
    } else if encrypted_copy_exists {
        if copy_matches { EncryptStep::RemoveCommittedPlaintext } else { EncryptStep::MismatchedDestination }
    } else if !stable {
        EncryptStep::NotStable
    } else {
        EncryptStep::Encrypt
    }
}

/// The decision for encrypting a single file in place: stability is checked
/// before an existing encrypted copy.
pub fn encrypt_in_place_step(name_is_encrypted: bool, stable: bool, encrypted_copy_exists: bool, copy_matches: bool) -> (r: EncryptStep)
    ensures
        r == (if name_is_encrypted {
            EncryptStep::SkipEncrypted
        } else if !stable {
            EncryptStep::NotStable
        } else if encrypted_copy_exists {
            if copy_matches { EncryptStep::RemoveCommittedPlaintext } else { EncryptStep::MismatchedDestination }
        } else {
            EncryptStep::Encrypt
        }),
{
    if name_is_encrypted {
        EncryptStep::SkipEncrypted
    } else if !stable {
        EncryptStep::NotStable
    } else if encrypted_copy_exists {
        if copy_matches { EncryptStep::RemoveCommittedPlaintext } else { EncryptStep::MismatchedDestination }
    } else {
        EncryptStep::Encrypt
    }
}

/// The report after one step of an encryption sweep; `bytes` are the
/// plaintext and ciphertext sizes of a file that was encrypted.
pub fn record_encrypt_step(report: &mut EncryptionReport, step: EncryptStep, bytes: (u64, u64))
    requires
        old(report).skipped_files < usize::MAX,
        old(report).encrypted_files < usize::MAX,
    ensures
        final(report).decrypted_files == old(report).decrypted_files,
        match step {
            EncryptStep::Encrypt => {
                &&& final(report).encrypted_files == old(report).encrypted_files + 1
                &&& final(report).skipped_files == old(report).skipped_files
                &&& final(report).bytes_in == sat_add(old(report).bytes_in, bytes.0 as int)
                &&& final(report).bytes_out == sat_add(old(report).bytes_out, bytes.1 as int)
            },
            EncryptStep::MismatchedDestination => *final(report) == *old(report),
            _ => {
                &&& final(report).skipped_files == old(report).skipped_files + 1
                &&& final(report).encrypted_files == old(report).encrypted_files
                &&& final(report).bytes_in == old(report).bytes_in
                &&& final(report).bytes_out == old(report).bytes_out
            },
        },
{
    match step {
        EncryptStep::Encrypt => {
            report.encrypted_files = report.encrypted_files + 1;
            report.bytes_in = report.bytes_in.saturating_add(bytes.0);
            report.bytes_out = report.bytes_out.saturating_add(bytes.1);
        },
        EncryptStep::MismatchedDestination => {},
        _ => {
            report.skipped_files = report.skipped_files + 1;
        },
    }
}

/// What a decryption sweep does with one regular file.
#[derive(Debug, Clone, Copy, PartialEq, Eq, Structural)]
pub enum DecryptStep {
    /// Not an encrypted artifact: left alone and not counted.
    Ignore,
    /// Skipped and counted.
    Skip,
    /// Decrypt the file.
    Decrypt,
}

pub fn decrypt_tree_step(name_is_encrypted: bool, name_ends_with_enc: bool, original_exists: bool) -> (r: DecryptStep)
    ensures
        r == (if !name_is_encrypted {
            DecryptStep::Ignore
        } else if !name_ends_with_enc || original_exists {
            DecryptStep::Skip
        } else {
            DecryptStep::Decrypt
        }),
{
    if !name_is_encrypted {
        DecryptStep::Ignore
    } else if !name_ends_with_enc || original_exists {
        DecryptStep::Skip
    } else {
        DecryptStep::Decrypt
    }
}

/// The report after one step of a decryption sweep; `bytes` are the
/// ciphertext and plaintext sizes of a file that was decrypted.
pub fn record_decrypt_step(report: &mut EncryptionReport, step: DecryptStep, bytes: (u64, u64))
    requires
        old(report).skipped_files < usize::MAX,
        old(report).decrypted_files < usize::MAX,
    ensures
        final(report).encrypted_files == old(report).encrypted_files,
        match step {
            DecryptStep::Decrypt => {
                &&& final(report).decrypted_files == old(report).decrypted_files + 1
                &&& final(report).skipped_files == old(report).skipped_files
                &&& final(report).bytes_in == sat_add(old(report).bytes_in, bytes.0 as int)
                &&& final(report).bytes_out == sat_add(old(report).bytes_out, bytes.1 as int)
            },
            DecryptStep::Skip => {
                &&& final(report).skipped_files == old(report).skipped_files + 1
                &&& final(report).decrypted_files == old(report).decrypted_files
                &&& final(report).bytes_in == old(report).bytes_in
                &&& final(report).bytes_out == old(report).bytes_out
            },
            DecryptStep::Ignore => *final(report) == *old(report),
        },
{
    match step {
        DecryptStep::Decrypt => {
            report.decrypted_files = report.decrypted_files + 1;
            report.bytes_in = report.bytes_in.saturating_add(bytes.0);
            report.bytes_out = report.bytes_out.saturating_add(bytes.1);
        },
        DecryptStep::Skip => {
            report.skipped_files = report.skipped_files + 1;
        },
        DecryptStep::Ignore => {},
    }
}

/// A master key read from a key file: exactly 32 raw bytes, or else base64
/// text (surrounding whitespace ignored) of 32 bytes.
pub fn master_key_from_file_bytes(bytes: Vec<u8>) -> (r: Result<MasterKey, AtRestError>)
    ensures
        bytes@.len() == 32 ==> (r matches Ok(k) && k@ == bytes@),
        bytes@.len() != 32 ==> match base64_decoded(trim(utf8_lossy_text(bytes@))) {
            None => r == Err::<MasterKey, AtRestError>(AtRestError::InvalidBase64MasterKey),
            Some(b) => if b.len() == 32 {
                r matches Ok(k) && k@ == b
            } else {
                r == Err::<MasterKey, AtRestError>(AtRestError::InvalidMasterKeyLength)
            },
        },
{
    if bytes.len() == 32 {
        return MasterKey::from_bytes(bytes);
    }
    let text = utf8_lossy(bytes.as_slice());
    let v = chars_of(text.as_str());
    let (a, b) = trim_bounds(v.as_slice(), 0, v.len());
    assert(v@.subrange(0, v@.len() as int) =~= v@);
    let trimmed = string_of(crate::text::copy_range(v.as_slice(), a, b).as_slice());
    master_key_from_base64(trimmed.as_str())
}

} // verus!
