//! Password sealing: AES-256-GCM under a key derived with SHA-256 from a
//! fixed seed, with a random 96-bit nonce, stored as base64 of
//! `nonce || ciphertext`.

use aes_gcm::aead::{Aead, KeyInit, OsRng};
use aes_gcm::{Aes256Gcm, Nonce};
use base64::Engine;
use rand::RngCore;
use sha2::{Digest, Sha256};
use vstd::prelude::*;

verus! {

broadcast use vstd::array::group_array_axioms;

/// The largest plaintext (in bytes) that AES-GCM accepts.
pub const PLAINTEXT_MAX: u64 = 1u64 << 36u64;

/// The length of an AES-GCM nonce in bytes.
pub const NONCE_LEN: usize = 12;

/// The length of an AES-GCM authentication tag in bytes.
pub const TAG_LEN: usize = 16;

/// SHA-256 of `data`.
pub uninterp spec fn sha256(data: Seq<u8>) -> Seq<u8>;

/// The ciphertext (with its 16-byte tag appended) that AES-256-GCM produces
/// for `plaintext` under `key` and `nonce`, with no associated data.
pub uninterp spec fn aes256gcm_seal(key: Seq<u8>, nonce: Seq<u8>, plaintext: Seq<u8>) -> Seq<u8>;

/// What AES-256-GCM decryption of `ciphertext` (tag appended) under `key`
/// and `nonce` gives: the plaintext, or `None` when it is rejected.
pub uninterp spec fn aes256gcm_open(key: Seq<u8>, nonce: Seq<u8>, ciphertext: Seq<u8>) -> Option<
    Seq<u8>,
>;

/// The standard (padded) base64 encoding of `data`.
pub uninterp spec fn base64_encode_spec(data: Seq<u8>) -> Seq<char>;

/// The standard (padded) base64 decoding of `text`, `None` when it is not
/// valid base64.
pub uninterp spec fn base64_decode_spec(text: Seq<char>) -> Option<Seq<u8>>;

/// The length of the padded base64 encoding of `n` bytes.
pub open spec fn base64_len(n: nat) -> nat {
    if n % 3 == 0 {
        n / 3 * 4
    } else {
        n / 3 * 4 + 4
    }
}

/// The padded base64 encoding of `n` bytes has a length that fits in `usize`.
pub open spec fn base64_fits(n: nat) -> bool {
    base64_len(n) <= usize::MAX
}

/// A plaintext of `n` bytes can be sealed without overflowing a length:
/// when AES-GCM accepts it, its base64 text fits in memory.
pub open spec fn sealable(n: nat) -> bool {
    n <= PLAINTEXT_MAX ==> base64_fits((n + NONCE_LEN + TAG_LEN) as nat)
}

/// `sha2::Sha256::digest`: the contract claims that the result is the
/// SHA-256 digest of `data` (a name, not a definition) and has 32 bytes.
#[verifier::external_body]
fn sha256_digest(data: &[u8]) -> (res: [u8; 32])
    ensures
        res@ == sha256(data@),
{
    Sha256::digest(data).into()
}

/// `rand::RngCore::try_fill_bytes` on the operating system's generator:
/// twelve random bytes, or `None` when the generator fails. Nothing is
/// claimed of the bytes.
#[verifier::external_body]
fn random_nonce() -> (res: Option<[u8; 12]>) {
    let mut nonce = [0u8; 12];
    match OsRng.try_fill_bytes(&mut nonce) {
        Ok(()) => Some(nonce),
        Err(_) => None,
    }
}

/// `aes_gcm::Aes256Gcm::encrypt` (through `aead::Aead`), with no associated
/// data. The contract claims what the crate's source shows: it fails
/// exactly when the plaintext is longer than `PLAINTEXT_MAX`; otherwise the
/// ciphertext is the named AES-256-GCM result, 16 bytes longer than the
/// plaintext, and decrypting it with the same key and nonce gives the
/// plaintext back.
#[verifier::external_body]
fn aes256gcm_encrypt(key: &[u8; 32], nonce: &[u8; 12], plaintext: &[u8]) -> (res: Option<Vec<u8>>)
    ensures
        res is Some <==> plaintext@.len() <= PLAINTEXT_MAX,
        res matches Some(c) ==> {
            &&& c@ == aes256gcm_seal(key@, nonce@, plaintext@)
            &&& c@.len() == plaintext@.len() + TAG_LEN
            &&& aes256gcm_open(key@, nonce@, c@) == Some(plaintext@)
        },
{
    let cipher = Aes256Gcm::new(key.into());
    cipher.encrypt(Nonce::from_slice(nonce), plaintext).ok()
}

/// `aes_gcm::Aes256Gcm::decrypt` (through `aead::Aead`), with no associated
/// data: the contract claims that the result is the named AES-256-GCM
/// decryption of `ciphertext`, that a ciphertext shorter than the 16-byte
/// tag is rejected, that a plaintext is 16 bytes shorter than its
/// ciphertext, and that a ciphertext opens only when it is what encrypting
/// the plaintext gives (the tag is checked against the one encryption
/// computes over the same bytes), as the crate's source shows.
#[verifier::external_body]
fn aes256gcm_decrypt(key: &[u8; 32], nonce: &[u8], ciphertext: &[u8]) -> (res: Option<Vec<u8>>)
    requires
        nonce@.len() == NONCE_LEN,
    ensures
        match res {
            Some(p) => aes256gcm_open(key@, nonce@, ciphertext@) == Some(p@),
            None => aes256gcm_open(key@, nonce@, ciphertext@) is None,
        },
        ciphertext@.len() < TAG_LEN ==> res is None,
        res matches Some(p) ==> p@.len() + TAG_LEN == ciphertext@.len(),
        res matches Some(p) ==> (p@.len() <= PLAINTEXT_MAX ==> ciphertext@ == aes256gcm_seal(
            key@,
            nonce@,
            p@,
        )),
{
    let cipher = Aes256Gcm::new(key.into());
    cipher.decrypt(Nonce::from_slice(nonce), ciphertext).ok()
}

/// `base64::Engine::encode` with the standard padded engine. The contract
/// claims that the text is the named encoding, has the padded length, and
/// decodes back to `data`. The crate panics when that length overflows
/// `usize`, which `requires` rules out.
#[verifier::external_body]
fn base64_encode(data: &[u8]) -> (res: String)
    requires
        base64_fits(data@.len()),
    ensures
        res@ == base64_encode_spec(data@),
        res@.len() == base64_len(data@.len()),
        base64_decode_spec(res@) == Some(data@),
{
    base64::engine::general_purpose::STANDARD.encode(data)
}

/// `base64::Engine::decode` with the standard padded engine: the contract
/// claims that the result is the named decoding of `text`.
#[verifier::external_body]
fn base64_decode(text: &str) -> (res: Option<Vec<u8>>)
    ensures
        match res {
            Some(b) => base64_decode_spec(text@) == Some(b@),
            None => base64_decode_spec(text@) is None,
        },
{
    base64::engine::general_purpose::STANDARD.decode(text).ok()
}

/// The key that protects stored passwords: SHA-256 of a fixed seed.
pub open spec fn session_key() -> Seq<u8> {
    sha256(vstd::utf8::encode_utf8("sutty-session-v2-fixed-key"@))
}

/// The stored text for `plaintext` sealed with `nonce`.
pub open spec fn sealed_text(nonce: Seq<u8>, plaintext: Seq<u8>) -> Seq<char> {
    base64_encode_spec(nonce + aes256gcm_seal(session_key(), nonce, plaintext))
}

/// What opening a stored text gives: base64-decode it, split off the
/// 12-byte nonce, and decrypt the rest.
pub open spec fn open_text(text: Seq<char>) -> Option<Seq<u8>> {
    match base64_decode_spec(text) {
        None => None,
        Some(c) => if c.len() < NONCE_LEN {
            None
        } else {
            aes256gcm_open(session_key(), c.take(NONCE_LEN as int), c.skip(NONCE_LEN as int))
        },
    }
}

/// Derives the 32-byte key from the fixed seed.
fn derive_key() -> (key: [u8; 32])
    ensures
        key@ == session_key(),
{
    sha256_digest("sutty-session-v2-fixed-key".as_bytes())
}

/// `a` followed by `b`.
fn concat_bytes(a: &[u8], b: &[u8]) -> (res: Vec<u8>)
    requires
        a@.len() + b@.len() <= usize::MAX,
    ensures
        res@ == a@ + b@,
{
    let mut res: Vec<u8> = Vec::new();
    let mut i: usize = 0;
    while i < a.len()
        invariant
            i <= a@.len(),
            res@ == a@.take(i as int),
        decreases a@.len() - i,
    {
        res.push(a[i]);
        i = i + 1;
        assert(res@ =~= a@.take(i as int));
    }
    assert(a@.take(a@.len() as int) =~= a@);
    let mut j: usize = 0;
    while j < b.len()
        invariant
            j <= b@.len(),
            res@ == a@ + b@.take(j as int),
        decreases b@.len() - j,
    {
        res.push(b[j]);
        j = j + 1;
        assert(res@ =~= a@ + b@.take(j as int));
    }
    assert(b@.take(b@.len() as int) =~= b@);
    res
}

/// Seals `plaintext` with the given nonce: base64 of the nonce followed by
/// the AES-256-GCM ciphertext. Fails exactly when the plaintext is longer
/// than AES-GCM accepts.
pub fn seal_with_nonce(plaintext: &[u8], nonce: &[u8; 12]) -> (res: Option<String>)
    requires
        sealable(plaintext@.len()),
    ensures
        res is Some <==> plaintext@.len() <= PLAINTEXT_MAX,
        res matches Some(text) ==> {
            &&& text@ == sealed_text(nonce@, plaintext@)
            &&& base64_decode_spec(text@) == Some(
                nonce@ + aes256gcm_seal(session_key(), nonce@, plaintext@),
            )
            &&& aes256gcm_seal(session_key(), nonce@, plaintext@).len() == plaintext@.len()
                + TAG_LEN
            &&& text@.len() == base64_len((plaintext@.len() + NONCE_LEN + TAG_LEN) as nat)
            &&& open_text(text@) == Some(plaintext@)
        },
{
    let key = derive_key();
    match aes256gcm_encrypt(&key, nonce, plaintext) {
        None => None,
        Some(ciphertext) => {
            let combined = concat_bytes(nonce, ciphertext.as_slice());
            let text = base64_encode(combined.as_slice());
            proof {
                assert(combined@.take(NONCE_LEN as int) =~= nonce@);
                assert(combined@.skip(NONCE_LEN as int) =~= ciphertext@);
            }
            Some(text)
        },
    }
}

/// Seals `plaintext` under a fresh random nonce. It fails when the
/// plaintext is too long for AES-GCM or when no random nonce could be had.
pub(crate) fn encrypt(plaintext: &[u8]) -> (res: Option<String>)
    requires
        sealable(plaintext@.len()),
    ensures
        plaintext@.len() > PLAINTEXT_MAX ==> res is None,
        res matches Some(text) ==> {
            &&& exists|nonce: Seq<u8>|
                #![trigger sealed_text(nonce, plaintext@)]
                nonce.len() == NONCE_LEN && text@ == sealed_text(nonce, plaintext@)
                    && base64_decode_spec(text@) == Some(
                    nonce + aes256gcm_seal(session_key(), nonce, plaintext@),
                ) && aes256gcm_seal(session_key(), nonce, plaintext@).len() == plaintext@.len()
                    + TAG_LEN
            &&& text@.len() == base64_len((plaintext@.len() + NONCE_LEN + TAG_LEN) as nat)
            &&& open_text(text@) == Some(plaintext@)
        },
{
    match random_nonce() {
        None => None,
        Some(nonce) => seal_with_nonce(plaintext, &nonce),
    }
}

/// Why a stored text does not open.
#[derive(Debug, Clone, Copy, PartialEq, Eq, Structural)]
pub enum OpenError {
    /// The text is not valid base64.
    BadBase64,
    /// The decoded text is shorter than a nonce.
    TooShort,
    /// Decryption rejected the rest (too short for a tag, or not authentic).
    Rejected,
}

/// Opens a stored text: base64-decodes it, splits off the nonce and
/// decrypts the rest. The plaintext is only ever the one whose sealing
/// under that nonce the text holds.
pub fn open_sealed(text: &str) -> (res: Result<Vec<u8>, OpenError>)
    ensures
        match res {
            Ok(p) => open_text(text@) == Some(p@),
            Err(_) => open_text(text@) is None,
        },
        match base64_decode_spec(text@) {
            None => res == Err::<Vec<u8>, OpenError>(OpenError::BadBase64),
            Some(c) => {
                &&& c.len() < NONCE_LEN ==> res == Err::<Vec<u8>, OpenError>(OpenError::TooShort)
                &&& c.len() >= NONCE_LEN ==> (res is Ok || res == Err::<Vec<u8>, OpenError>(
                    OpenError::Rejected,
                ))
                &&& c.len() < NONCE_LEN + TAG_LEN ==> res is Err
                &&& res matches Ok(p) ==> {
                    &&& p@.len() + NONCE_LEN + TAG_LEN == c.len()
                    &&& (p@.len() <= PLAINTEXT_MAX ==> c == c.take(NONCE_LEN as int)
                        + aes256gcm_seal(session_key(), c.take(NONCE_LEN as int), p@))
                }
            },
        },
{
    let key = derive_key();
    match base64_decode(text) {
        None => Err(OpenError::BadBase64),
        Some(combined) => {
            if combined.len() < NONCE_LEN {
                return Err(OpenError::TooShort);
            }
            let (nonce, ciphertext) = combined.as_slice().split_at(NONCE_LEN);
            assert(nonce@ =~= combined@.take(NONCE_LEN as int));
            assert(ciphertext@ =~= combined@.skip(NONCE_LEN as int));
            assert(combined@ =~= nonce@ + ciphertext@);
            match aes256gcm_decrypt(&key, nonce, ciphertext) {
                Some(p) => Ok(p),
                None => Err(OpenError::Rejected),
            }
        },
    }
}

/// Whether a plaintext of `n` bytes can be sealed without overflowing a
/// length (always so on 64-bit targets).
pub fn can_seal(n: usize) -> (res: bool)
    ensures
        res == sealable(n as nat),
{
    if (n as u128) > (PLAINTEXT_MAX as u128) {
        return true;
    }
    let m: u128 = (n as u128) + 28;
    let len: u128 = if m % 3 == 0 { m / 3 * 4 } else { m / 3 * 4 + 4 };
    len <= (usize::MAX as u128)
}

} // verus!
