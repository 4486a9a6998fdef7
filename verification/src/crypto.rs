//! Key derivation and authenticated encryption of vault data
//! (Argon2id, HKDF-SHA256 and XChaCha20-Poly1305).

use argon2::{Algorithm, Argon2, Params, Version};
use chacha20poly1305::aead::rand_core::RngCore;
use chacha20poly1305::aead::{Aead, OsRng, Payload};
use chacha20poly1305::{Key, KeyInit, XChaCha20Poly1305, XNonce};
use hkdf::Hkdf;
use sha2::Sha256;
use zeroize::Zeroize;
use vstd::prelude::*;
use vstd::string::StringSliceAdditionalSpecFns;

verus! {

/// Length of an XChaCha20 nonce.
pub const NONCE_LEN: usize = 24;

/// Length of a Poly1305 tag, appended to every ciphertext.
pub const TAG_LEN: usize = 16;

/// Argon2id memory cost in KiB (64 MiB), the OWASP baseline.
pub const ARGON2_M_COST: u32 = 65536;

/// Argon2id number of passes.
pub const ARGON2_T_COST: u32 = 3;

/// Argon2id degree of parallelism.
pub const ARGON2_P_COST: u32 = 4;

/// Errors of the authenticated-encryption layer.
#[derive(Debug, PartialEq, Eq, Structural, Clone, Copy)]
pub enum CryptoError {
    /// The cipher refused the message (it is too long).
    EncryptionFailed,
    /// The tag did not verify: wrong key, wrong associated data, or altered data.
    DecryptionFailed,
}

/// XChaCha20-Poly1305 encryption as the `chacha20poly1305` crate computes it:
/// ciphertext followed by the 16-byte tag.
pub uninterp spec fn xchacha20poly1305_seal(
    key: Seq<u8>,
    nonce: Seq<u8>,
    msg: Seq<u8>,
    aad: Seq<u8>,
) -> Seq<u8>;

/// XChaCha20-Poly1305 decryption: `None` where the tag does not verify.
pub uninterp spec fn xchacha20poly1305_open(
    key: Seq<u8>,
    nonce: Seq<u8>,
    ct: Seq<u8>,
    aad: Seq<u8>,
) -> Option<Seq<u8>>;

/// Messages that the cipher accepts: fewer than `u32::MAX` 64-byte blocks.
pub open spec fn seal_accepts(msg_len: nat) -> bool {
    msg_len / 64 < 0xffff_ffff
}

/// Argon2id (version 0x13) with the given costs, producing 32 bytes.
pub uninterp spec fn argon2id_hash32(
    m_cost: u32,
    t_cost: u32,
    p_cost: u32,
    password: Seq<u8>,
    salt: Seq<u8>,
) -> [u8; 32];

/// HKDF-SHA256 without salt, expanded to 32 bytes with `info`.
pub uninterp spec fn hkdf_sha256_expand32(ikm: Seq<u8>, info: Seq<u8>) -> [u8; 32];

/// Calls `XChaCha20Poly1305::encrypt`. The source fails only when the
/// message has `u32::MAX` or more 64-byte blocks and otherwise appends the
/// 16-byte tag. The contract also claims AEAD correctness: decrypting what
/// it returned, under the same key, nonce and associated data, gives the
/// message back.
#[verifier::external_body]
fn aead_seal(key: &[u8; 32], nonce: &[u8; 24], msg: &[u8], aad: &[u8]) -> (ct: Option<Vec<u8>>)
    ensures
        ct is Some <==> seal_accepts(msg@.len()),
        ct matches Some(c) ==> {
            &&& c@ == xchacha20poly1305_seal(key@, nonce@, msg@, aad@)
            &&& c@.len() == msg@.len() + 16
            &&& xchacha20poly1305_open(key@, nonce@, c@, aad@) == Some(msg@)
        },
{
    let cipher = XChaCha20Poly1305::new(Key::from_slice(key));
    cipher.encrypt(XNonce::from_slice(nonce), Payload { msg, aad }).ok()
}

/// Calls `XChaCha20Poly1305::decrypt`; the result is named.
#[verifier::external_body]
fn aead_open(key: &[u8; 32], nonce: &[u8; 24], ct: &[u8], aad: &[u8]) -> (msg: Option<Vec<u8>>)
    ensures
        match msg {
            Some(m) => xchacha20poly1305_open(key@, nonce@, ct@, aad@) == Some(m@),
            None => xchacha20poly1305_open(key@, nonce@, ct@, aad@) is None,
        },
{
    let cipher = XChaCha20Poly1305::new(Key::from_slice(key));
    cipher.decrypt(XNonce::from_slice(nonce), Payload { msg: ct, aad }).ok()
}

/// Fills an array from the operating system's random source (`OsRng`,
/// `RngCore::fill_bytes`). Nothing is claimed of the bytes; `fill_bytes`
/// panics if the source fails.
#[verifier::external_body]
pub(crate) fn os_random_bytes<const N: usize>() -> (out: [u8; N]) {
    let mut out = [0u8; N];
    OsRng.fill_bytes(&mut out);
    out
}

/// Calls `Argon2::hash_password_into` with Argon2id v0x13 and the given
/// costs. The source rejects a password longer than `u32::MAX` bytes and a
/// salt shorter than 8 or longer than `u32::MAX` bytes; `Params::new`
/// rejects the costs that `requires` leaves out.
#[verifier::external_body]
fn argon2id_derive(m_cost: u32, t_cost: u32, p_cost: u32, password: &[u8], salt: &[u8]) -> (key: [u8; 32])
    requires
        8 <= m_cost,
        8 * (p_cost as int) <= m_cost,
        1 <= t_cost,
        1 <= p_cost <= 0xff_ffff,
        password@.len() <= 0xffff_ffff,
        8 <= salt@.len() <= 0xffff_ffff,
    ensures
        key == argon2id_hash32(m_cost, t_cost, p_cost, password@, salt@),
{
    let mut key = [0u8; 32];
    let params = Params::new(m_cost, t_cost, p_cost, Some(key.len())).unwrap();
    let argon2 = Argon2::new(Algorithm::Argon2id, Version::V0x13, params);
    argon2.hash_password_into(password, salt, &mut key).expect("Failed to derive key");
    key
}

/// Calls `Hkdf::<Sha256>::new(None, ikm)` and `expand` into 32 bytes (which
/// the source accepts for any output up to 255 * 32 bytes).
#[verifier::external_body]
fn hkdf_sha256_derive32(ikm: &[u8; 32], info: &[u8]) -> (okm: [u8; 32])
    ensures
        okm == hkdf_sha256_expand32(ikm@, info@),
{
    let hk = Hkdf::<Sha256>::new(None, ikm);
    let mut okm = [0u8; 32];
    hk.expand(info, &mut okm).expect("HKDF expand failed");
    okm
}

/// Calls `Zeroize::zeroize` on a key, which overwrites every byte with zero
/// (with writes the compiler does not remove).
#[verifier::external_body]
pub(crate) fn wipe_key(key: &mut [u8; 32])
    ensures
        final(key)@ == Seq::new(32, |i: int| 0u8),
{
    key.zeroize();
}

/// The root key that `derive_master_key` computes.
pub open spec fn master_key_spec(password: Seq<char>, salt: Seq<char>) -> Seq<u8> {
    argon2id_hash32(
        ARGON2_M_COST,
        ARGON2_T_COST,
        ARGON2_P_COST,
        vstd::utf8::encode_utf8(password),
        vstd::utf8::encode_utf8(salt),
    )@
}

/// Derives the 32-byte root key from the master password and the account
/// salt with Argon2id (64 MiB, 3 passes, 4 lanes).
pub fn derive_master_key(password: &str, salt: &str) -> (key: [u8; 32])
    requires
        password.spec_bytes().len() <= 0xffff_ffff,
        8 <= salt.spec_bytes().len() <= 0xffff_ffff,
    ensures
        key@ == master_key_spec(password@, salt@),
{
    argon2id_derive(ARGON2_M_COST, ARGON2_T_COST, ARGON2_P_COST, password.as_bytes(), salt.as_bytes())
}

/// The subkey that `derive_subkey` computes.
pub open spec fn subkey_spec(root_key: Seq<u8>, name: Seq<char>) -> Seq<u8> {
    hkdf_sha256_expand32(root_key, vstd::utf8::encode_utf8(name))@
}

/// Derives a 32-byte purpose-bound subkey from the root key, with HKDF-SHA256
/// and the purpose name as `info`.
pub fn derive_subkey(root_key: &[u8; 32], name: &str) -> (key: [u8; 32])
    ensures
        key@ == subkey_spec(root_key@, name@),
{
    hkdf_sha256_derive32(root_key, name.as_bytes())
}

/// A nonce and the ciphertext (with its tag) that it was sealed under.
pub struct EncryptedPayload {
    pub ciphertext: Vec<u8>,
    pub nonce: [u8; 24],
}

/// The stored form of a payload: the nonce, then the ciphertext.
pub open spec fn packed_spec(nonce: Seq<u8>, ciphertext: Seq<u8>) -> Seq<u8> {
    nonce + ciphertext
}

/// The message `unpack` gives for input shorter than a nonce and a tag.
pub open spec fn too_short_message() -> Seq<char> {
    "Payload too short to be valid XChaCha20Poly1305"@
}

/// How `unpack` splits stored bytes: a 24-byte nonce and the rest, for input
/// of at least a nonce plus a tag.
pub open spec fn unpacked_parts(packed: Seq<u8>) -> Option<(Seq<u8>, Seq<u8>)> {
    if packed.len() < NONCE_LEN + TAG_LEN {
        None
    } else {
        Some((packed.subrange(0, NONCE_LEN as int), packed.subrange(NONCE_LEN as int, packed.len() as int)))
    }
}

/// Unpacking undoes packing: the stored form of a nonce and a ciphertext
/// that carries its tag splits back into the same two parts.
pub proof fn law_unpack_pack(nonce: Seq<u8>, ciphertext: Seq<u8>)
    requires
        nonce.len() == NONCE_LEN,
        ciphertext.len() >= TAG_LEN,
    ensures
        unpacked_parts(packed_spec(nonce, ciphertext)) == Some((nonce, ciphertext)),
{
    let p = packed_spec(nonce, ciphertext);
    assert(p.subrange(0, NONCE_LEN as int) =~= nonce);
    assert(p.subrange(NONCE_LEN as int, p.len() as int) =~= ciphertext);
}

/// What `decrypt_payload` gives for a nonce and ciphertext under `key` and
/// the associated data `aad` (an id).
pub open spec fn opened_payload(key: Seq<u8>, nonce: Seq<u8>, ct: Seq<u8>, aad: Seq<char>) -> Option<Seq<u8>> {
    xchacha20poly1305_open(key, nonce, ct, vstd::utf8::encode_utf8(aad))
}

impl EncryptedPayload {
    /// Packs the nonce and ciphertext together for storage or transmission.
    pub fn pack(&self) -> (packed: Vec<u8>)
        ensures
            packed@ == packed_spec(self.nonce@, self.ciphertext@),
    {
        let mut packed: Vec<u8> = Vec::new();
        for i in 0..NONCE_LEN
            invariant
                packed@ == self.nonce@.subrange(0, i as int),
        {
            packed.push(self.nonce[i]);
        }
        let n = self.ciphertext.len();
        for i in 0..n
            invariant
                n == self.ciphertext@.len(),
                packed@ == self.nonce@ + self.ciphertext@.subrange(0, i as int),
        {
            packed.push(self.ciphertext[i]);
        }
        assert(self.ciphertext@.subrange(0, n as int) == self.ciphertext@);
        packed
    }

    /// Unpacks the nonce and ciphertext from the combined format. Input
    /// shorter than a nonce plus a tag is refused.
    pub fn unpack(packed: &[u8]) -> (res: Result<Self, &'static str>)
        ensures
            unpacked_parts(packed@) is None <==> res is Err,
            res matches Err(msg) ==> msg@ == too_short_message(),
            res matches Ok(p) ==> unpacked_parts(packed@) == Some((p.nonce@, p.ciphertext@)),
    {
        if packed.len() < NONCE_LEN + TAG_LEN {
            return Err("Payload too short to be valid XChaCha20Poly1305");
        }
        let (head, tail) = packed.split_at(NONCE_LEN);
        let mut nonce = [0u8; 24];
        for i in 0..NONCE_LEN
            invariant
                packed@.len() >= 40,
                head@ == packed@.subrange(0, 24),
                forall|j: int| 0 <= j < i ==> nonce[j] == head@[j],
        {
            nonce[i] = head[i];
        }
        assert(nonce@ =~= packed@.subrange(0, 24));
        let mut ciphertext: Vec<u8> = Vec::new();
        let n = tail.len();
        for i in 0..n
            invariant
                n == tail@.len(),
                ciphertext@ == tail@.subrange(0, i as int),
        {
            ciphertext.push(tail[i]);
        }
        assert(tail@.subrange(0, n as int) == tail@);
        Ok(EncryptedPayload { ciphertext, nonce })
    }
}

/// Encrypts `plaintext` under `key` and the given nonce, binding it to
/// `aad`.
pub fn encrypt_with_nonce(key: &[u8; 32], nonce: [u8; 24], plaintext: &[u8], aad: &[u8]) -> (res: Result<
    EncryptedPayload,
    CryptoError,
>)
    ensures
        seal_accepts(plaintext@.len()) <==> res is Ok,
        res matches Err(e) ==> e == CryptoError::EncryptionFailed,
        res matches Ok(p) ==> {
            &&& p.nonce@ == nonce@
            &&& p.ciphertext@ == xchacha20poly1305_seal(key@, nonce@, plaintext@, aad@)
            &&& p.ciphertext@.len() == plaintext@.len() + TAG_LEN
            &&& xchacha20poly1305_open(key@, nonce@, p.ciphertext@, aad@) == Some(plaintext@)
        },
{
    match aead_seal(key, &nonce, plaintext, aad) {
        Some(ciphertext) => Ok(EncryptedPayload { ciphertext, nonce }),
        None => Err(CryptoError::EncryptionFailed),
    }
}

/// Encrypts `plaintext` with a fresh random nonce, using the vault (or item)
/// id as associated data so the ciphertext only opens in its place.
pub fn encrypt_payload(key: &[u8; 32], plaintext: &[u8], vault_id: &str) -> (res: Result<
    EncryptedPayload,
    CryptoError,
>)
    ensures
        seal_accepts(plaintext@.len()) <==> res is Ok,
        res matches Err(e) ==> e == CryptoError::EncryptionFailed,
        res matches Ok(p) ==> {
            &&& p.ciphertext@ == xchacha20poly1305_seal(key@, p.nonce@, plaintext@, vault_id.spec_bytes())
            &&& p.ciphertext@.len() == plaintext@.len() + TAG_LEN
            &&& opened_payload(key@, p.nonce@, p.ciphertext@, vault_id@) == Some(plaintext@)
        },
{
    let nonce: [u8; 24] = os_random_bytes();
    encrypt_with_nonce(key, nonce, plaintext, vault_id.as_bytes())
}

/// Decrypts a payload; fails where the key, the associated data or the
/// data itself do not match.
pub fn decrypt_payload(key: &[u8; 32], encrypted_payload: &EncryptedPayload, vault_id: &str) -> (res:
    Result<Vec<u8>, CryptoError>)
    ensures
        match opened_payload(key@, encrypted_payload.nonce@, encrypted_payload.ciphertext@, vault_id@) {
            Some(m) => res matches Ok(v) && v@ == m,
            None => res == Err::<Vec<u8>, CryptoError>(CryptoError::DecryptionFailed),
        },
{
    match aead_open(key, &encrypted_payload.nonce, encrypted_payload.ciphertext.as_slice(), vault_id.as_bytes()) {
        Some(m) => Ok(m),
        None => Err(CryptoError::DecryptionFailed),
    }
}

} // verus!
