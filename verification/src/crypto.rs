//! Field-level cryptographic helpers: deterministic keyed hashing for
//! equality lookup of sensitive identifiers, authenticated encryption for
//! at-rest storage, secure random token generation, and the password-hash
//! primitives used for stored secrets.
//!
//! The cryptographic computations themselves are performed by outside
//! libraries behind the trusted wrappers below; everything around them is
//! verified.

use vstd::prelude::*;

use aes_gcm::KeyInit;
use aes_gcm::aead::Aead;
use argon2::PasswordHasher;
use argon2::PasswordVerifier;
use base64::Engine;
use rand::RngCore;
use sha2::Digest;

verus! {

use vstd::string::StringSliceAdditionalSpecFns;

use crate::errors::AuthError;

/// SHA-256 digest (32 bytes) of the tenant salt's UTF-8 bytes followed by
/// the identifier's UTF-8 bytes. A function of its arguments alone, so the
/// lookup key is deterministic per (salt, identifier) pair.
pub uninterp spec fn lookup_digest_of(salt: Seq<char>, value: Seq<char>) -> Seq<u8>;

/// What opening a nonce-prefixed AES-256-GCM blob under a key yields:
/// `Some` of the recovered text when the tag verifies and the plaintext is
/// valid UTF-8, `None` otherwise. Decryption is a function of blob and key.
pub uninterp spec fn aead_plain_of(blob: Seq<u8>, key: Seq<u8>) -> Option<Seq<char>>;

/// Whether Argon2id verification of a presented secret against a stored
/// PHC-format hash string succeeds. A function of hash and secret alone.
pub uninterp spec fn argon_matches(hash: Seq<char>, secret: Seq<char>) -> bool;

/// Lower-case hex digit for a value below 16.
pub open spec fn hex_digit_of(n: int) -> char {
    if n == 0 { '0' } else if n == 1 { '1' } else if n == 2 { '2' } else if n == 3 { '3' }
    else if n == 4 { '4' } else if n == 5 { '5' } else if n == 6 { '6' } else if n == 7 { '7' }
    else if n == 8 { '8' } else if n == 9 { '9' } else if n == 10 { 'a' } else if n == 11 { 'b' }
    else if n == 12 { 'c' } else if n == 13 { 'd' } else if n == 14 { 'e' } else { 'f' }
}

/// Lower-case hex encoding: two digits per byte, high nibble first.
pub open spec fn hex_of(bytes: Seq<u8>) -> Seq<char>
    decreases bytes.len(),
{
    if bytes.len() == 0 {
        Seq::<char>::empty()
    } else {
        seq![hex_digit_of(bytes[0] as int / 16), hex_digit_of(bytes[0] as int % 16)] + hex_of(
            bytes.drop_first(),
        )
    }
}

pub proof fn lemma_hex_of_len(bytes: Seq<u8>)
    ensures
        hex_of(bytes).len() == 2 * bytes.len(),
    decreases bytes.len(),
{
    if bytes.len() > 0 {
        lemma_hex_of_len(bytes.drop_first());
    }
}

/// Relies on sha2's `Sha256`: feeding the salt's bytes and then the value's
/// bytes and finalizing returns the 32-byte SHA-256 digest of their
/// concatenation, a deterministic function of the two strings.
#[verifier::external_body]
fn sha256_salted(salt: &str, value: &str) -> (r: Vec<u8>)
    ensures
        r@ == lookup_digest_of(salt@, value@),
        r@.len() == 32,
{
    let mut hasher = sha2::Sha256::new();
    hasher.update(salt.as_bytes());
    hasher.update(value.as_bytes());
    hasher.finalize().to_vec()
}

/// Relies on hex::encode: lower-case hex, two digits per byte, high nibble
/// first.
#[verifier::external_body]
fn hex_encode(bytes: &Vec<u8>) -> (r: String)
    ensures
        r@ == hex_of(bytes@),
{
    hex::encode(bytes)
}

/// Relies on hex::decode: accepts an even-length string of upper- or
/// lower-case hex digits and returns its bytes; rejects anything else.
#[verifier::external_body]
fn hex_decode_raw(s: &str) -> (r: Option<Vec<u8>>)
    ensures
        r matches Some(v) ==> {
            &&& s@.len() == 2 * v@.len()
            &&& hex_of(v@) == lower_hex_view(s@)
        },
        r is None ==> !is_hex_seq(s@) || s@.len() % 2 != 0,
{
    match hex::decode(s) {
        Ok(v) => Some(v),
        Err(_) => None,
    }
}

/// Whether every character is a hex digit (either case).
pub open spec fn is_hex_seq(s: Seq<char>) -> bool {
    forall|i: int| 0 <= i < s.len() ==> is_hex_digit(#[trigger] s[i])
}

pub open spec fn is_hex_digit(c: char) -> bool {
    ('0' <= c && c <= '9') || ('a' <= c && c <= 'f') || ('A' <= c && c <= 'F')
}

/// The same sequence with upper-case hex digits lowered.
pub open spec fn lower_hex_view(s: Seq<char>) -> Seq<char> {
    s.map_values(|c: char| if 'A' <= c && c <= 'F' { ((c as u32) + 32) as char } else { c })
}

/// One-way deterministic keyed hash used to locate sensitive identifiers by
/// equality without storing them in cleartext: lower-case hex of the SHA-256
/// digest of salt then value. Constant per tenant salt, so records cannot be
/// correlated across tenants without the salt.
pub fn hash_national_id(national_id: &str, tenant_salt: &str) -> (r: String)
    ensures
        r@ == hex_of(lookup_digest_of(tenant_salt@, national_id@)),
        r@.len() == 64,
{
    let digest = sha256_salted(tenant_salt, national_id);
    proof {
        lemma_hex_of_len(digest@);
    }
    hex_encode(&digest)
}

/// Decodes an even-length hex string; `None` for odd length or a non-hex
/// character.
pub fn hex_decode(s: &str) -> (r: Option<Vec<u8>>)
    ensures
        r matches Some(v) ==> s@.len() == 2 * v@.len() && hex_of(v@) == lower_hex_view(s@),
        r is None ==> !is_hex_seq(s@) || s@.len() % 2 != 0,
{
    hex_decode_raw(s)
}

/// Relies on aes_gcm's `Aes256Gcm` together with a fresh random nonce from
/// the OS: seals the value under the key and returns nonce (12 bytes) then
/// ciphertext with its 16-byte tag appended. AES-GCM decryption of the
/// returned blob under the same key recovers exactly the sealed value, and
/// sealing succeeds for every plaintext up to the AES-GCM length bound of
/// 2^36 bytes.
#[verifier::external_body]
fn aead_seal(value: &str, key: &[u8; 32]) -> (r: Result<Vec<u8>, ()>)
    ensures
        r matches Ok(blob) ==> {
            &&& aead_plain_of(blob@, key@) == Some(value@)
            &&& blob@.len() >= 28
        },
        value.spec_bytes().len() <= 0x10_0000_0000 ==> r is Ok,
{
    let cipher = aes_gcm::Aes256Gcm::new(aes_gcm::aead::generic_array::GenericArray::from_slice(
        key,
    ));
    let mut nonce_bytes = [0u8; 12];
    aes_gcm::aead::OsRng.fill_bytes(&mut nonce_bytes);
    let nonce = aes_gcm::Nonce::from_slice(&nonce_bytes);
    match cipher.encrypt(nonce, value.as_bytes()) {
        Ok(ciphertext) => {
            let mut result = Vec::with_capacity(12 + ciphertext.len());
            result.extend_from_slice(&nonce_bytes);
            result.extend_from_slice(&ciphertext);
            Ok(result)
        },
        Err(_) => Err(()),
    }
}

/// Relies on aes_gcm's `Aes256Gcm`: splits the blob into nonce (first 12
/// bytes) and ciphertext, decrypts under the key, and decodes the plaintext
/// as UTF-8. Fails exactly when tag verification or UTF-8 decoding fails,
/// which is what `aead_plain_of` names.
#[verifier::external_body]
fn aead_open(blob: &[u8], key: &[u8; 32]) -> (r: Result<String, ()>)
    requires
        blob@.len() >= 12,
    ensures
        match r {
            Ok(s) => aead_plain_of(blob@, key@) == Some(s@),
            Err(_) => aead_plain_of(blob@, key@) is None,
        },
{
    let cipher = aes_gcm::Aes256Gcm::new(aes_gcm::aead::generic_array::GenericArray::from_slice(
        key,
    ));
    let nonce = aes_gcm::Nonce::from_slice(&blob[0..12]);
    match cipher.decrypt(nonce, &blob[12..]) {
        Ok(plain) => match String::from_utf8(plain) {
            Ok(s) => Ok(s),
            Err(_) => Err(()),
        },
        Err(_) => Err(()),
    }
}

/// Authenticated encryption of a sensitive value for at-rest storage. The
/// blob is self-contained: random per-call nonce prepended, then ciphertext
/// and tag. Decrypting the result under the same key yields the value again.
pub fn encrypt_national_id(national_id: &str, key: &[u8; 32]) -> (r: Result<
    Vec<u8>,
    AuthError,
>)
    ensures
        r matches Ok(blob) ==> {
            &&& aead_plain_of(blob@, key@) == Some(national_id@)
            &&& blob@.len() >= 28
        },
        r is Err ==> r == Err::<Vec<u8>, AuthError>(AuthError::Infrastructure),
        national_id.spec_bytes().len() <= 0x10_0000_0000 ==> r is Ok,
{
    match aead_seal(national_id, key) {
        Ok(blob) => Ok(blob),
        Err(_) => Err(AuthError::Infrastructure),
    }
}

/// Authenticated decryption of a stored blob. Fails with an integrity error
/// when the blob is truncated (shorter than the nonce) or when tag
/// verification fails; never returns corrupted plaintext.
pub fn decrypt_national_id(encrypted_data: &[u8], key: &[u8; 32]) -> (r: Result<
    String,
    AuthError,
>)
    ensures
        encrypted_data@.len() < 12 ==> r == Err::<String, AuthError>(AuthError::Integrity),
        encrypted_data@.len() >= 12 ==> match r {
            Ok(s) => aead_plain_of(encrypted_data@, key@) == Some(s@),
            Err(e) => aead_plain_of(encrypted_data@, key@) is None && e == AuthError::Integrity,
        },
{
    if encrypted_data.len() < 12 {
        return Err(AuthError::Integrity);
    }
    match aead_open(encrypted_data, key) {
        Ok(s) => Ok(s),
        Err(_) => Err(AuthError::Integrity),
    }
}

/// The at-rest cipher round trip: encrypting any value and decrypting the
/// resulting blob under the same key yields exactly that value — never a
/// corrupted one — and succeeds for every value within the cipher's length
/// bound. Stated as a verified composition of the two operations.
pub fn encrypt_decrypt_round_trip(value: &str, key: &[u8; 32]) -> (r: Result<String, AuthError>)
    ensures
        r matches Ok(s) ==> s@ == value@,
        value.spec_bytes().len() <= 0x10_0000_0000 ==> (r matches Ok(s) && s@ == value@),
{
    let blob = match encrypt_national_id(value, key) {
        Ok(b) => b,
        Err(e) => {
            return Err(e);
        },
    };
    decrypt_national_id(blob.as_slice(), key)
}

/// Relies on the OS random generator and base64's URL_SAFE_NO_PAD engine:
/// 32 cryptographically random bytes, base64url-encoded without padding,
/// which is always 43 characters. Nothing further can be promised of a
/// random value.
#[verifier::external_body]
pub fn generate_secure_token() -> (r: String)
    ensures
        r@.len() == 43,
{
    let mut bytes = [0u8; 32];
    rand::rngs::OsRng.fill_bytes(&mut bytes);
    base64::engine::general_purpose::URL_SAFE_NO_PAD.encode(bytes)
}

/// Relies on argon2's `Argon2::hash_password` with a fresh random salt: on
/// success the returned PHC string verifies against exactly the hashed
/// secret (recomputing with the embedded salt and parameters and comparing),
/// which is what `argon_matches` names. The salt is random, so nothing else
/// is promised of the string.
#[verifier::external_body]
pub(crate) fn argon_hash(secret: &str) -> (r: Result<String, ()>)
    ensures
        r matches Ok(h) ==> argon_matches(h@, secret@),
{
    let salt = argon2::password_hash::SaltString::generate(
        &mut argon2::password_hash::rand_core::OsRng,
    );
    match argon2::Argon2::default().hash_password(secret.as_bytes(), &salt) {
        Ok(h) => Ok(h.to_string()),
        Err(_) => Err(()),
    }
}

/// Relies on argon2's `Argon2::verify_password`: parses the stored PHC
/// string and recomputes the hash of the presented secret with the embedded
/// salt and parameters, succeeding exactly on a match; a string that does
/// not parse matches nothing. Deterministic in (hash, secret), which is what
/// `argon_matches` names.
#[verifier::external_body]
pub(crate) fn argon_verify(hash: &str, secret: &str) -> (r: bool)
    ensures
        r == argon_matches(hash@, secret@),
{
    match argon2::PasswordHash::new(hash) {
        Ok(parsed) => {
            argon2::Argon2::default().verify_password(secret.as_bytes(), &parsed).is_ok()
        },
        Err(_) => false,
    }
}

/// Relies on uuid's `Uuid::new_v4`: a random version-4 identifier, returned
/// as its 128-bit value. Random, so nothing is promised of it.
#[verifier::external_body]
pub(crate) fn fresh_session_id() -> u128 {
    uuid::Uuid::new_v4().as_u128()
}

} // verus!
