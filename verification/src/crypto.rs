//! The cryptographic and system primitives the ledger rests on.
//!
//! Each function here hands its work to an outside crate.  What the
//! outside code computes is named by an uninterpreted spec function (a
//! SHA-256 digest, an Argon2id key, an Ed25519 signature, an AES-256-GCM
//! ciphertext); the contracts tie each result to that name applied to the
//! arguments, plus the few facts the ledger needs that the crates'
//! sources and documentation show.

use vstd::prelude::*;
use vstd::utf8::*;
use aes_gcm::aead::Aead;
use aes_gcm::{AeadCore, KeyInit};
use ed25519_dalek::{Signer, Verifier};
use rand::Rng;
use sha2::Digest;

verus! {

/// The SHA-256 digest of a byte string.
pub uninterp spec fn sha256_digest(data: Seq<u8>) -> Seq<u8>;

/// The text that `{:?}` prints for a string: the string quoted and escaped.
pub uninterp spec fn debug_escaped(text: Seq<char>) -> Seq<char>;

/// The 32-byte key that Argon2id with its default parameters derives from
/// a password and a salt.
pub uninterp spec fn argon2id_key(password: Seq<u8>, salt: Seq<u8>) -> Seq<u8>;

/// The Ed25519 public key (compressed point) of a 32-byte secret key.
pub uninterp spec fn ed25519_public_key(secret: Seq<u8>) -> Seq<u8>;

/// The Ed25519 signature of a message under a 32-byte secret key.
pub uninterp spec fn ed25519_sign(secret: Seq<u8>, message: Seq<u8>) -> Seq<u8>;

/// Whether 32 bytes decompress to a curve point usable as a public key.
pub uninterp spec fn ed25519_key_valid(public: Seq<u8>) -> bool;

/// Whether a signature on a message checks out under a public key.
pub uninterp spec fn ed25519_verify(public: Seq<u8>, message: Seq<u8>, signature: Seq<u8>) -> bool;

/// The AES-256-GCM ciphertext (with its 16-byte tag appended) of a
/// plaintext under a key and a 12-byte nonce, with no associated data.
pub uninterp spec fn aes256gcm_seal(key: Seq<u8>, nonce: Seq<u8>, plaintext: Seq<u8>) -> Seq<u8>;

/// The plaintext that AES-256-GCM recovers from a ciphertext under a key
/// and nonce, or `None` when the tag does not authenticate.
pub uninterp spec fn aes256gcm_open(key: Seq<u8>, nonce: Seq<u8>, ciphertext: Seq<u8>) -> Option<Seq<u8>>;

/// `sha2::Sha256::digest`: the result is the named digest of the input,
/// 32 bytes long.
#[verifier::external_body]
pub(crate) fn sha256(data: &[u8]) -> (r: Vec<u8>)
    ensures
        r@ == sha256_digest(data@),
        r@.len() == 32,
{
    sha2::Sha256::digest(data).to_vec()
}

/// `<str as Debug>::fmt` through `format!("{:?}")`: the result is the
/// named quoted and escaped text of the input.
#[verifier::external_body]
pub(crate) fn debug_escape(text: &str) -> (r: String)
    ensures
        r@ == debug_escaped(text@),
{
    format!("{:?}", text)
}

/// `argon2::Argon2::default().hash_password_into` with a 32-byte output.
/// The crate fails only for a password over `0xFFFF_FFFF` bytes or a salt
/// outside 8 to `0xFFFF_FFFF` bytes, which `requires` rules out; the
/// result is the named key of the password and salt.
#[verifier::external_body]
pub(crate) fn argon2id_derive(password: &[u8], salt: &[u8]) -> (r: [u8; 32])
    requires
        password@.len() <= 0xFFFF_FFFF,
        8 <= salt@.len() <= 0xFFFF_FFFF,
    ensures
        r@ == argon2id_key(password@, salt@),
{
    let mut out = [0u8; 32];
    argon2::Argon2::default().hash_password_into(password, salt, &mut out).expect("argon2 inputs");
    out
}

/// `ed25519_dalek::SigningKey::from_bytes(secret).verifying_key()`, as
/// bytes: the named public key of the secret.  A key made this way is a
/// compressed curve point, so `VerifyingKey::from_bytes` accepts it.
#[verifier::external_body]
pub(crate) fn ed25519_public(secret: &[u8; 32]) -> (r: [u8; 32])
    ensures
        r@ == ed25519_public_key(secret@),
        ed25519_key_valid(r@),
{
    ed25519_dalek::SigningKey::from_bytes(secret).verifying_key().to_bytes()
}

/// `ed25519_dalek::SigningKey::sign`, as bytes: the named signature of the
/// message under the secret.  As the crate documents, the signature
/// verifies under the secret's own public key.
#[verifier::external_body]
pub(crate) fn ed25519_sign_message(secret: &[u8; 32], message: &[u8]) -> (r: [u8; 64])
    ensures
        r@ == ed25519_sign(secret@, message@),
        ed25519_verify(ed25519_public_key(secret@), message@, r@),
{
    ed25519_dalek::SigningKey::from_bytes(secret).sign(message).to_bytes()
}

/// `ed25519_dalek::VerifyingKey::from_bytes` followed by `verify`: `None`
/// when the public key bytes do not decompress, else whether the signature
/// verifies.
#[verifier::external_body]
pub(crate) fn ed25519_check(public: &[u8; 32], message: &[u8], signature: &[u8; 64]) -> (r: Option<bool>)
    ensures
        r == (if ed25519_key_valid(public@) {
            Some(ed25519_verify(public@, message@, signature@))
        } else {
            None
        }),
{
    match ed25519_dalek::VerifyingKey::from_bytes(public) {
        Ok(key) => Some(key.verify(message, &ed25519_dalek::Signature::from_bytes(signature)).is_ok()),
        Err(_) => None,
    }
}

/// `aes_gcm::Aes256Gcm::encrypt` with no associated data.  The crate fails
/// only for a plaintext over 2^36 bytes, which `requires` rules out.  The
/// result is the named ciphertext: as long as the plaintext, followed by a
/// 16-byte tag.  Decrypting it with the same key and nonce gives the
/// plaintext back.
#[verifier::external_body]
pub(crate) fn aes256gcm_encrypt(key: &[u8; 32], nonce: &[u8; 12], plaintext: &[u8]) -> (r: Vec<u8>)
    requires
        plaintext@.len() <= 0x10_0000_0000,
    ensures
        r@ == aes256gcm_seal(key@, nonce@, plaintext@),
        aes256gcm_open(key@, nonce@, r@) == Some(plaintext@),
        r@.len() == plaintext@.len() + 16,
{
    let cipher = aes_gcm::Aes256Gcm::new(aes_gcm::Key::<aes_gcm::Aes256Gcm>::from_slice(key));
    cipher.encrypt(aes_gcm::Nonce::from_slice(nonce), plaintext).expect("plaintext length")
}

/// `aes_gcm::Aes256Gcm::decrypt` with no associated data: the named
/// plaintext, `None` where it does not authenticate.
#[verifier::external_body]
pub(crate) fn aes256gcm_decrypt(key: &[u8; 32], nonce: &[u8], ciphertext: &[u8]) -> (r: Option<Vec<u8>>)
    requires
        nonce@.len() == 12,
    ensures
        match r {
            Some(p) => aes256gcm_open(key@, nonce@, ciphertext@) == Some(p@),
            None => aes256gcm_open(key@, nonce@, ciphertext@) is None,
        },
{
    let cipher = aes_gcm::Aes256Gcm::new(aes_gcm::Key::<aes_gcm::Aes256Gcm>::from_slice(key));
    cipher.decrypt(aes_gcm::Nonce::from_slice(nonce), ciphertext).ok()
}

/// `Aes256Gcm::generate_nonce(&mut OsRng)`: twelve random bytes.  Nothing
/// is stated of their values.
#[verifier::external_body]
pub(crate) fn random_nonce() -> (r: [u8; 12]) {
    aes_gcm::Aes256Gcm::generate_nonce(&mut argon2::password_hash::rand_core::OsRng).into()
}

/// `SaltString::generate(&mut OsRng)`: sixteen random bytes in unpadded
/// B64, which is 22 ASCII characters.  Nothing more is stated of them.
#[verifier::external_body]
pub(crate) fn random_salt() -> (r: String)
    ensures
        r@.len() == 22,
        is_ascii_chars(r@),
{
    argon2::password_hash::SaltString::generate(&mut argon2::password_hash::rand_core::OsRng).as_str().to_string()
}

/// `rand::rng().random_range(0..n)`: some index below `n`.
#[verifier::external_body]
pub(crate) fn random_index(n: usize) -> (r: usize)
    requires
        n > 0,
    ensures
        r < n,
{
    rand::rng().random_range(0..n)
}

/// `chrono::Utc::now().timestamp_millis()`: the current time in
/// milliseconds since the Unix epoch.  Nothing is stated of its value.
#[verifier::external_body]
pub(crate) fn now_millis() -> (r: i64) {
    chrono::Utc::now().timestamp_millis()
}

/// `TryFrom<Vec<u8>> for [u8; N]`: the bytes as an array exactly when the
/// length is `N`.
#[verifier::external_body]
pub(crate) fn bytes_to_array<const N: usize>(v: Vec<u8>) -> (r: Option<[u8; N]>)
    ensures
        match r {
            Some(a) => v@.len() == N && a@ == v@,
            None => v@.len() != N,
        },
{
    v.try_into().ok()
}

} // verus!
