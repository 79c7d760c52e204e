//! The cryptographic primitives the library relies on, each a call into
//! its crate: SHA-256 (`sha2`), Ed25519 signatures (`ed25519-dalek`) and
//! Argon2 password hashes (`argon2`). Their results are named here, and the
//! few facts that the crates' documentation gives are stated beside them.
use vstd::prelude::*;

use crate::text::starts_with;
use vstd::utf8::encode_utf8;
use argon2::password_hash::rand_core::OsRng;
use argon2::password_hash::{PasswordHasher, PasswordVerifier, SaltString};
use ed25519_dalek::{Signer, Verifier};
use sha2::Digest;

verus! {

/// The SHA-256 digest of `data`.
pub uninterp spec fn sha256_digest(data: Seq<u8>) -> Seq<u8>;

/// Calls `sha2::Sha256::digest`; the result is named `sha256_digest`.
#[verifier::external_body]
pub(crate) fn sha256(data: &[u8]) -> (r: [u8; 32])
    ensures
        r@ == sha256_digest(data@),
{
    sha2::Sha256::digest(data).into()
}

/// What `ed25519_dalek::VerifyingKey::from_bytes` makes of `key`: `None`
/// when it accepts the bytes (they decompress to a curve point), else the
/// text of the `SignatureError` it refuses them with.
pub uninterp spec fn ed25519_key_refusal(key: Seq<u8>) -> Option<Seq<char>>;

/// Whether `ed25519_dalek::VerifyingKey::from_bytes` accepts `key`.
pub open spec fn ed25519_key_accepted(key: Seq<u8>) -> bool {
    ed25519_key_refusal(key) is None
}

/// Whether `signature` is a valid Ed25519 signature of `message` under the
/// public key `key` (false when the key is not accepted).
pub uninterp spec fn ed25519_signature_valid(key: Seq<u8>, message: Seq<u8>, signature: Seq<u8>) -> bool;

/// The public key that belongs to the secret key `secret`.
pub uninterp spec fn ed25519_public_key(secret: Seq<u8>) -> Seq<u8>;

/// The signature that the secret key `secret` makes over `message`
/// (Ed25519 signing is deterministic).
pub uninterp spec fn ed25519_signature(secret: Seq<u8>, message: Seq<u8>) -> Seq<u8>;

/// Calls `ed25519_dalek::VerifyingKey::from_bytes` on the 32 bytes (taken
/// as an array); a refusal comes back as the error's text. The outcome is
/// named `ed25519_key_refusal`.
#[verifier::external_body]
pub(crate) fn check_public_key(key: &[u8]) -> (r: Result<(), String>)
    requires
        key@.len() == 32,
    ensures
        match ed25519_key_refusal(key@) {
            None => r is Ok,
            Some(m) => r matches Err(e) && e@ == m,
        },
{
    let key: &[u8; 32] = key.try_into().unwrap();
    match ed25519_dalek::VerifyingKey::from_bytes(key) {
        Ok(_) => Ok(()),
        Err(e) => Err(e.to_string()),
    }
}

/// Reads `key` with `ed25519_dalek::VerifyingKey::from_bytes` and `signature`
/// with `ed25519_dalek::Signature::from_bytes`, then calls the key's
/// `Verifier::verify`; the outcome is named `ed25519_signature_valid`. A key
/// that is not accepted verifies nothing.
#[verifier::external_body]
pub(crate) fn verify_signature(key: &[u8], message: &[u8], signature: &[u8]) -> (r: bool)
    requires
        key@.len() == 32,
        signature@.len() == 64,
    ensures
        r == ed25519_signature_valid(key@, message@, signature@),
        r ==> ed25519_key_accepted(key@),
{
    let key: &[u8; 32] = key.try_into().unwrap();
    let signature: &[u8; 64] = signature.try_into().unwrap();
    match ed25519_dalek::VerifyingKey::from_bytes(key) {
        Ok(k) => k.verify(message, &ed25519_dalek::Signature::from_bytes(signature)).is_ok(),
        Err(_) => false,
    }
}

/// Calls `ed25519_dalek::SigningKey::from_bytes`, then `verifying_key` and
/// its `to_bytes`; the result is named `ed25519_public_key`. The bytes are
/// the compressed form of a curve point, so `VerifyingKey::from_bytes`
/// accepts them again.
#[verifier::external_body]
pub(crate) fn public_key_of(secret: &[u8]) -> (r: Vec<u8>)
    requires
        secret@.len() == 32,
    ensures
        r@ == ed25519_public_key(secret@),
        r@.len() == 32,
        ed25519_key_accepted(r@),
{
    let secret: &[u8; 32] = secret.try_into().unwrap();
    ed25519_dalek::SigningKey::from_bytes(secret).verifying_key().to_bytes().to_vec()
}

/// Calls `ed25519_dalek::SigningKey::from_bytes`, then `Signer::sign` and the
/// signature's `to_bytes`; the result is named `ed25519_signature`. As the
/// crate documents, the signature verifies under the matching public key.
#[verifier::external_body]
pub(crate) fn sign_message(secret: &[u8], message: &[u8]) -> (r: Vec<u8>)
    requires
        secret@.len() == 32,
    ensures
        r@ == ed25519_signature(secret@, message@),
        r@.len() == 64,
        ed25519_signature_valid(ed25519_public_key(secret@), message@, r@),
{
    let secret: &[u8; 32] = secret.try_into().unwrap();
    ed25519_dalek::SigningKey::from_bytes(secret).sign(message).to_bytes().to_vec()
}

/// Whether `Argon2::default().verify_password` accepts `password` against
/// the PHC string `stored` (false when `password_hash::PasswordHash::new`
/// cannot read `stored`).
pub uninterp spec fn argon2_accepts(password: Seq<char>, stored: Seq<char>) -> bool;

/// Reads `stored` with `password_hash::PasswordHash::new` and calls
/// `Argon2::default().verify_password` with the UTF-8 bytes of `password`;
/// the outcome is named `argon2_accepts`.
#[verifier::external_body]
pub(crate) fn argon2_verify(password: &str, stored: &str) -> (r: bool)
    ensures
        r == argon2_accepts(password@, stored@),
{
    match argon2::password_hash::PasswordHash::new(stored) {
        Ok(parsed) => argon2::Argon2::default().verify_password(password.as_bytes(), &parsed).is_ok(),
        Err(_) => false,
    }
}

/// Calls `Argon2::default().hash_password` with the UTF-8 bytes of
/// `password` and a fresh `SaltString::generate(&mut OsRng)`, and gives the
/// PHC string, or `None` when hashing fails. With the default parameters
/// and a generated salt, the crate refuses only a password of 2^32 bytes or
/// more (`MAX_PWD_LEN`). The salt is random, so nothing names the result;
/// the string is in PHC form for an Argon2 variant (`$argon2...`) and
/// verifies against the same password.
#[verifier::external_body]
pub(crate) fn argon2_hash_with_fresh_salt(password: &str) -> (r: Option<String>)
    ensures
        encode_utf8(password@).len() < 0x1_0000_0000 ==> r is Some,
        r matches Some(h) ==> argon2_accepts(password@, h@) && starts_with(h@, "$argon2"@),
{
    let salt = SaltString::generate(&mut OsRng);
    match argon2::Argon2::default().hash_password(password.as_bytes(), &salt) {
        Ok(h) => Some(h.to_string()),
        Err(_) => None,
    }
}

} // verus!
