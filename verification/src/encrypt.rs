use crate::errors::Error;
use aes_gcm::aead::Aead;
use aes_gcm::KeyInit;
use rand::Rng;
use vstd::prelude::*;

verus! {

/// The AES-256-GCM sealing of a plaintext under a 32-byte key and a
/// 12-byte nonce: ciphertext with the 16-byte authentication tag appended.
/// It is a pure function of the three inputs; its value is only ever
/// produced by the trusted wrapper around the outside cipher.
pub uninterp spec fn aes_gcm_seal(key: Seq<u8>, nonce: Seq<u8>, plaintext: Seq<u8>) -> Seq<u8>;

/// Relies on `rand::thread_rng`, a cryptographically secure source: 32
/// fresh bytes. Nothing is promised of their values — two calls may return
/// anything.
#[verifier::external_body]
fn generate_key() -> (r: Vec<u8>)
    ensures
        r@.len() == 32,
{
    let key: [u8; 32] = rand::thread_rng().gen();
    key.to_vec()
}

/// Relies on `rand::thread_rng`, a cryptographically secure source: 12
/// fresh bytes. Nothing is promised of their values.
#[verifier::external_body]
fn generate_nonce() -> (r: Vec<u8>)
    ensures
        r@.len() == 12,
{
    let nonce: [u8; 12] = rand::thread_rng().gen();
    nonce.to_vec()
}

/// Relies on `aes_gcm::Aes256Gcm`: authenticated encryption producing the
/// ciphertext with a postfix 16-byte tag, a function of key, nonce and
/// plaintext alone. Construction cannot reject a 32-byte key, and sealing
/// fails exactly when the plaintext exceeds the cipher's `P_MAX` of `2^36`
/// bytes, so `None` comes only from an over-long plaintext.
#[verifier::external_body]
fn aes256gcm_encrypt(key: &[u8], nonce: &[u8], plaintext: &[u8]) -> (r: Option<Vec<u8>>)
    requires
        key@.len() == 32,
        nonce@.len() == 12,
    ensures
        r is Some <==> plaintext@.len() <= 0x1000000000,
        r matches Some(c) ==> c@ == aes_gcm_seal(key@, nonce@, plaintext@) && c@.len()
            == plaintext@.len() + 16,
{
    let cipher = match aes_gcm::Aes256Gcm::new_from_slice(key) {
        Ok(c) => c,
        Err(_) => return None,
    };
    cipher.encrypt(aes_gcm::Nonce::from_slice(nonce), plaintext).ok()
}

/// Generates a fresh 256-bit key and 96-bit nonce and seals the compressed
/// bytes under them. On success the returned triple is
/// `(ciphertext, key, nonce)`: the ciphertext is the sealing of the input
/// under exactly the returned key material, 16 bytes longer than the input.
/// Succeeds exactly when the input fits the cipher's plaintext bound of
/// `2^36` bytes; beyond it the cipher rejects the input and the stage fails
/// with `EncryptionError`. Key and nonce are returned to the caller for the
/// manifest and are used nowhere else.
pub fn encrypt_file(contents: &[u8]) -> (r: Result<(Vec<u8>, Vec<u8>, Vec<u8>), Error>)
    ensures
        r is Ok <==> contents@.len() <= 0x1000000000,
        r matches Ok(t) ==> t.1@.len() == 32 && t.2@.len() == 12 && t.0@ == aes_gcm_seal(
            t.1@,
            t.2@,
            contents@,
        ) && t.0@.len() == contents@.len() + 16,
        r matches Err(e) ==> e == Error::EncryptionError,
{
    let key = generate_key();
    let nonce = generate_nonce();
    match aes256gcm_encrypt(key.as_slice(), nonce.as_slice(), contents) {
        Some(ciphertext) => Ok((ciphertext, key, nonce)),
        None => Err(Error::EncryptionError),
    }
}

} // verus!
