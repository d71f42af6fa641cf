//! Authenticated encryption of message payloads: ChaCha20-Poly1305 behind
//! trusted wrappers, with the protocol's error mapping on top.

use vstd::prelude::*;
use crate::instructions::PmpError;

verus! {

/// The ChaCha20-Poly1305 sealing of `plaintext` under `key` and `nonce`:
/// ciphertext with the 16-byte authentication tag appended. The cipher is
/// far too intricate to state here; contracts rely on it being a pure
/// function of its three inputs.
pub uninterp spec fn chacha_seal(key: Seq<u8>, nonce: Seq<u8>, plaintext: Seq<u8>) -> Seq<u8>;

/// What opening a candidate ciphertext under `key` and `nonce` yields: the
/// plaintext, or nothing when authentication fails.
pub uninterp spec fn chacha_open(key: Seq<u8>, nonce: Seq<u8>, ciphertext: Seq<u8>) -> Option<
    Seq<u8>,
>;

/// Relies on chacha20poly1305's `ChaCha20Poly1305`: encryption is a pure
/// function of key, nonce and plaintext; the ciphertext is 16 bytes longer
/// than the plaintext; decrypting it under the same key and nonce gives the
/// plaintext back; and the cipher refuses an encryption only once the
/// plaintext reaches 2^32 - 1 ChaCha blocks (about 2^38 bytes), so any
/// plaintext under 2^28 bytes seals successfully.
#[verifier::external_body]
fn chacha_encrypt(key: &[u8; 32], nonce: &[u8; 12], plaintext: &[u8]) -> (r: Option<Vec<u8>>)
    ensures
        r matches Some(c) ==> c@ == chacha_seal(key@, nonce@, plaintext@) && c@.len()
            == plaintext@.len() + 16 && chacha_open(key@, nonce@, c@) == Some(plaintext@),
        plaintext@.len() < 0x1000_0000 ==> r is Some,
{
    let cipher = <chacha20poly1305::ChaCha20Poly1305 as chacha20poly1305::KeyInit>::new(
        chacha20poly1305::Key::from_slice(key),
    );
    let nonce = chacha20poly1305::Nonce::from_slice(nonce);
    match chacha20poly1305::aead::Aead::encrypt(&cipher, nonce, plaintext) {
        Ok(c) => Some(c),
        Err(_) => None,
    }
}

/// Relies on chacha20poly1305's `ChaCha20Poly1305`: decryption depends on
/// key, nonce and ciphertext alone, and rejects what does not authenticate.
#[verifier::external_body]
fn chacha_decrypt(key: &[u8; 32], nonce: &[u8; 12], ciphertext: &[u8]) -> (r: Option<Vec<u8>>)
    ensures
        (r matches Some(p) ==> chacha_open(key@, nonce@, ciphertext@) == Some(p@)),
        (r is None ==> chacha_open(key@, nonce@, ciphertext@) is None),
{
    let cipher = <chacha20poly1305::ChaCha20Poly1305 as chacha20poly1305::KeyInit>::new(
        chacha20poly1305::Key::from_slice(key),
    );
    let nonce = chacha20poly1305::Nonce::from_slice(nonce);
    match chacha20poly1305::aead::Aead::decrypt(&cipher, nonce, ciphertext) {
        Ok(p) => Some(p),
        Err(_) => None,
    }
}

/// Seals a payload under a derived key and nonce. Success is owed for
/// every plaintext under 2^28 bytes; the cipher's refusal beyond that
/// surfaces as the protocol's malformed-data error.
pub fn encrypt_payload(key: &[u8; 32], nonce: &[u8; 12], plaintext: &[u8]) -> (r: Result<
    Vec<u8>,
    PmpError,
>)
    ensures
        (r matches Ok(c) ==> c@ == chacha_seal(key@, nonce@, plaintext@) && c@.len()
            == plaintext@.len() + 16 && chacha_open(key@, nonce@, c@) == Some(plaintext@)),
        (r matches Err(e) ==> e == PmpError::InvalidInstructionData),
        plaintext@.len() < 0x1000_0000 ==> r is Ok,
{
    match chacha_encrypt(key, nonce, plaintext) {
        Some(c) => Ok(c),
        None => Err(PmpError::InvalidInstructionData),
    }
}

/// Opens a sealed payload under a derived key and nonce. A ciphertext that
/// does not authenticate surfaces as the protocol's malformed-data error,
/// and no partial plaintext is returned.
pub fn decrypt_payload(key: &[u8; 32], nonce: &[u8; 12], ciphertext: &[u8]) -> (r: Result<
    Vec<u8>,
    PmpError,
>)
    ensures
        (r matches Ok(p) ==> chacha_open(key@, nonce@, ciphertext@) == Some(p@)),
        (r matches Err(e) ==> e == PmpError::InvalidInstructionData && chacha_open(
            key@,
            nonce@,
            ciphertext@,
        ) is None),
{
    match chacha_decrypt(key, nonce, ciphertext) {
        Some(p) => Ok(p),
        None => Err(PmpError::InvalidInstructionData),
    }
}

} // verus!
