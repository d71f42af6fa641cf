use chacha20poly1305::aead::Aead;
use chacha20poly1305::{ChaCha20Poly1305, Key, KeyInit, Nonce};
use styx_core::aead::{decrypt_payload, encrypt_payload};
use styx_core::instructions::PmpError;

#[test]
fn seal_open_round_trip() {
    let key = [0x42u8; 32];
    let nonce = [0x07u8; 12];
    let plaintext = b"the quick brown fox";
    let sealed = encrypt_payload(&key, &nonce, plaintext).expect("seal");
    assert_eq!(sealed.len(), plaintext.len() + 16);
    assert_ne!(&sealed[..plaintext.len()], plaintext.as_slice());
    let opened = decrypt_payload(&key, &nonce, &sealed).expect("open");
    assert_eq!(opened, plaintext.to_vec());
}

#[test]
fn seal_matches_cipher_directly() {
    let key = [0x42u8; 32];
    let nonce = [0x07u8; 12];
    let plaintext = b"payload";
    let sealed = encrypt_payload(&key, &nonce, plaintext).expect("seal");
    let cipher = ChaCha20Poly1305::new(Key::from_slice(&key));
    let direct = cipher.encrypt(Nonce::from_slice(&nonce), plaintext.as_slice()).expect("encrypt");
    assert_eq!(sealed, direct);
}

#[test]
fn tampered_ciphertext_rejected() {
    let key = [0x01u8; 32];
    let nonce = [0x02u8; 12];
    let mut sealed = encrypt_payload(&key, &nonce, b"secret").expect("seal");
    sealed[0] ^= 1;
    assert_eq!(decrypt_payload(&key, &nonce, &sealed), Err(PmpError::InvalidInstructionData));
}

#[test]
fn wrong_key_rejected() {
    let nonce = [0x02u8; 12];
    let sealed = encrypt_payload(&[0x01u8; 32], &nonce, b"secret").expect("seal");
    assert_eq!(
        decrypt_payload(&[0x03u8; 32], &nonce, &sealed),
        Err(PmpError::InvalidInstructionData)
    );
}

#[test]
fn empty_payload_seals() {
    let key = [0u8; 32];
    let nonce = [0u8; 12];
    let sealed = encrypt_payload(&key, &nonce, b"").expect("seal");
    assert_eq!(sealed.len(), 16);
    assert_eq!(decrypt_payload(&key, &nonce, &sealed).expect("open"), Vec::<u8>::new());
}
