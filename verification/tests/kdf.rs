use sha2::{Digest, Sha256};
use styx_core::kdf::{
    decrypt_metadata, derive_nonce, derive_shared_key, derive_transfer_mask, encrypt_metadata,
    ratchet_derive,
};

fn sha256_concat(parts: &[&[u8]]) -> [u8; 32] {
    let mut h = Sha256::new();
    for p in parts {
        h.update(p);
    }
    let d = h.finalize();
    let mut out = [0u8; 32];
    out.copy_from_slice(&d);
    out
}

#[test]
fn shared_key_matches_direct_hash() {
    let a = [0x11u8; 32];
    let b = [0x22u8; 32];
    let key = derive_shared_key(&a, &b);
    assert_eq!(key, sha256_concat(&[&a, &b]));
    // Argument order is part of the contract: swapping changes the key.
    assert_ne!(key, derive_shared_key(&b, &a));
}

#[test]
fn nonce_is_hash_prefix() {
    let domain = b"STYX_MSG_NONCE_V3";
    let material = [0x42u8; 32];
    let nonce = derive_nonce(domain, &material);
    let full = sha256_concat(&[domain, &material]);
    assert_eq!(nonce, full[..12]);
}

#[test]
fn metadata_round_trip() {
    let sender = [0xaau8; 32];
    let recipient = [0x5cu8; 32];
    let hidden = encrypt_metadata(&sender, &recipient);
    assert_ne!(hidden, recipient);
    assert_eq!(decrypt_metadata(&sender, &hidden), recipient);
}

#[test]
fn metadata_keystream_depends_on_sender() {
    let recipient = [0x5cu8; 32];
    let h1 = encrypt_metadata(&[1u8; 32], &recipient);
    let h2 = encrypt_metadata(&[2u8; 32], &recipient);
    assert_ne!(h1, h2);
}

#[test]
fn metadata_matches_direct_hash() {
    let sender = [9u8; 32];
    let recipient = [3u8; 32];
    let ks = sha256_concat(&[b"STYX_METADATA_KEY_V3", &sender]);
    let mut expected = [0u8; 32];
    for i in 0..32 {
        expected[i] = recipient[i] ^ ks[i];
    }
    assert_eq!(encrypt_metadata(&sender, &recipient), expected);
}

#[test]
fn transfer_mask_round_trip() {
    let sender = [4u8; 32];
    let recipient = [8u8; 32];
    let nonce = [1, 2, 3, 4, 5, 6, 7, 8];
    let mask = derive_transfer_mask(&sender, &recipient, &nonce);
    let amount: u64 = 123_456_789;
    assert_eq!((amount ^ mask) ^ mask, amount);
}

#[test]
fn transfer_mask_matches_direct_hash() {
    let sender = [4u8; 32];
    let recipient = [8u8; 32];
    let nonce = [1, 2, 3, 4, 5, 6, 7, 8];
    let h = sha256_concat(&[b"STYX_TRANSFER_V1", &sender, &recipient, &nonce]);
    let expected = u64::from_le_bytes(h[..8].try_into().unwrap());
    assert_eq!(derive_transfer_mask(&sender, &recipient, &nonce), expected);
}

#[test]
fn ratchet_diverges_across_counters() {
    let ck = [0x77u8; 32];
    let (c0, m0) = ratchet_derive(&ck, 0);
    let (c1, m1) = ratchet_derive(&ck, 1);
    assert_ne!(c0, c1);
    assert_ne!(m0, m1);
    assert_ne!(c0, m0);
    assert_ne!(c1, m1);
}

#[test]
fn ratchet_matches_direct_hash() {
    let ck = [0x10u8; 32];
    let counter: u64 = 42;
    let (next, msg) = ratchet_derive(&ck, counter);
    let expected_next =
        sha256_concat(&[b"STYX_RATCHET_CHAIN_V1", &ck, &counter.to_le_bytes(), &[0x01]]);
    let expected_msg =
        sha256_concat(&[b"STYX_RATCHET_MSG_V1", &ck, &counter.to_le_bytes(), &[0x02]]);
    assert_eq!(next, expected_next);
    assert_eq!(msg, expected_msg);
}

#[test]
fn ratchet_is_deterministic() {
    let ck = [0x33u8; 32];
    assert_eq!(ratchet_derive(&ck, 7), ratchet_derive(&ck, 7));
}
