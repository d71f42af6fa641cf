use sha2::{Digest, Sha256};
use styx_core::merkle::{claim_leaf, compute_root, hash_pair, leaf_hash, parent, verify_merkle};

fn sha256_concat(parts: &[&[u8]]) -> [u8; 32] {
    let mut h = Sha256::new();
    for p in parts {
        h.update(p);
    }
    let d = h.finalize();
    let mut out = [0u8; 32];
    out.copy_from_slice(&d);
    out
}

#[test]
fn hash_pair_is_order_independent() {
    let a = [1u8; 32];
    let b = [2u8; 32];
    assert_eq!(hash_pair(&a, &b), hash_pair(&b, &a));
    assert_eq!(hash_pair(&a, &b), sha256_concat(&[&a, &b]));
    assert_eq!(parent(a, b), hash_pair(&a, &b));
}

#[test]
fn hash_pair_orders_lexicographically() {
    let mut lo = [0u8; 32];
    let mut hi = [0u8; 32];
    lo[31] = 1;
    hi[0] = 1;
    assert_eq!(hash_pair(&hi, &lo), sha256_concat(&[&lo, &hi]));
}

#[test]
fn two_leaf_tree_verifies() {
    let l1 = sha256_concat(&[b"leaf one"]);
    let l2 = sha256_concat(&[b"leaf two"]);
    let root = hash_pair(&l1, &l2);
    assert!(verify_merkle(l1, &vec![l2], root));
    assert!(verify_merkle(l2, &vec![l1], root));
    assert!(!verify_merkle(l1, &vec![l1], root));
    assert!(!verify_merkle(l1, &vec![l2], [0u8; 32]));
}

#[test]
fn four_leaf_tree_verifies() {
    let leaves: Vec<[u8; 32]> = (0u8..4).map(|i| sha256_concat(&[&[i]])).collect();
    let n01 = hash_pair(&leaves[0], &leaves[1]);
    let n23 = hash_pair(&leaves[2], &leaves[3]);
    let root = hash_pair(&n01, &n23);
    assert!(verify_merkle(leaves[2], &vec![leaves[3], n01], root));
    assert!(!verify_merkle(leaves[2], &vec![n01, leaves[3]], root));
}

#[test]
fn empty_path_is_the_leaf_itself() {
    let leaf = [9u8; 32];
    assert_eq!(compute_root(leaf, &vec![]), leaf);
    assert!(verify_merkle(leaf, &vec![], leaf));
}

#[test]
fn claim_leaf_matches_direct_hash() {
    let campaign = [0xabu8; 32];
    let recipient = [0xcdu8; 32];
    let nonce = [0xefu8; 16];
    let allocation: u64 = 5000;
    let expected = sha256_concat(&[
        b"wd:claim:v1",
        &campaign,
        &recipient,
        &allocation.to_le_bytes(),
        &nonce,
    ]);
    assert_eq!(claim_leaf(campaign, &recipient, allocation, nonce), expected);
}

#[test]
fn leaf_hash_matches_direct_hash() {
    let campaign = [0x12u8; 32];
    let recipient = [0x34u8; 32];
    let nonce = [0x56u8; 16];
    let allocation: u64 = 1;
    let expected = sha256_concat(&[
        b"wdleaf1",
        &campaign,
        &recipient,
        &allocation.to_le_bytes(),
        &nonce,
    ]);
    assert_eq!(leaf_hash(&campaign, &recipient, allocation, &nonce), expected);
    // The two claim-leaf formats never coincide: distinct domain tags.
    assert_ne!(
        leaf_hash(&campaign, &recipient, allocation, &nonce),
        claim_leaf(campaign, &recipient, allocation, nonce)
    );
}
