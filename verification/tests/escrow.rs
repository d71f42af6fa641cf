use sha2::{Digest, Sha256};
use styx_core::escrow::{check_claim, check_claim_allocation, check_deposit, check_init_campaign, Campaign, WhisperErr};
use styx_core::merkle::hash_pair;

fn h(data: &[u8]) -> [u8; 32] {
    let d = Sha256::digest(data);
    let mut out = [0u8; 32];
    out.copy_from_slice(&d);
    out
}

fn campaign(authority: [u8; 32], merkle_root: [u8; 32], expiry_unix: i64) -> Campaign {
    Campaign {
        authority,
        mint: [3u8; 32],
        campaign_id: [4u8; 32],
        manifest_hash: [5u8; 32],
        merkle_root,
        expiry_unix,
        bump: 254,
        escrow_bump: 253,
    }
}

#[test]
fn init_campaign_needs_positive_expiry() {
    assert_eq!(check_init_campaign(1), Ok(()));
    assert_eq!(check_init_campaign(0), Err(WhisperErr::BadExpiry));
    assert_eq!(check_init_campaign(-5), Err(WhisperErr::BadExpiry));
}

#[test]
fn deposit_checks_amount_and_authority() {
    let auth = [1u8; 32];
    let c = campaign(auth, [0u8; 32], 100);
    assert_eq!(check_deposit(10, &auth, &c), Ok(()));
    assert_eq!(check_deposit(0, &auth, &c), Err(WhisperErr::BadAmount));
    assert_eq!(check_deposit(10, &[2u8; 32], &c), Err(WhisperErr::NotAuthority));
}

#[test]
fn claim_pays_only_inside_the_tree_and_window() {
    let leaf = h(b"leaf");
    let sib = h(b"sibling");
    let root = hash_pair(&leaf, &sib);
    let c = campaign([1u8; 32], root, 200);
    assert_eq!(check_claim(100, &c, false, leaf, &vec![sib]), Ok(()));
    assert_eq!(check_claim(201, &c, false, leaf, &vec![sib]), Err(WhisperErr::Expired));
    assert_eq!(check_claim(100, &c, true, leaf, &vec![sib]), Err(WhisperErr::AlreadyClaimed));
    assert_eq!(check_claim(100, &c, false, sib, &vec![sib]), Err(WhisperErr::BadProof));
}

#[test]
fn claim_with_allocation_rule() {
    let leaf = h(b"leaf");
    let sib = h(b"sibling");
    let root = hash_pair(&leaf, &sib);
    let c = campaign([1u8; 32], root, 200);
    assert_eq!(check_claim_allocation(100, &c, 50, leaf, &vec![sib]), Ok(()));
    assert_eq!(check_claim_allocation(201, &c, 50, leaf, &vec![sib]), Err(WhisperErr::Expired));
    assert_eq!(check_claim_allocation(100, &c, 0, leaf, &vec![sib]), Err(WhisperErr::BadAmount));
    assert_eq!(check_claim_allocation(100, &c, 50, sib, &vec![sib]), Err(WhisperErr::BadProof));
}

#[test]
fn claim_boundary_instant_still_valid() {
    let leaf = h(b"x");
    let c = campaign([1u8; 32], leaf, 200);
    assert_eq!(check_claim(200, &c, false, leaf, &vec![]), Ok(()));
}
