//! The decisions of the escrow and claim flow, separated from the account
//! bookkeeping that the surrounding ledger runtime performs: when a
//! campaign may be created, when a deposit is accepted, and when a claim
//! pays out. The runtime gathers the facts (clock, account state, proof),
//! holds the records defined here, and executes what these verdicts allow.

use vstd::prelude::*;
use crate::bytes::eq_arr32;
use crate::merkle::{merkle_fold, path_view, verify_merkle};

verus! {

/// A distribution campaign: its identity, the root every claim must reach,
/// the funding mint, the claim deadline, and the authority that funds it.
/// The bump seeds belong to the runtime's address derivation.
#[derive(Debug, Clone, PartialEq, Eq)]
pub struct Campaign {
    pub authority: [u8; 32],
    pub mint: [u8; 32],
    pub campaign_id: [u8; 32],
    pub manifest_hash: [u8; 32],
    pub merkle_root: [u8; 32],
    pub expiry_unix: i64,
    pub bump: u8,
    pub escrow_bump: u8,
}

/// The one-time marker that a recipient has already claimed from a
/// campaign; its mere existence blocks a second claim.
#[derive(Debug, Clone, PartialEq, Eq)]
pub struct Nullifier {
    pub campaign: [u8; 32],
    pub recipient: [u8; 32],
    pub nonce16: [u8; 16],
}

/// An escrow call, as the runtime hands it over: create a campaign, or
/// claim an allocation against its root. Deserializing the wire form is the
/// runtime's business; the decisions below are this module's.
#[derive(Debug, Clone, PartialEq, Eq)]
pub enum Instruction {
    InitCampaign {
        campaign_id: [u8; 32],
        manifest_hash: [u8; 32],
        merkle_root: [u8; 32],
        mint: [u8; 32],
        expiry_unix: i64,
        authority: [u8; 32],
    },
    Claim { allocation: u64, nonce16: [u8; 16], proof: Vec<[u8; 32]> },
}

/// Why an escrow call was refused.
#[derive(Debug, Clone, Copy, PartialEq, Eq, Structural)]
pub enum WhisperErr {
    /// A campaign must expire at a positive timestamp.
    BadExpiry,
    /// Only the campaign authority may deposit.
    NotAuthority,
    /// Amounts and allocations must be positive.
    BadAmount,
    /// The campaign has expired.
    Expired,
    /// The inclusion proof does not reach the campaign root.
    BadProof,
    /// The recipient already claimed once.
    AlreadyClaimed,
}

/// Whether a campaign may be created: its expiry must be positive.
pub fn check_init_campaign(expiry_unix: i64) -> (r: Result<(), WhisperErr>)
    ensures
        r == if expiry_unix > 0 {
            Ok::<(), WhisperErr>(())
        } else {
            Err::<(), WhisperErr>(WhisperErr::BadExpiry)
        },
{
    if expiry_unix > 0 {
        Ok(())
    } else {
        Err(WhisperErr::BadExpiry)
    }
}

/// Whether a deposit is accepted: a positive amount, moved by the
/// campaign's own authority.
pub fn check_deposit(amount: u64, authority: &[u8; 32], campaign: &Campaign) -> (r: Result<
    (),
    WhisperErr,
>)
    ensures
        r == if amount == 0 {
            Err::<(), WhisperErr>(WhisperErr::BadAmount)
        } else if authority@ != campaign.authority@ {
            Err::<(), WhisperErr>(WhisperErr::NotAuthority)
        } else {
            Ok::<(), WhisperErr>(())
        },
{
    if amount == 0 {
        return Err(WhisperErr::BadAmount);
    }
    if !eq_arr32(authority, &campaign.authority) {
        return Err(WhisperErr::NotAuthority);
    }
    Ok(())
}

/// Whether a claim pays out under the escrow variant that also demands a
/// positive allocation: the deadline must not have passed, the allocation
/// must not be zero, and the leaf must reach the campaign root along the
/// proof path, in that order of complaint. Double claims are blocked by the
/// runtime's one-time [`Nullifier`] account rather than a verdict here.
pub fn check_claim_allocation(
    now_unix: i64,
    campaign: &Campaign,
    allocation: u64,
    leaf: [u8; 32],
    proof: &Vec<[u8; 32]>,
) -> (r: Result<(), WhisperErr>)
    ensures
        r == if now_unix > campaign.expiry_unix {
            Err::<(), WhisperErr>(WhisperErr::Expired)
        } else if allocation == 0 {
            Err::<(), WhisperErr>(WhisperErr::BadAmount)
        } else if merkle_fold(leaf@, path_view(proof@)) != campaign.merkle_root@ {
            Err::<(), WhisperErr>(WhisperErr::BadProof)
        } else {
            Ok::<(), WhisperErr>(())
        },
{
    if now_unix > campaign.expiry_unix {
        return Err(WhisperErr::Expired);
    }
    if allocation == 0 {
        return Err(WhisperErr::BadAmount);
    }
    if !verify_merkle(leaf, proof, campaign.merkle_root) {
        return Err(WhisperErr::BadProof);
    }
    Ok(())
}

/// Whether a claim pays out of a campaign: the deadline must not have
/// passed, the recipient must not have claimed before, and the leaf must
/// reach the campaign root along the proof path. Exactly one verdict comes
/// back, in that order of complaint, and funds move only on `Ok`.
pub fn check_claim(
    now_unix: i64,
    campaign: &Campaign,
    already_claimed: bool,
    leaf: [u8; 32],
    proof: &Vec<[u8; 32]>,
) -> (r: Result<(), WhisperErr>)
    ensures
        r == if now_unix > campaign.expiry_unix {
            Err::<(), WhisperErr>(WhisperErr::Expired)
        } else if already_claimed {
            Err::<(), WhisperErr>(WhisperErr::AlreadyClaimed)
        } else if merkle_fold(leaf@, path_view(proof@)) != campaign.merkle_root@ {
            Err::<(), WhisperErr>(WhisperErr::BadProof)
        } else {
            Ok::<(), WhisperErr>(())
        },
{
    if now_unix > campaign.expiry_unix {
        return Err(WhisperErr::Expired);
    }
    if already_claimed {
        return Err(WhisperErr::AlreadyClaimed);
    }
    if !verify_merkle(leaf, proof, campaign.merkle_root) {
        return Err(WhisperErr::BadProof);
    }
    Ok(())
}

} // verus!
