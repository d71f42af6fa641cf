//! The inclusion-proof check of the distribution mechanism: order-independent
//! SHA-256 pair hashing folded along a proof path, and the claim leaf
//! formats that feed it. Pure byte computations; the account bookkeeping
//! around them lives with the surrounding runtime.

use vstd::prelude::*;
use vstd::bytes::{spec_u64_to_le_bytes, u64_to_le_bytes};
use crate::bytes::push_slice;
use crate::hashing::{sha256_of, sha256_digest};

verus! {

/// Lexicographic order on byte strings, as Rust orders byte slices.
pub open spec fn lex_le(a: Seq<u8>, b: Seq<u8>) -> bool
    decreases a.len(),
{
    if a.len() == 0 {
        true
    } else if b.len() == 0 {
        false
    } else if a[0] < b[0] {
        true
    } else if a[0] > b[0] {
        false
    } else {
        lex_le(a.skip(1), b.skip(1))
    }
}

/// Two byte strings with equal prefixes compare as their remainders do.
proof fn lemma_lex_le_skip(a: Seq<u8>, b: Seq<u8>, i: int)
    requires
        0 <= i <= a.len(),
        i <= b.len(),
        forall|j: int| 0 <= j < i ==> a[j] == b[j],
    ensures
        lex_le(a, b) == lex_le(a.skip(i), b.skip(i)),
    decreases i,
{
    if i > 0 {
        assert(a.len() > 0 && b.len() > 0 && a[0] == b[0]);
        assert(lex_le(a, b) == lex_le(a.skip(1), b.skip(1)));
        assert(forall|j: int| 0 <= j < i - 1 ==> a.skip(1)[j] == b.skip(1)[j]);
        lemma_lex_le_skip(a.skip(1), b.skip(1), i - 1);
        assert(a.skip(1).skip(i - 1) =~= a.skip(i));
        assert(b.skip(1).skip(i - 1) =~= b.skip(i));
    } else {
        assert(a.skip(0) =~= a);
        assert(b.skip(0) =~= b);
    }
}

/// Compares two 32-byte blocks lexicographically.
pub fn le_bytes32(a: &[u8; 32], b: &[u8; 32]) -> (r: bool)
    ensures
        r == lex_le(a@, b@),
{
    let mut i: usize = 0;
    while i < 32
        invariant
            i <= 32,
            forall|j: int| 0 <= j < i ==> a@[j] == b@[j],
        decreases 32 - i,
    {
        proof {
            lemma_lex_le_skip(a@, b@, i as int);
        }
        if a[i] < b[i] {
            return true;
        }
        if a[i] > b[i] {
            return false;
        }
        i = i + 1;
    }
    proof {
        lemma_lex_le_skip(a@, b@, 32);
    }
    true
}

/// The order-independent parent of two nodes: hash(min ++ max) under the
/// lexicographic order, so that a proof need not say which side it sits on.
pub open spec fn hash_pair_spec(a: Seq<u8>, b: Seq<u8>) -> Seq<u8> {
    if lex_le(a, b) {
        sha256_of(a + b)
    } else {
        sha256_of(b + a)
    }
}

/// Hashes an ordered pair of nodes into their parent.
pub fn hash_pair(a: &[u8; 32], b: &[u8; 32]) -> (r: [u8; 32])
    ensures
        r@ == hash_pair_spec(a@, b@),
{
    let mut buf: Vec<u8> = Vec::new();
    if le_bytes32(a, b) {
        push_slice(&mut buf, a.as_slice());
        push_slice(&mut buf, b.as_slice());
        proof { assert(buf@ =~= a@ + b@); }
    } else {
        push_slice(&mut buf, b.as_slice());
        push_slice(&mut buf, a.as_slice());
        proof { assert(buf@ =~= b@ + a@); }
    }
    sha256_digest(buf.as_slice())
}

/// Hashes an ordered pair of nodes into their parent, taking the nodes by
/// value.
pub fn parent(a: [u8; 32], b: [u8; 32]) -> (r: [u8; 32])
    ensures
        r@ == hash_pair_spec(a@, b@),
{
    hash_pair(&a, &b)
}

/// The root reached from `leaf` by folding the proof path, pairing the
/// running node with each sibling in order.
pub open spec fn merkle_fold(leaf: Seq<u8>, path: Seq<Seq<u8>>) -> Seq<u8>
    decreases path.len(),
{
    if path.len() == 0 {
        leaf
    } else {
        merkle_fold(hash_pair_spec(leaf, path[0]), path.skip(1))
    }
}

/// The proof path as a sequence of byte strings.
pub open spec fn path_view(p: Seq<[u8; 32]>) -> Seq<Seq<u8>> {
    Seq::new(p.len(), |i: int| p[i]@)
}

/// Folds a proof path from `acc` to the root it spells.
pub fn compute_root(acc: [u8; 32], proof: &Vec<[u8; 32]>) -> (r: [u8; 32])
    ensures
        r@ == merkle_fold(acc@, path_view(proof@)),
{
    let ghost path = path_view(proof@);
    proof {
        assert(path.skip(0) =~= path);
    }
    let mut cur = acc;
    let mut i: usize = 0;
    while i < proof.len()
        invariant
            i <= proof@.len(),
            path == path_view(proof@),
            merkle_fold(cur@, path.skip(i as int)) == merkle_fold(acc@, path),
        decreases proof@.len() - i,
    {
        proof {
            assert(path.skip(i as int)[0] == proof@[i as int]@);
            assert(path.skip(i as int).skip(1) =~= path.skip(i + 1));
        }
        cur = hash_pair(&cur, &proof[i]);
        i = i + 1;
    }
    proof {
        assert(path.skip(proof@.len() as int) =~= Seq::<Seq<u8>>::empty());
    }
    cur
}

/// Checks an inclusion proof: folds the path from `leaf` and compares the
/// result against the expected root.
pub fn verify_merkle(leaf: [u8; 32], proof: &Vec<[u8; 32]>, root: [u8; 32]) -> (r: bool)
    ensures
        r == (merkle_fold(leaf@, path_view(proof@)) == root@),
{
    let cur = compute_root(leaf, proof);
    crate::bytes::eq_arr32(&cur, &root)
}

/// Domain tag "wd:claim:v1": opens a claim leaf of the lightweight escrow.
pub open spec fn claim_domain() -> Seq<u8> {
    seq![0x77u8, 0x64, 0x3a, 0x63, 0x6c, 0x61, 0x69, 0x6d, 0x3a, 0x76, 0x31]
}

/// Domain tag "wdleaf1": opens a claim leaf of the escrow program.
pub open spec fn leaf_domain() -> Seq<u8> {
    seq![0x77u8, 0x64, 0x6c, 0x65, 0x61, 0x66, 0x31]
}

/// The claim leaf of the lightweight escrow: hash over its domain tag, the
/// campaign, the recipient, the little-endian allocation and the nonce.
pub open spec fn claim_leaf_spec(
    campaign_id: Seq<u8>,
    recipient: Seq<u8>,
    allocation: u64,
    nonce16: Seq<u8>,
) -> Seq<u8> {
    sha256_of(claim_domain() + campaign_id + recipient + spec_u64_to_le_bytes(allocation) + nonce16)
}

/// The claim leaf of the escrow program: the same fields under its own tag.
pub open spec fn leaf_hash_spec(
    campaign_id: Seq<u8>,
    recipient: Seq<u8>,
    allocation: u64,
    nonce16: Seq<u8>,
) -> Seq<u8> {
    sha256_of(leaf_domain() + campaign_id + recipient + spec_u64_to_le_bytes(allocation) + nonce16)
}

/// Computes the claim leaf of the lightweight escrow.
pub fn claim_leaf(campaign_id: [u8; 32], recipient: &[u8; 32], allocation: u64, nonce16: [u8; 16]) -> (r: [u8; 32])
    ensures
        r@ == claim_leaf_spec(campaign_id@, recipient@, allocation, nonce16@),
{
    let d: [u8; 11] = [0x77u8, 0x64, 0x3a, 0x63, 0x6c, 0x61, 0x69, 0x6d, 0x3a, 0x76, 0x31];
    proof { assert(d@ =~= claim_domain()); }
    let alloc = u64_to_le_bytes(allocation);
    let mut buf: Vec<u8> = Vec::new();
    push_slice(&mut buf, d.as_slice());
    push_slice(&mut buf, campaign_id.as_slice());
    push_slice(&mut buf, recipient.as_slice());
    push_slice(&mut buf, alloc.as_slice());
    push_slice(&mut buf, nonce16.as_slice());
    proof {
        assert(buf@ =~= claim_domain() + campaign_id@ + recipient@ + spec_u64_to_le_bytes(
            allocation,
        ) + nonce16@);
    }
    sha256_digest(buf.as_slice())
}

/// Computes the claim leaf of the escrow program.
pub fn leaf_hash(campaign_id: &[u8; 32], recipient: &[u8; 32], allocation: u64, nonce16: &[u8; 16]) -> (r: [u8; 32])
    ensures
        r@ == leaf_hash_spec(campaign_id@, recipient@, allocation, nonce16@),
{
    let d: [u8; 7] = [0x77u8, 0x64, 0x6c, 0x65, 0x61, 0x66, 0x31];
    proof { assert(d@ =~= leaf_domain()); }
    let alloc = u64_to_le_bytes(allocation);
    let mut buf: Vec<u8> = Vec::new();
    push_slice(&mut buf, d.as_slice());
    push_slice(&mut buf, campaign_id.as_slice());
    push_slice(&mut buf, recipient.as_slice());
    push_slice(&mut buf, alloc.as_slice());
    push_slice(&mut buf, nonce16.as_slice());
    proof {
        assert(buf@ =~= leaf_domain() + campaign_id@ + recipient@ + spec_u64_to_le_bytes(allocation)
            + nonce16@);
    }
    sha256_digest(buf.as_slice())
}

} // verus!
