//! Key Derivation Engine: stateless transforms from public identifiers,
//! domain tags and nonces to symmetric keys, AEAD nonces, XOR keystreams,
//! transfer masks and ratchet keys. Every derivation is a pure function of
//! its inputs; nothing here holds state between calls.

use vstd::prelude::*;
use crate::bytes::{push_slice, read_arr, xor_arr32, xor_seq, lemma_xor_involutive};
use crate::hashing::{sha256_of, sha256_digest};
use vstd::bytes::{spec_u64_to_le_bytes, spec_u64_from_le_bytes, u64_to_le_bytes, u64_from_le_bytes,
    lemma_auto_spec_u64_to_from_le_bytes};
use vstd::slice::slice_subrange;

verus! {

/// Domain tag "STYX_METADATA_KEY_V3": keys the metadata-obfuscation keystream.
pub open spec fn metadata_domain() -> Seq<u8> {
    seq![0x53u8, 0x54, 0x59, 0x58, 0x5f, 0x4d, 0x45, 0x54, 0x41, 0x44,
         0x41, 0x54, 0x41, 0x5f, 0x4b, 0x45, 0x59, 0x5f, 0x56, 0x33]
}

/// Domain tag "STYX_RATCHET_CHAIN_V1": separates chain-key derivation.
pub open spec fn ratchet_chain_domain() -> Seq<u8> {
    seq![0x53u8, 0x54, 0x59, 0x58, 0x5f, 0x52, 0x41, 0x54, 0x43, 0x48, 0x45,
         0x54, 0x5f, 0x43, 0x48, 0x41, 0x49, 0x4e, 0x5f, 0x56, 0x31]
}

/// Domain tag "STYX_RATCHET_MSG_V1": separates message-key derivation.
pub open spec fn ratchet_message_domain() -> Seq<u8> {
    seq![0x53u8, 0x54, 0x59, 0x58, 0x5f, 0x52, 0x41, 0x54, 0x43, 0x48, 0x45,
         0x54, 0x5f, 0x4d, 0x53, 0x47, 0x5f, 0x56, 0x31]
}

/// Domain tag "STYX_TRANSFER_V1": keys the amount mask of private transfers.
pub open spec fn transfer_domain() -> Seq<u8> {
    seq![0x53u8, 0x54, 0x59, 0x58, 0x5f, 0x54, 0x52, 0x41, 0x4e, 0x53,
         0x46, 0x45, 0x52, 0x5f, 0x56, 0x31]
}

/// Domain tag "STYX_MSG_NONCE_V3": derives the AEAD nonce of private messages.
pub open spec fn msg_nonce_domain() -> Seq<u8> {
    seq![0x53u8, 0x54, 0x59, 0x58, 0x5f, 0x4d, 0x53, 0x47, 0x5f, 0x4e,
         0x4f, 0x4e, 0x43, 0x45, 0x5f, 0x56, 0x33]
}

fn metadata_domain_bytes() -> (r: [u8; 20])
    ensures
        r@ == metadata_domain(),
{
    let r: [u8; 20] = [0x53u8, 0x54, 0x59, 0x58, 0x5f, 0x4d, 0x45, 0x54, 0x41, 0x44,
        0x41, 0x54, 0x41, 0x5f, 0x4b, 0x45, 0x59, 0x5f, 0x56, 0x33];
    proof { assert(r@ =~= metadata_domain()); }
    r
}

fn ratchet_chain_domain_bytes() -> (r: [u8; 21])
    ensures
        r@ == ratchet_chain_domain(),
{
    let r: [u8; 21] = [0x53u8, 0x54, 0x59, 0x58, 0x5f, 0x52, 0x41, 0x54, 0x43, 0x48, 0x45,
        0x54, 0x5f, 0x43, 0x48, 0x41, 0x49, 0x4e, 0x5f, 0x56, 0x31];
    proof { assert(r@ =~= ratchet_chain_domain()); }
    r
}

fn ratchet_message_domain_bytes() -> (r: [u8; 19])
    ensures
        r@ == ratchet_message_domain(),
{
    let r: [u8; 19] = [0x53u8, 0x54, 0x59, 0x58, 0x5f, 0x52, 0x41, 0x54, 0x43, 0x48, 0x45,
        0x54, 0x5f, 0x4d, 0x53, 0x47, 0x5f, 0x56, 0x31];
    proof { assert(r@ =~= ratchet_message_domain()); }
    r
}

fn transfer_domain_bytes() -> (r: [u8; 16])
    ensures
        r@ == transfer_domain(),
{
    let r: [u8; 16] = [0x53u8, 0x54, 0x59, 0x58, 0x5f, 0x54, 0x52, 0x41, 0x4e, 0x53,
        0x46, 0x45, 0x52, 0x5f, 0x56, 0x31];
    proof { assert(r@ =~= transfer_domain()); }
    r
}

pub(crate) fn msg_nonce_domain_bytes() -> (r: [u8; 17])
    ensures
        r@ == msg_nonce_domain(),
{
    let r: [u8; 17] = [0x53u8, 0x54, 0x59, 0x58, 0x5f, 0x4d, 0x53, 0x47, 0x5f, 0x4e,
        0x4f, 0x4e, 0x43, 0x45, 0x5f, 0x56, 0x33];
    proof { assert(r@ =~= msg_nonce_domain()); }
    r
}

/// The shared key of identifiers `a` and `b`: hash(a ++ b). Argument order
/// matters; encrypting and decrypting parties must fix it identically.
pub open spec fn shared_key(a: Seq<u8>, b: Seq<u8>) -> Seq<u8> {
    sha256_of(a + b)
}

/// A deterministic 12-byte AEAD nonce: first 12 bytes of hash(domain ++ material).
pub open spec fn nonce_of(domain: Seq<u8>, material: Seq<u8>) -> Seq<u8> {
    sha256_of(domain + material).subrange(0, 12)
}

/// The metadata-obfuscation keystream of a sender: hash(tag ++ sender).
/// It depends on the sender alone, not on a per-message nonce.
pub open spec fn metadata_keystream(sender: Seq<u8>) -> Seq<u8> {
    sha256_of(metadata_domain() + sender)
}

/// The 64-bit transfer mask of (sender, recipient, amount nonce): the first
/// 8 bytes of hash(tag ++ sender ++ recipient ++ nonce), read little-endian.
pub open spec fn transfer_mask(sender: Seq<u8>, recipient: Seq<u8>, amount_nonce: Seq<u8>) -> u64 {
    spec_u64_from_le_bytes(sha256_of(transfer_domain() + sender + recipient + amount_nonce).subrange(0, 8))
}

/// The preimage hashed for the next chain key of `(chain_key, counter)`.
pub open spec fn ratchet_chain_preimage(chain_key: Seq<u8>, counter: u64) -> Seq<u8> {
    ratchet_chain_domain() + chain_key + spec_u64_to_le_bytes(counter) + seq![0x01u8]
}

/// The preimage hashed for the message key of `(chain_key, counter)`.
pub open spec fn ratchet_message_preimage(chain_key: Seq<u8>, counter: u64) -> Seq<u8> {
    ratchet_message_domain() + chain_key + spec_u64_to_le_bytes(counter) + seq![0x02u8]
}

/// The next chain key derived from `(chain_key, counter)`.
pub open spec fn ratchet_next_chain_key(chain_key: Seq<u8>, counter: u64) -> Seq<u8> {
    sha256_of(ratchet_chain_preimage(chain_key, counter))
}

/// The message key derived from `(chain_key, counter)`.
pub open spec fn ratchet_message_key(chain_key: Seq<u8>, counter: u64) -> Seq<u8> {
    sha256_of(ratchet_message_preimage(chain_key, counter))
}

/// Argument order is part of the shared-key contract: for distinct
/// identifiers the two orders hash distinct preimages, so encrypting and
/// decrypting parties must fix the order identically. (That the keys
/// themselves then differ is collision resistance of SHA-256, checked by
/// tests on sample values, not proved.)
pub proof fn lemma_shared_key_order_matters(a: Seq<u8>, b: Seq<u8>)
    requires
        a.len() == 32,
        b.len() == 32,
        a != b,
    ensures
        a + b != b + a,
{
    if a + b == b + a {
        assert((a + b).subrange(0, 32) =~= a);
        assert((b + a).subrange(0, 32) =~= b);
    }
}

/// Derives the symmetric key shared by identifiers `a` and `b`.
pub fn derive_shared_key(a: &[u8; 32], b: &[u8; 32]) -> (r: [u8; 32])
    ensures
        r@ == shared_key(a@, b@),
{
    let mut buf: Vec<u8> = Vec::new();
    push_slice(&mut buf, a.as_slice());
    push_slice(&mut buf, b.as_slice());
    proof { assert(buf@ =~= a@ + b@); }
    sha256_digest(buf.as_slice())
}

/// Derives a 12-byte AEAD nonce from a domain tag and public key material.
pub fn derive_nonce(domain: &[u8], material: &[u8]) -> (r: [u8; 12])
    ensures
        r@ == nonce_of(domain@, material@),
{
    let mut buf: Vec<u8> = Vec::new();
    push_slice(&mut buf, domain);
    push_slice(&mut buf, material);
    proof { assert(buf@ =~= domain@ + material@); }
    let h = sha256_digest(buf.as_slice());
    read_arr::<12>(h.as_slice(), 0)
}

/// Obfuscates a 32-byte recipient identifier under the sender's keystream.
pub fn encrypt_metadata(sender: &[u8; 32], recipient: &[u8; 32]) -> (r: [u8; 32])
    ensures
        r@ == xor_seq(recipient@, metadata_keystream(sender@)),
{
    let d = metadata_domain_bytes();
    let mut buf: Vec<u8> = Vec::new();
    push_slice(&mut buf, d.as_slice());
    push_slice(&mut buf, sender.as_slice());
    proof { assert(buf@ =~= metadata_domain() + sender@); }
    let ks = sha256_digest(buf.as_slice());
    xor_arr32(recipient, &ks)
}

/// Recovers a 32-byte identifier obfuscated by [`encrypt_metadata`]:
/// the keystream is recomputed from the sender and XORed off again.
pub fn decrypt_metadata(sender: &[u8; 32], encrypted: &[u8; 32]) -> (r: [u8; 32])
    ensures
        r@ == xor_seq(encrypted@, metadata_keystream(sender@)),
{
    let d = metadata_domain_bytes();
    let mut buf: Vec<u8> = Vec::new();
    push_slice(&mut buf, d.as_slice());
    push_slice(&mut buf, sender.as_slice());
    proof { assert(buf@ =~= metadata_domain() + sender@); }
    let ks = sha256_digest(buf.as_slice());
    xor_arr32(encrypted, &ks)
}

/// Applying the sender-keyed obfuscation keystream twice recovers the
/// original identifier exactly, for every sender and identifier.
pub proof fn lemma_metadata_round_trip(sender: Seq<u8>, recipient: Seq<u8>)
    ensures
        xor_seq(xor_seq(recipient, metadata_keystream(sender)), metadata_keystream(sender))
            == recipient,
{
    lemma_xor_involutive(recipient, metadata_keystream(sender));
}

/// Derives the 64-bit mask that obfuscates a transfer amount.
pub fn derive_transfer_mask(sender: &[u8; 32], recipient: &[u8; 32], amount_nonce: &[u8; 8]) -> (r: u64)
    ensures
        r == transfer_mask(sender@, recipient@, amount_nonce@),
{
    let d = transfer_domain_bytes();
    let mut buf: Vec<u8> = Vec::new();
    push_slice(&mut buf, d.as_slice());
    push_slice(&mut buf, sender.as_slice());
    push_slice(&mut buf, recipient.as_slice());
    push_slice(&mut buf, amount_nonce.as_slice());
    proof { assert(buf@ =~= transfer_domain() + sender@ + recipient@ + amount_nonce@); }
    let h = sha256_digest(buf.as_slice());
    u64_from_le_bytes(slice_subrange(h.as_slice(), 0, 8))
}

/// Masking an amount and unmasking it with the same mask is the identity,
/// for every sender, recipient, nonce and amount.
pub proof fn lemma_mask_round_trip(amount: u64, sender: Seq<u8>, recipient: Seq<u8>, amount_nonce: Seq<u8>)
    ensures
        (amount ^ transfer_mask(sender, recipient, amount_nonce))
            ^ transfer_mask(sender, recipient, amount_nonce) == amount,
{
    let m = transfer_mask(sender, recipient, amount_nonce);
    assert((amount ^ m) ^ m == amount) by (bit_vector);
}

/// Derives the pair (next chain key, message key) from a chain key and a
/// monotonic counter, with domain-separated hashing and distinct marker
/// bytes. Both outputs are pure functions of `(chain_key, counter)`;
/// forward secrecy rests on callers rotating the chain key.
pub fn ratchet_derive(chain_key: &[u8; 32], counter: u64) -> (r: ([u8; 32], [u8; 32]))
    ensures
        r.0@ == ratchet_next_chain_key(chain_key@, counter),
        r.1@ == ratchet_message_key(chain_key@, counter),
{
    let ctr = u64_to_le_bytes(counter);

    let cd = ratchet_chain_domain_bytes();
    let mut buf: Vec<u8> = Vec::new();
    push_slice(&mut buf, cd.as_slice());
    push_slice(&mut buf, chain_key.as_slice());
    push_slice(&mut buf, ctr.as_slice());
    buf.push(0x01);
    proof { assert(buf@ =~= ratchet_chain_preimage(chain_key@, counter)); }
    let next_chain = sha256_digest(buf.as_slice());

    let md = ratchet_message_domain_bytes();
    let mut buf2: Vec<u8> = Vec::new();
    push_slice(&mut buf2, md.as_slice());
    push_slice(&mut buf2, chain_key.as_slice());
    push_slice(&mut buf2, ctr.as_slice());
    buf2.push(0x02);
    proof { assert(buf2@ =~= ratchet_message_preimage(chain_key@, counter)); }
    let msg_key = sha256_digest(buf2.as_slice());

    (next_chain, msg_key)
}

/// Distinct counters hash distinct preimages, and for one counter the
/// chain-key and message-key preimages are themselves distinct: the inputs
/// to the hash never collide across steps or across the two outputs.
/// (That the hash outputs differ as well is a collision-resistance
/// property of SHA-256, checked by tests on sample values, not proved.)
pub proof fn lemma_ratchet_preimages_differ(chain_key: Seq<u8>, c1: u64, c2: u64)
    requires
        chain_key.len() == 32,
    ensures
        c1 != c2 ==> ratchet_chain_preimage(chain_key, c1) != ratchet_chain_preimage(chain_key, c2),
        c1 != c2 ==> ratchet_message_preimage(chain_key, c1) != ratchet_message_preimage(chain_key, c2),
        ratchet_chain_preimage(chain_key, c1) != ratchet_message_preimage(chain_key, c2),
{
    lemma_auto_spec_u64_to_from_le_bytes();
    if c1 != c2 {
        let b1 = spec_u64_to_le_bytes(c1);
        let b2 = spec_u64_to_le_bytes(c2);
        assert(b1 != b2);
        assert(b1.len() == 8 && b2.len() == 8);
        assert(exists|j: int| 0 <= j < 8 && b1[j] != b2[j]) by {
            if forall|j: int| 0 <= j < 8 ==> b1[j] == b2[j] {
                assert(b1 =~= b2);
            }
        }
        let j = choose|j: int| 0 <= j < 8 && b1[j] != b2[j];
        assert(ratchet_chain_preimage(chain_key, c1)[53 + j]
            != ratchet_chain_preimage(chain_key, c2)[53 + j]);
        assert(ratchet_message_preimage(chain_key, c1)[51 + j]
            != ratchet_message_preimage(chain_key, c2)[51 + j]);
    }
    // The chain and message domain tags differ in length and content, so the
    // two preimages differ regardless of the counters: byte 5 is 'R' in both
    // tags, but byte 13 is 'C' in one and 'M' in the other.
    assert(ratchet_chain_preimage(chain_key, c1)[13] == 0x43);
    assert(ratchet_message_preimage(chain_key, c2)[13] == 0x4d);
}

} // verus!
