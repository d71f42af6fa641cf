use chacha20poly1305::aead::Aead;
use chacha20poly1305::{ChaCha20Poly1305, Key, KeyInit, Nonce};
use styx_core::instructions::{
    process_compliance_reveal, process_instruction, process_private_message,
    process_private_transfer, process_ratchet_message, process_routed_message, Outcome, PmpError,
    RevealType, TransferCheck, FLAG_COMPLIANCE_ENABLED, FLAG_ENCRYPT, FLAG_STEALTH,
    TAG_COMPLIANCE_REVEAL, TAG_PRIVATE_MESSAGE, TAG_PRIVATE_TRANSFER, TAG_RATCHET_MESSAGE,
    TAG_ROUTED_MESSAGE,
};
use styx_core::kdf::{
    derive_nonce, derive_shared_key, derive_transfer_mask, decrypt_metadata, encrypt_metadata,
};

fn message_ix(flags: u8, enc_recipient: &[u8; 32], sender: &[u8; 32], payload: &[u8]) -> Vec<u8> {
    let mut d = vec![TAG_PRIVATE_MESSAGE, flags];
    d.extend_from_slice(enc_recipient);
    d.extend_from_slice(sender);
    d.extend_from_slice(&(payload.len() as u16).to_le_bytes());
    d.extend_from_slice(payload);
    d
}

fn routed_ix(hop_count: u8, current_hop: u8, payload: &[u8]) -> Vec<u8> {
    let mut d = vec![TAG_ROUTED_MESSAGE, 0, hop_count];
    d.extend_from_slice(&[0x55u8; 32]);
    d.push(current_hop);
    d.extend_from_slice(&[0x66u8; 32]);
    d.extend_from_slice(&(payload.len() as u16).to_le_bytes());
    d.extend_from_slice(payload);
    d
}

fn transfer_ix(
    enc_recipient: &[u8; 32],
    sender: &[u8; 32],
    enc_amount: u64,
    nonce: &[u8; 8],
    memo: &[u8],
) -> Vec<u8> {
    let mut d = vec![TAG_PRIVATE_TRANSFER, 0];
    d.extend_from_slice(enc_recipient);
    d.extend_from_slice(sender);
    d.extend_from_slice(&enc_amount.to_le_bytes());
    d.extend_from_slice(nonce);
    d.extend_from_slice(&(memo.len() as u16).to_le_bytes());
    d.extend_from_slice(memo);
    d
}

fn ratchet_ix(counter: u64, ciphertext: &[u8]) -> Vec<u8> {
    let mut d = vec![TAG_RATCHET_MESSAGE, 0];
    d.extend_from_slice(&[0x11u8; 32]);
    d.extend_from_slice(&counter.to_le_bytes());
    d.extend_from_slice(&[0x22u8; 32]);
    d.extend_from_slice(&(ciphertext.len() as u16).to_le_bytes());
    d.extend_from_slice(ciphertext);
    d
}

fn reveal_ix(reveal_type: u8) -> Vec<u8> {
    let mut d = vec![TAG_COMPLIANCE_REVEAL, 0];
    d.extend_from_slice(&[0x01u8; 32]);
    d.extend_from_slice(&[0x02u8; 32]);
    d.extend_from_slice(&[0x03u8; 32]);
    d.push(reveal_type);
    d
}

#[test]
fn plain_message_passes_payload_through() {
    let ix = message_ix(0, &[9u8; 32], &[7u8; 32], b"plain text");
    let out = process_private_message(&ix).expect("ok");
    assert_eq!(out.payload, b"plain text".to_vec());
    assert!(!out.stealth);
    assert_eq!(out.flags, 0);
    assert_eq!(out.compliance_auditors, None);
}

#[test]
fn stealth_flag_reported() {
    let ix = message_ix(FLAG_STEALTH, &[9u8; 32], &[7u8; 32], b"x");
    let out = process_private_message(&ix).expect("ok");
    assert!(out.stealth);
}

#[test]
fn encrypted_message_seals_payload() {
    let sender = [7u8; 32];
    let recipient = [9u8; 32];
    let enc_recipient = encrypt_metadata(&sender, &recipient);
    let payload = b"secret message";
    let ix = message_ix(FLAG_ENCRYPT, &enc_recipient, &sender, payload);
    let out = process_private_message(&ix).expect("ok");

    let key = derive_shared_key(&sender, &recipient);
    let nonce = derive_nonce(b"STYX_MSG_NONCE_V3", &enc_recipient);
    let cipher = ChaCha20Poly1305::new(Key::from_slice(&key));
    let expected = cipher.encrypt(Nonce::from_slice(&nonce), payload.as_slice()).expect("encrypt");
    assert_eq!(out.payload, expected);
    assert_ne!(out.payload, payload.to_vec());
}

#[test]
fn encrypted_message_always_succeeds_in_range() {
    // Sealing is owed for every payload a message can carry: the cipher
    // refuses only inputs far beyond the 16-bit length field.
    let sender = [3u8; 32];
    let payload = vec![0x5au8; 60000];
    let ix = message_ix(FLAG_ENCRYPT, &[8u8; 32], &sender, &payload);
    let out = process_private_message(&ix).expect("ok");
    assert_eq!(out.payload.len(), payload.len() + 16);
}

#[test]
fn compliance_block_reports_auditor_count() {
    let mut ix = message_ix(FLAG_COMPLIANCE_ENABLED, &[9u8; 32], &[7u8; 32], b"x");
    ix.push(3);
    let out = process_private_message(&ix).expect("ok");
    assert_eq!(out.compliance_auditors, Some(3));

    // Compliance flag without a block: nothing to report.
    let ix2 = message_ix(FLAG_COMPLIANCE_ENABLED, &[9u8; 32], &[7u8; 32], b"x");
    let out2 = process_private_message(&ix2).expect("ok");
    assert_eq!(out2.compliance_auditors, None);
}

#[test]
fn message_length_checks() {
    assert_eq!(process_private_message(&[TAG_PRIVATE_MESSAGE]), Err(PmpError::InvalidInstructionData));
    let mut ix = message_ix(0, &[9u8; 32], &[7u8; 32], b"full payload");
    ix.truncate(ix.len() - 1);
    assert_eq!(process_private_message(&ix), Err(PmpError::InvalidInstructionData));
}

#[test]
fn hop_bound_enforced() {
    let ix = routed_ix(6, 0, b"layered");
    assert_eq!(process_routed_message(&ix), Err(PmpError::InvalidInstructionData));
}

#[test]
fn final_hop_detected() {
    let ix = routed_ix(5, 5, b"layered");
    let out = process_routed_message(&ix).expect("ok");
    assert!(out.final_hop);
    assert_eq!(out.hop_count, 5);
    assert_eq!(out.current_hop, 5);
    assert_eq!(out.payload, b"layered".to_vec());
}

#[test]
fn intermediate_hop_detected() {
    let ix = routed_ix(5, 2, b"layered");
    let out = process_routed_message(&ix).expect("ok");
    assert!(!out.final_hop);
    assert_eq!(out.current_hop, 2);
}

#[test]
fn routed_length_checks() {
    assert_eq!(process_routed_message(&routed_ix(3, 1, b"")[..40]), Err(PmpError::InvalidInstructionData));
    let mut ix = routed_ix(3, 1, b"abc");
    ix.truncate(ix.len() - 2);
    assert_eq!(process_routed_message(&ix), Err(PmpError::InvalidInstructionData));
}

#[test]
fn transfer_recovers_amount_and_recipient() {
    let sender = [5u8; 32];
    let recipient = [6u8; 32];
    let nonce = [8u8; 8];
    let amount: u64 = 1_000_000;
    let enc_recipient = encrypt_metadata(&sender, &recipient);
    let mask = derive_transfer_mask(&sender, &recipient, &nonce);
    let ix = transfer_ix(&enc_recipient, &sender, amount ^ mask, &nonce, b"");
    let out = process_private_transfer(&ix, None).expect("ok");
    assert_eq!(out.recipient, recipient);
    assert_eq!(out.amount, amount);
    assert!(!out.transfer);
    assert_eq!(out.memo, None);
}

#[test]
fn transfer_executes_with_matching_destination() {
    let sender = [5u8; 32];
    let recipient = [6u8; 32];
    let nonce = [8u8; 8];
    let enc_recipient = encrypt_metadata(&sender, &recipient);
    let mask = derive_transfer_mask(&sender, &recipient, &nonce);
    let ix = transfer_ix(&enc_recipient, &sender, 77 ^ mask, &nonce, b"memo!");
    let acc = TransferCheck { from_is_signer: true, destination: recipient };
    let out = process_private_transfer(&ix, Some(&acc)).expect("ok");
    assert!(out.transfer);
    assert_eq!(out.amount, 77);
    assert_eq!(out.memo, Some(b"memo!".to_vec()));
}

#[test]
fn transfer_mismatched_destination_rejected() {
    let sender = [5u8; 32];
    let recipient = [6u8; 32];
    let nonce = [8u8; 8];
    let enc_recipient = encrypt_metadata(&sender, &recipient);
    let ix = transfer_ix(&enc_recipient, &sender, 1, &nonce, b"");
    let acc = TransferCheck { from_is_signer: true, destination: [0xffu8; 32] };
    assert_eq!(process_private_transfer(&ix, Some(&acc)), Err(PmpError::InvalidAccountData));
}

#[test]
fn transfer_unsigned_rejected() {
    let sender = [5u8; 32];
    let recipient = decrypt_metadata(&sender, &[1u8; 32]);
    let ix = transfer_ix(&[1u8; 32], &sender, 1, &[0u8; 8], b"");
    let acc = TransferCheck { from_is_signer: false, destination: recipient };
    assert_eq!(process_private_transfer(&ix, Some(&acc)), Err(PmpError::MissingRequiredSignature));
}

#[test]
fn transfer_truncated_memo_rejected() {
    let sender = [5u8; 32];
    let enc_recipient = [1u8; 32];
    let mut ix = transfer_ix(&enc_recipient, &sender, 1, &[0u8; 8], b"");
    // Declare a 10-byte memo but provide only 4 bytes: the declared length
    // runs past the end of the buffer, so the transfer is malformed.
    let mlen_at = ix.len() - 2;
    ix[mlen_at] = 10;
    ix.extend_from_slice(b"abcd");
    assert_eq!(process_private_transfer(&ix, None), Err(PmpError::InvalidInstructionData));
}

#[test]
fn transfer_empty_declared_memo_absent() {
    let sender = [5u8; 32];
    let enc_recipient = [1u8; 32];
    let ix = transfer_ix(&enc_recipient, &sender, 1, &[0u8; 8], b"");
    let out = process_private_transfer(&ix, None).expect("ok");
    assert_eq!(out.memo, None);
}

#[test]
fn transfer_length_checks() {
    assert_eq!(
        process_private_transfer(&[TAG_PRIVATE_TRANSFER, 0, 0, 0], None),
        Err(PmpError::InvalidInstructionData)
    );
}

#[test]
fn ratchet_reports_counter_and_ciphertext() {
    let ix = ratchet_ix(41, b"ciphertext bytes");
    let out = process_ratchet_message(&ix).expect("ok");
    assert_eq!(out.counter, 41);
    assert_eq!(out.ciphertext, b"ciphertext bytes".to_vec());
}

#[test]
fn ratchet_length_checks() {
    assert_eq!(process_ratchet_message(&ratchet_ix(0, b"")[..70]), Err(PmpError::InvalidInstructionData));
    let mut ix = ratchet_ix(0, b"xyz");
    ix.truncate(ix.len() - 1);
    assert_eq!(process_ratchet_message(&ix), Err(PmpError::InvalidInstructionData));
}

#[test]
fn reveal_types_recognized() {
    for (code, rt) in [
        (0u8, RevealType::Full),
        (1, RevealType::AmountOnly),
        (2, RevealType::RecipientOnly),
        (3, RevealType::MetadataOnly),
    ] {
        let out = process_compliance_reveal(&reveal_ix(code)).expect("ok");
        assert_eq!(out.reveal_type, rt);
        assert_eq!(out.auditor, [0x02u8; 32]);
        assert_eq!(out.disclosure_key, [0x03u8; 32]);
    }
}

#[test]
fn reveal_unknown_type_rejected() {
    assert_eq!(process_compliance_reveal(&reveal_ix(4)), Err(PmpError::InvalidInstructionData));
}

#[test]
fn reveal_length_checks() {
    assert_eq!(
        process_compliance_reveal(&reveal_ix(0)[..98]),
        Err(PmpError::InvalidInstructionData)
    );
}

#[test]
fn dispatcher_routes_by_tag() {
    let msg = message_ix(0, &[9u8; 32], &[7u8; 32], b"hi");
    assert!(matches!(process_instruction(&msg, None), Ok(Outcome::Message(_))));
    let routed = routed_ix(2, 1, b"layer");
    assert!(matches!(process_instruction(&routed, None), Ok(Outcome::Routed(_))));
    let ratchet = ratchet_ix(1, b"ct");
    assert!(matches!(process_instruction(&ratchet, None), Ok(Outcome::Ratchet(_))));
    let reveal = reveal_ix(0);
    assert!(matches!(process_instruction(&reveal, None), Ok(Outcome::Reveal(_))));
    let sender = [5u8; 32];
    let transfer = transfer_ix(&[1u8; 32], &sender, 9, &[0u8; 8], b"");
    assert!(matches!(process_instruction(&transfer, None), Ok(Outcome::Transfer(_))));
}

#[test]
fn dispatcher_rejects_empty_and_unknown() {
    assert_eq!(process_instruction(&[], None), Err(PmpError::InvalidInstructionData));
    assert_eq!(process_instruction(&[9, 0, 0], None), Err(PmpError::InvalidInstructionData));
    assert_eq!(process_instruction(&[0], None), Err(PmpError::InvalidInstructionData));
}
