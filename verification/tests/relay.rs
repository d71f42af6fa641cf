use styx_core::relay::{relay, RelayError, RelayIx, MAX_ENVELOPE_BYTES};

fn ix(fee: u64, len: usize) -> RelayIx {
    RelayIx::Relay { fee_lamports: fee, envelope: vec![0xaa; len] }
}

#[test]
fn accepted_relay_passes_fee_and_envelope_through() {
    let plan = relay(ix(500, 100), true, true).expect("ok");
    assert_eq!(plan.fee_lamports, 500);
    assert_eq!(plan.envelope, vec![0xaa; 100]);
}

#[test]
fn zero_fee_means_no_transfer() {
    let plan = relay(ix(0, 1), true, true).expect("ok");
    assert_eq!(plan.fee_lamports, 0);
}

#[test]
fn largest_envelope_accepted() {
    assert!(relay(ix(1, MAX_ENVELOPE_BYTES), true, true).is_ok());
}

#[test]
fn oversized_envelope_rejected() {
    assert_eq!(relay(ix(1, MAX_ENVELOPE_BYTES + 1), true, true), Err(RelayError::EnvelopeTooLarge));
}

#[test]
fn unsigned_payer_rejected() {
    assert_eq!(relay(ix(1, 10), false, true), Err(RelayError::MissingSignature));
}

#[test]
fn wrong_system_program_rejected() {
    assert_eq!(relay(ix(1, 10), true, false), Err(RelayError::InvalidSystemProgram));
}

#[test]
fn size_check_comes_first() {
    // An oversized envelope is the first complaint even without a signature.
    assert_eq!(relay(ix(1, 2000), false, false), Err(RelayError::EnvelopeTooLarge));
}

#[test]
fn error_codes() {
    assert_eq!(RelayError::EnvelopeTooLarge.code(), 1);
    assert_eq!(RelayError::MissingSignature.code(), 2);
    assert_eq!(RelayError::InvalidSystemProgram.code(), 3);
}
