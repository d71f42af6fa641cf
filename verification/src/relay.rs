//! Relay validation: the checks a relay performs before paying its fee and
//! emitting an encrypted envelope for inbox scanners to discover. The fee
//! transfer and the log emission themselves belong to the surrounding
//! runtime; this module decides exactly what it must do.

use vstd::prelude::*;

verus! {

/// Upper bound on a relayed envelope, to keep transactions affordable and
/// reduce log spam. Logs are still public and should contain encrypted
/// bytes.
pub const MAX_ENVELOPE_BYTES: usize = 1024;

/// A relay instruction: pay a fee to the treasury and emit the envelope.
#[derive(Debug, Clone, PartialEq, Eq)]
pub enum RelayIx {
    Relay { fee_lamports: u64, envelope: Vec<u8> },
}

/// The mathematical shape of a relay instruction.
pub ghost enum RelayIxView {
    Relay { fee_lamports: u64, envelope: Seq<u8> },
}

impl View for RelayIx {
    type V = RelayIxView;

    open spec fn view(&self) -> RelayIxView {
        match self {
            RelayIx::Relay { fee_lamports, envelope } => RelayIxView::Relay {
                fee_lamports: *fee_lamports,
                envelope: envelope@,
            },
        }
    }
}

/// Why a relay instruction was refused.
#[derive(Debug, Clone, Copy, PartialEq, Eq, Structural)]
pub enum RelayError {
    /// The envelope exceeds [`MAX_ENVELOPE_BYTES`].
    EnvelopeTooLarge,
    /// The paying account did not sign.
    MissingSignature,
    /// The account offered as the system program is not it.
    InvalidSystemProgram,
}

impl RelayError {
    /// The numeric code this error surfaces as to the runtime.
    pub fn code(&self) -> (r: u32)
        ensures
            r == spec_relay_error_code(*self),
    {
        match self {
            RelayError::EnvelopeTooLarge => 1,
            RelayError::MissingSignature => 2,
            RelayError::InvalidSystemProgram => 3,
        }
    }
}

/// The numeric code of each relay error.
pub open spec fn spec_relay_error_code(e: RelayError) -> u32 {
    match e {
        RelayError::EnvelopeTooLarge => 1,
        RelayError::MissingSignature => 2,
        RelayError::InvalidSystemProgram => 3,
    }
}

/// What an accepted relay obliges the runtime to do: transfer the fee when
/// one is due, then emit the envelope in the logs.
#[derive(Debug, Clone, PartialEq, Eq)]
pub struct RelayPlan {
    /// Transfer this fee from the payer to the treasury; zero means no
    /// transfer at all.
    pub fee_lamports: u64,
    /// Emit these envelope bytes for discovery.
    pub envelope: Vec<u8>,
}

/// The mathematical shape of a relay plan.
pub ghost struct RelayPlanView {
    pub fee_lamports: u64,
    pub envelope: Seq<u8>,
}

impl View for RelayPlan {
    type V = RelayPlanView;

    open spec fn view(&self) -> RelayPlanView {
        RelayPlanView { fee_lamports: self.fee_lamports, envelope: self.envelope@ }
    }
}

/// What validating a relay instruction must yield: the envelope within
/// bounds, the payer's signature present and the system program genuine, in
/// that order of complaint; then the fee and envelope pass through intact.
pub open spec fn spec_relay(
    ix: RelayIxView,
    payer_is_signer: bool,
    system_program_ok: bool,
) -> Result<RelayPlanView, RelayError> {
    match ix {
        RelayIxView::Relay { fee_lamports, envelope } => {
            if envelope.len() > MAX_ENVELOPE_BYTES {
                Err(RelayError::EnvelopeTooLarge)
            } else if !payer_is_signer {
                Err(RelayError::MissingSignature)
            } else if !system_program_ok {
                Err(RelayError::InvalidSystemProgram)
            } else {
                Ok(RelayPlanView { fee_lamports, envelope })
            }
        },
    }
}

/// Validates a relay instruction against the account facts the runtime
/// supplies: whether the payer signed, and whether the account offered as
/// the system program is the real one.
pub fn relay(ix: RelayIx, payer_is_signer: bool, system_program_ok: bool) -> (r: Result<
    RelayPlan,
    RelayError,
>)
    ensures
        (r matches Ok(p) ==> spec_relay(ix@, payer_is_signer, system_program_ok) == Ok::<
            RelayPlanView,
            RelayError,
        >(p@)),
        (r matches Err(e) ==> spec_relay(ix@, payer_is_signer, system_program_ok) == Err::<
            RelayPlanView,
            RelayError,
        >(e)),
{
    match ix {
        RelayIx::Relay { fee_lamports, envelope } => {
            if envelope.len() > MAX_ENVELOPE_BYTES {
                return Err(RelayError::EnvelopeTooLarge);
            }
            if !payer_is_signer {
                return Err(RelayError::MissingSignature);
            }
            if !system_program_ok {
                return Err(RelayError::InvalidSystemProgram);
            }
            Ok(RelayPlan { fee_lamports, envelope })
        },
    }
}

} // verus!
