//! Instruction dispatcher: parses a tagged byte buffer into one of the
//! protocol's fixed-layout instructions, runs the matching derivation or
//! validation, and returns the artifacts the surrounding runtime must emit,
//! log or execute. All failures are fatal to the invocation and reported as
//! a typed error; nothing is retried or partially applied.

use vstd::prelude::*;
use vstd::bytes::{spec_u16_from_le_bytes, spec_u64_from_le_bytes, u64_from_le_bytes};
use vstd::slice::{slice_subrange, slice_to_vec};
use crate::aead::{chacha_seal, encrypt_payload};
use crate::bytes::{eq_arr32, read_arr, xor_seq};
use crate::envelope::read_u16le;
use crate::kdf::{decrypt_metadata, derive_nonce, derive_shared_key, derive_transfer_mask,
    metadata_keystream, msg_nonce_domain, msg_nonce_domain_bytes, nonce_of, shared_key,
    transfer_mask};

verus! {

/// The typed failures an instruction can end in.
#[derive(Debug, Clone, Copy, PartialEq, Eq, Structural)]
pub enum PmpError {
    /// The buffer is malformed: unknown tag, too short, a declared length
    /// past the end, an unassigned code, or a failed encryption.
    InvalidInstructionData,
    /// The funding account did not sign a transfer.
    MissingRequiredSignature,
    /// The supplied destination does not equal the decrypted recipient.
    InvalidAccountData,
}

/// Instruction tag: a private message, possibly encrypted and stealth-logged.
pub const TAG_PRIVATE_MESSAGE: u8 = 3;

/// Instruction tag: a hop-bounded routed message.
pub const TAG_ROUTED_MESSAGE: u8 = 4;

/// Instruction tag: a private token transfer with a masked amount.
pub const TAG_PRIVATE_TRANSFER: u8 = 5;

/// Instruction tag: a forward-secret ratchet message.
pub const TAG_RATCHET_MESSAGE: u8 = 7;

/// Instruction tag: an auditor disclosure.
pub const TAG_COMPLIANCE_REVEAL: u8 = 8;

/// Message flag: seal the payload with the derived key and nonce.
pub const FLAG_ENCRYPT: u8 = 1;

/// Message flag: log only the payload length, no metadata.
pub const FLAG_STEALTH: u8 = 2;

/// Message flag: a compliance block follows the payload.
pub const FLAG_COMPLIANCE_ENABLED: u8 = 16;

/// The largest hop count a routed message may carry.
pub const MAX_HOPS: usize = 5;

/// Whether a bit of an 8-bit flag byte is set.
pub open spec fn flag8(flags: u8, bit: u8) -> bool {
    flags & bit != 0
}

/// What processing a private message leaves behind: the payload to emit
/// (sealed when the encrypt flag was set) and what the log may say.
#[derive(Debug, Clone, PartialEq, Eq)]
pub struct MessageOutcome {
    /// Log only the payload length.
    pub stealth: bool,
    /// The raw flag byte, for the non-stealth log line.
    pub flags: u8,
    /// The payload to emit: sealed if the encrypt flag was set.
    pub payload: Vec<u8>,
    /// The auditor count of a present compliance block.
    pub compliance_auditors: Option<u8>,
}

/// The mathematical shape of a message outcome.
pub ghost struct MessageOutcomeView {
    pub stealth: bool,
    pub flags: u8,
    pub payload: Seq<u8>,
    pub compliance_auditors: Option<u8>,
}

impl View for MessageOutcome {
    type V = MessageOutcomeView;

    open spec fn view(&self) -> MessageOutcomeView {
        MessageOutcomeView {
            stealth: self.stealth,
            flags: self.flags,
            payload: self.payload@,
            compliance_auditors: self.compliance_auditors,
        }
    }
}

/// What a private message buffer must yield: parse the fixed layout,
/// recover the recipient from its obfuscation, and seal the payload under
/// the shared key and derived nonce when the encrypt flag is set.
pub open spec fn spec_private_message(s: Seq<u8>) -> Result<MessageOutcomeView, PmpError> {
    if s.len() < 68 {
        Err(PmpError::InvalidInstructionData)
    } else {
        let flags = s[1];
        let er = s.subrange(2, 34);
        let sender = s.subrange(34, 66);
        let plen = spec_u16_from_le_bytes(s.subrange(66, 68)) as int;
        if s.len() < 68 + plen {
            Err(PmpError::InvalidInstructionData)
        } else {
            let payload = s.subrange(68, 68 + plen);
            let recipient = xor_seq(er, metadata_keystream(sender));
            let fin = if flag8(flags, FLAG_ENCRYPT) {
                chacha_seal(shared_key(sender, recipient), nonce_of(msg_nonce_domain(), er), payload)
            } else {
                payload
            };
            let auditors: Option<u8> = if flag8(flags, FLAG_COMPLIANCE_ENABLED) && s.len() > 68
                + plen {
                Some(s[68 + plen])
            } else {
                None
            };
            Ok(
                MessageOutcomeView {
                    stealth: flag8(flags, FLAG_STEALTH),
                    flags,
                    payload: fin,
                    compliance_auditors: auditors,
                },
            )
        }
    }
}

/// Processes a private message: recovers the recipient, seals the payload
/// when asked to, and reports what to emit and log. Every well-formed
/// buffer succeeds: the payload is at most 65535 bytes, far below the
/// cipher's refusal point.
pub fn process_private_message(data: &[u8]) -> (r: Result<MessageOutcome, PmpError>)
    ensures
        (r matches Ok(out) ==> spec_private_message(data@) == Ok::<MessageOutcomeView, PmpError>(
            out@,
        )),
        (r matches Err(e) ==> spec_private_message(data@) == Err::<MessageOutcomeView, PmpError>(
            e,
        )),
{
    let n = data.len();
    if n < 68 {
        return Err(PmpError::InvalidInstructionData);
    }
    let flags = data[1];
    let er = read_arr::<32>(data, 2);
    let sender = read_arr::<32>(data, 34);
    let plen = read_u16le(data, 66) as usize;
    if n - 68 < plen {
        return Err(PmpError::InvalidInstructionData);
    }
    let payload = slice_subrange(data, 68, 68 + plen);
    let recipient = decrypt_metadata(&sender, &er);
    let final_payload: Vec<u8> = if (flags & FLAG_ENCRYPT) != 0 {
        let key = derive_shared_key(&sender, &recipient);
        let dom = msg_nonce_domain_bytes();
        let nonce = derive_nonce(dom.as_slice(), er.as_slice());
        match encrypt_payload(&key, &nonce, payload) {
            Ok(c) => c,
            Err(e) => {
                return Err(e);
            },
        }
    } else {
        slice_to_vec(payload)
    };
    let compliance_auditors: Option<u8> = if (flags & FLAG_COMPLIANCE_ENABLED) != 0 && n > 68
        + plen {
        Some(data[68 + plen])
    } else {
        None
    };
    let out = MessageOutcome {
        stealth: (flags & FLAG_STEALTH) != 0,
        flags,
        payload: final_payload,
        compliance_auditors,
    };
    proof {
        assert(spec_private_message(data@) == Ok::<MessageOutcomeView, PmpError>(out@));
    }
    Ok(out)
}

/// What processing a routed message leaves behind: the still-layered
/// payload to hand on, and the coarse hop metadata the log may carry.
#[derive(Debug, Clone, PartialEq, Eq)]
pub struct RoutedOutcome {
    /// The current hop index equals the hop count: this is the final
    /// recipient, not an intermediate relay.
    pub final_hop: bool,
    /// The index of the hop being processed.
    pub current_hop: u8,
    /// The total hop count, at most [`MAX_HOPS`].
    pub hop_count: u8,
    /// The layered payload, emitted unchanged for the next party to peel.
    pub payload: Vec<u8>,
}

/// The mathematical shape of a routed-message outcome.
pub ghost struct RoutedOutcomeView {
    pub final_hop: bool,
    pub current_hop: u8,
    pub hop_count: u8,
    pub payload: Seq<u8>,
}

impl View for RoutedOutcome {
    type V = RoutedOutcomeView;

    open spec fn view(&self) -> RoutedOutcomeView {
        RoutedOutcomeView {
            final_hop: self.final_hop,
            current_hop: self.current_hop,
            hop_count: self.hop_count,
            payload: self.payload@,
        }
    }
}

/// What a routed message buffer must yield: a hop count within the bound,
/// the untouched layered payload, and whether this hop is the final one.
pub open spec fn spec_routed_message(s: Seq<u8>) -> Result<RoutedOutcomeView, PmpError> {
    if s.len() < 70 {
        Err(PmpError::InvalidInstructionData)
    } else if s[2] > 5 {
        Err(PmpError::InvalidInstructionData)
    } else {
        let plen = spec_u16_from_le_bytes(s.subrange(68, 70)) as int;
        if s.len() < 70 + plen {
            Err(PmpError::InvalidInstructionData)
        } else {
            Ok(
                RoutedOutcomeView {
                    final_hop: s[35] == s[2],
                    current_hop: s[35],
                    hop_count: s[2],
                    payload: s.subrange(70, 70 + plen),
                },
            )
        }
    }
}

/// Processes one hop of a routed message: bounds the hop count, decides
/// whether this hop is final, and hands the layered payload on unchanged.
/// Peeling the layer itself is an off-protocol operation of the next hop.
pub fn process_routed_message(data: &[u8]) -> (r: Result<RoutedOutcome, PmpError>)
    ensures
        (r matches Ok(out) ==> spec_routed_message(data@) == Ok::<RoutedOutcomeView, PmpError>(
            out@,
        )),
        (r matches Err(e) ==> spec_routed_message(data@) == Err::<RoutedOutcomeView, PmpError>(e)),
{
    let n = data.len();
    if n < 70 {
        return Err(PmpError::InvalidInstructionData);
    }
    let hop_count = data[2];
    if hop_count as usize > MAX_HOPS {
        return Err(PmpError::InvalidInstructionData);
    }
    let current_hop = data[35];
    let plen = read_u16le(data, 68) as usize;
    if n - 70 < plen {
        return Err(PmpError::InvalidInstructionData);
    }
    let payload = slice_to_vec(slice_subrange(data, 70, 70 + plen));
    Ok(RoutedOutcome { final_hop: current_hop == hop_count, current_hop, hop_count, payload })
}

/// A routed message whose hop count exceeds the bound is rejected, and an
/// accepted one is final exactly when its current hop equals its count.
pub proof fn lemma_hop_bound(s: Seq<u8>)
    ensures
        s.len() >= 70 && s[2] > 5 ==> spec_routed_message(s) == Err::<RoutedOutcomeView, PmpError>(
            PmpError::InvalidInstructionData,
        ),
        spec_routed_message(s) matches Ok(o) ==> o.hop_count <= 5 && (o.final_hop <==> o.current_hop
            == o.hop_count),
{
}

/// The account facts a transfer needs from the runtime: whether the funding
/// account signed, and the destination account offered for the payout.
#[derive(Debug, Clone, PartialEq, Eq)]
pub struct TransferCheck {
    pub from_is_signer: bool,
    pub destination: [u8; 32],
}

/// The mathematical shape of the account facts.
pub ghost struct TransferCheckView {
    pub from_is_signer: bool,
    pub destination: Seq<u8>,
}

impl View for TransferCheck {
    type V = TransferCheckView;

    open spec fn view(&self) -> TransferCheckView {
        TransferCheckView { from_is_signer: self.from_is_signer, destination: self.destination@ }
    }
}

/// What processing a private transfer leaves behind: the recovered
/// plaintext recipient and amount, whether the runtime must move the funds,
/// and the encrypted memo to emit, if one was carried.
#[derive(Debug, Clone, PartialEq, Eq)]
pub struct TransferOutcome {
    /// The recipient, recovered from its obfuscation.
    pub recipient: [u8; 32],
    /// The actual amount: the carried amount with the mask removed.
    pub amount: u64,
    /// The runtime must move `amount` to `recipient`: account facts were
    /// supplied and every check passed.
    pub transfer: bool,
    /// The encrypted memo to emit, when one was declared.
    pub memo: Option<Vec<u8>>,
}

/// The mathematical shape of a transfer outcome.
pub ghost struct TransferOutcomeView {
    pub recipient: Seq<u8>,
    pub amount: u64,
    pub transfer: bool,
    pub memo: Option<Seq<u8>>,
}

impl View for TransferOutcome {
    type V = TransferOutcomeView;

    open spec fn view(&self) -> TransferOutcomeView {
        TransferOutcomeView {
            recipient: self.recipient@,
            amount: self.amount,
            transfer: self.transfer,
            memo: match self.memo {
                Some(m) => Some(m@),
                None => None,
            },
        }
    }
}

/// What a private transfer buffer must yield: parse the fixed layout,
/// rejecting a declared memo length that runs past the end of the buffer
/// before any derivation; recover recipient and amount; and, when account
/// facts are supplied, demand a signature and an exact match between the
/// offered destination and the decrypted recipient before any funds move.
pub open spec fn spec_private_transfer(s: Seq<u8>, accounts: Option<TransferCheckView>) -> Result<
    TransferOutcomeView,
    PmpError,
> {
    if s.len() < 84 {
        Err(PmpError::InvalidInstructionData)
    } else {
        let mlen = spec_u16_from_le_bytes(s.subrange(82, 84)) as int;
        if mlen > 0 && s.len() < 84 + mlen {
            Err(PmpError::InvalidInstructionData)
        } else {
            let er = s.subrange(2, 34);
            let sender = s.subrange(34, 66);
            let enc_amount = spec_u64_from_le_bytes(s.subrange(66, 74));
            let nonce = s.subrange(74, 82);
            let memo: Option<Seq<u8>> = if mlen > 0 {
                Some(s.subrange(84, 84 + mlen))
            } else {
                None
            };
            let recipient = xor_seq(er, metadata_keystream(sender));
            let amount = enc_amount ^ transfer_mask(sender, recipient, nonce);
            match accounts {
                None => Ok(TransferOutcomeView { recipient, amount, transfer: false, memo }),
                Some(acc) => if !acc.from_is_signer {
                    Err(PmpError::MissingRequiredSignature)
                } else if acc.destination != recipient {
                    Err(PmpError::InvalidAccountData)
                } else {
                    Ok(TransferOutcomeView { recipient, amount, transfer: true, memo })
                },
            }
        }
    }
}

/// Processes a private transfer: rejects a memo running past the end of
/// the buffer before any derivation, recovers the plaintext recipient and
/// amount, and, when account facts are supplied, enforces the signature and
/// the recipient match before reporting that funds must move.
pub fn process_private_transfer(data: &[u8], accounts: Option<&TransferCheck>) -> (r: Result<
    TransferOutcome,
    PmpError,
>)
    ensures
        (r matches Ok(out) ==> spec_private_transfer(data@, acc_view(accounts)) == Ok::<
            TransferOutcomeView,
            PmpError,
        >(out@)),
        (r matches Err(e) ==> spec_private_transfer(data@, acc_view(accounts)) == Err::<
            TransferOutcomeView,
            PmpError,
        >(e)),
{
    let n = data.len();
    if n < 84 {
        return Err(PmpError::InvalidInstructionData);
    }
    let mlen = read_u16le(data, 82) as usize;
    if mlen > 0 && n - 84 < mlen {
        return Err(PmpError::InvalidInstructionData);
    }
    let er = read_arr::<32>(data, 2);
    let sender = read_arr::<32>(data, 34);
    let enc_amount = u64_from_le_bytes(slice_subrange(data, 66, 74));
    let amount_nonce = read_arr::<8>(data, 74);
    let memo: Option<Vec<u8>> = if mlen > 0 {
        Some(slice_to_vec(slice_subrange(data, 84, 84 + mlen)))
    } else {
        None
    };
    let recipient = decrypt_metadata(&sender, &er);
    let mask = derive_transfer_mask(&sender, &recipient, &amount_nonce);
    let amount = enc_amount ^ mask;
    match accounts {
        None => Ok(TransferOutcome { recipient, amount, transfer: false, memo }),
        Some(acc) => {
            if !acc.from_is_signer {
                return Err(PmpError::MissingRequiredSignature);
            }
            if !eq_arr32(&acc.destination, &recipient) {
                return Err(PmpError::InvalidAccountData);
            }
            Ok(TransferOutcome { recipient, amount, transfer: true, memo })
        },
    }
}

/// The view of the optionally supplied account facts.
pub open spec fn acc_view(accounts: Option<&TransferCheck>) -> Option<TransferCheckView> {
    match accounts {
        Some(a) => Some(a@),
        None => None,
    }
}

/// A signed transfer whose offered destination differs from the decrypted
/// recipient is rejected outright: no funds move on a mismatch.
pub proof fn lemma_transfer_mismatch_rejected(s: Seq<u8>, acc: TransferCheckView)
    requires
        s.len() >= 84,
        s.len() >= 84 + spec_u16_from_le_bytes(s.subrange(82, 84)),
        acc.from_is_signer,
        acc.destination != xor_seq(s.subrange(2, 34), metadata_keystream(s.subrange(34, 66))),
    ensures
        spec_private_transfer(s, Some(acc)) == Err::<TransferOutcomeView, PmpError>(
            PmpError::InvalidAccountData,
        ),
{
}

/// Funds move only with a signature and only to the decrypted recipient:
/// every accepted transfer with account facts pays exactly that account.
pub proof fn lemma_transfer_pays_decrypted_recipient(s: Seq<u8>, acc: TransferCheckView)
    ensures
        spec_private_transfer(s, Some(acc)) matches Ok(o) ==> o.transfer && acc.from_is_signer
            && o.recipient == acc.destination,
        spec_private_transfer(s, None) matches Ok(o) ==> !o.transfer,
{
}

/// What processing a ratchet message leaves behind: the logged counter and
/// the ciphertext to emit. The protocol carries and logs these; the keys
/// themselves are derived off-protocol by the participants.
#[derive(Debug, Clone, PartialEq, Eq)]
pub struct RatchetOutcome {
    /// The monotonic counter carried by the message.
    pub counter: u64,
    /// The ciphertext to emit.
    pub ciphertext: Vec<u8>,
}

/// The mathematical shape of a ratchet-message outcome.
pub ghost struct RatchetOutcomeView {
    pub counter: u64,
    pub ciphertext: Seq<u8>,
}

impl View for RatchetOutcome {
    type V = RatchetOutcomeView;

    open spec fn view(&self) -> RatchetOutcomeView {
        RatchetOutcomeView { counter: self.counter, ciphertext: self.ciphertext@ }
    }
}

/// What a ratchet message buffer must yield: the counter and the untouched
/// ciphertext, with every fixed field accounted for.
pub open spec fn spec_ratchet_message(s: Seq<u8>) -> Result<RatchetOutcomeView, PmpError> {
    if s.len() < 76 {
        Err(PmpError::InvalidInstructionData)
    } else {
        let clen = spec_u16_from_le_bytes(s.subrange(74, 76)) as int;
        if s.len() < 76 + clen {
            Err(PmpError::InvalidInstructionData)
        } else {
            Ok(
                RatchetOutcomeView {
                    counter: spec_u64_from_le_bytes(s.subrange(34, 42)),
                    ciphertext: s.subrange(76, 76 + clen),
                },
            )
        }
    }
}

/// Processes a forward-secret ratchet message: validates the layout and
/// reports the counter to log and the ciphertext to emit.
pub fn process_ratchet_message(data: &[u8]) -> (r: Result<RatchetOutcome, PmpError>)
    ensures
        (r matches Ok(out) ==> spec_ratchet_message(data@) == Ok::<RatchetOutcomeView, PmpError>(
            out@,
        )),
        (r matches Err(e) ==> spec_ratchet_message(data@) == Err::<RatchetOutcomeView, PmpError>(
            e,
        )),
{
    let n = data.len();
    if n < 76 {
        return Err(PmpError::InvalidInstructionData);
    }
    let counter = u64_from_le_bytes(slice_subrange(data, 34, 42));
    let clen = read_u16le(data, 74) as usize;
    if n - 76 < clen {
        return Err(PmpError::InvalidInstructionData);
    }
    let ciphertext = slice_to_vec(slice_subrange(data, 76, 76 + clen));
    Ok(RatchetOutcome { counter, ciphertext })
}

/// What an auditor may be shown.
#[derive(Debug, Clone, Copy, PartialEq, Eq, Structural)]
pub enum RevealType {
    Full,
    AmountOnly,
    RecipientOnly,
    MetadataOnly,
}

/// The reveal type a wire code stands for, if any.
pub open spec fn reveal_type_from_code_spec(c: u8) -> Option<RevealType> {
    if c == 0 {
        Some(RevealType::Full)
    } else if c == 1 {
        Some(RevealType::AmountOnly)
    } else if c == 2 {
        Some(RevealType::RecipientOnly)
    } else if c == 3 {
        Some(RevealType::MetadataOnly)
    } else {
        None
    }
}

/// Maps a wire code back to a reveal type; unassigned codes give `None`.
pub fn reveal_type_from_code(c: u8) -> (r: Option<RevealType>)
    ensures
        r == reveal_type_from_code_spec(c),
{
    match c {
        0 => Some(RevealType::Full),
        1 => Some(RevealType::AmountOnly),
        2 => Some(RevealType::RecipientOnly),
        3 => Some(RevealType::MetadataOnly),
        _ => None,
    }
}

/// What processing a compliance reveal leaves behind: the auditor and
/// reveal type to log, and the disclosure key to emit verbatim. The key is
/// a capability token; its consumption happens off-protocol.
#[derive(Debug, Clone, PartialEq, Eq)]
pub struct RevealOutcome {
    /// The auditor the disclosure is addressed to.
    pub auditor: [u8; 32],
    /// The disclosure key, emitted exactly as carried.
    pub disclosure_key: [u8; 32],
    /// How much the auditor may be shown.
    pub reveal_type: RevealType,
}

/// The mathematical shape of a reveal outcome.
pub ghost struct RevealOutcomeView {
    pub auditor: Seq<u8>,
    pub disclosure_key: Seq<u8>,
    pub reveal_type: RevealType,
}

impl View for RevealOutcome {
    type V = RevealOutcomeView;

    open spec fn view(&self) -> RevealOutcomeView {
        RevealOutcomeView {
            auditor: self.auditor@,
            disclosure_key: self.disclosure_key@,
            reveal_type: self.reveal_type,
        }
    }
}

/// What a compliance reveal buffer must yield: the auditor, the disclosure
/// key verbatim, and a recognized reveal type; an unassigned type code is a
/// policy violation and is rejected.
pub open spec fn spec_compliance_reveal(s: Seq<u8>) -> Result<RevealOutcomeView, PmpError> {
    if s.len() < 99 {
        Err(PmpError::InvalidInstructionData)
    } else {
        match reveal_type_from_code_spec(s[98]) {
            None => Err(PmpError::InvalidInstructionData),
            Some(rt) => Ok(
                RevealOutcomeView {
                    auditor: s.subrange(34, 66),
                    disclosure_key: s.subrange(66, 98),
                    reveal_type: rt,
                },
            ),
        }
    }
}

/// Processes a compliance reveal: validates the layout and the reveal type
/// and reports the auditor, type and disclosure key to log and emit.
pub fn process_compliance_reveal(data: &[u8]) -> (r: Result<RevealOutcome, PmpError>)
    ensures
        (r matches Ok(out) ==> spec_compliance_reveal(data@) == Ok::<RevealOutcomeView, PmpError>(
            out@,
        )),
        (r matches Err(e) ==> spec_compliance_reveal(data@) == Err::<RevealOutcomeView, PmpError>(
            e,
        )),
{
    let n = data.len();
    if n < 99 {
        return Err(PmpError::InvalidInstructionData);
    }
    let auditor = read_arr::<32>(data, 34);
    let disclosure_key = read_arr::<32>(data, 66);
    let reveal_type = match reveal_type_from_code(data[98]) {
        Some(rt) => rt,
        None => {
            return Err(PmpError::InvalidInstructionData);
        },
    };
    Ok(RevealOutcome { auditor, disclosure_key, reveal_type })
}

/// The result of one protocol invocation, by instruction kind.
#[derive(Debug, Clone, PartialEq, Eq)]
pub enum Outcome {
    Message(MessageOutcome),
    Routed(RoutedOutcome),
    Transfer(TransferOutcome),
    Ratchet(RatchetOutcome),
    Reveal(RevealOutcome),
}

/// The mathematical shape of an instruction outcome.
pub ghost enum OutcomeView {
    Message(MessageOutcomeView),
    Routed(RoutedOutcomeView),
    Transfer(TransferOutcomeView),
    Ratchet(RatchetOutcomeView),
    Reveal(RevealOutcomeView),
}

impl View for Outcome {
    type V = OutcomeView;

    open spec fn view(&self) -> OutcomeView {
        match self {
            Outcome::Message(m) => OutcomeView::Message(m@),
            Outcome::Routed(m) => OutcomeView::Routed(m@),
            Outcome::Transfer(m) => OutcomeView::Transfer(m@),
            Outcome::Ratchet(m) => OutcomeView::Ratchet(m@),
            Outcome::Reveal(m) => OutcomeView::Reveal(m@),
        }
    }
}

/// What dispatching a tagged buffer must yield: the verdict of the handler
/// its first byte names, and a rejection for an empty buffer or an
/// unassigned tag.
pub open spec fn spec_process_instruction(s: Seq<u8>, accounts: Option<TransferCheckView>) -> Result<
    OutcomeView,
    PmpError,
> {
    if s.len() == 0 {
        Err(PmpError::InvalidInstructionData)
    } else if s[0] == TAG_PRIVATE_MESSAGE {
        match spec_private_message(s) {
            Ok(m) => Ok(OutcomeView::Message(m)),
            Err(e) => Err(e),
        }
    } else if s[0] == TAG_ROUTED_MESSAGE {
        match spec_routed_message(s) {
            Ok(m) => Ok(OutcomeView::Routed(m)),
            Err(e) => Err(e),
        }
    } else if s[0] == TAG_PRIVATE_TRANSFER {
        match spec_private_transfer(s, accounts) {
            Ok(m) => Ok(OutcomeView::Transfer(m)),
            Err(e) => Err(e),
        }
    } else if s[0] == TAG_RATCHET_MESSAGE {
        match spec_ratchet_message(s) {
            Ok(m) => Ok(OutcomeView::Ratchet(m)),
            Err(e) => Err(e),
        }
    } else if s[0] == TAG_COMPLIANCE_REVEAL {
        match spec_compliance_reveal(s) {
            Ok(m) => Ok(OutcomeView::Reveal(m)),
            Err(e) => Err(e),
        }
    } else {
        Err(PmpError::InvalidInstructionData)
    }
}

/// Routes a tagged instruction buffer to its handler. The account facts are
/// consulted only by a private transfer; every other tag ignores them.
pub fn process_instruction(data: &[u8], accounts: Option<&TransferCheck>) -> (r: Result<
    Outcome,
    PmpError,
>)
    ensures
        (r matches Ok(out) ==> spec_process_instruction(data@, acc_view(accounts)) == Ok::<
            OutcomeView,
            PmpError,
        >(out@)),
        (r matches Err(e) ==> spec_process_instruction(data@, acc_view(accounts)) == Err::<
            OutcomeView,
            PmpError,
        >(e)),
{
    if data.is_empty() {
        return Err(PmpError::InvalidInstructionData);
    }
    let tag = data[0];
    if tag == TAG_PRIVATE_MESSAGE {
        match process_private_message(data) {
            Ok(m) => Ok(Outcome::Message(m)),
            Err(e) => Err(e),
        }
    } else if tag == TAG_ROUTED_MESSAGE {
        match process_routed_message(data) {
            Ok(m) => Ok(Outcome::Routed(m)),
            Err(e) => Err(e),
        }
    } else if tag == TAG_PRIVATE_TRANSFER {
        match process_private_transfer(data, accounts) {
            Ok(m) => Ok(Outcome::Transfer(m)),
            Err(e) => Err(e),
        }
    } else if tag == TAG_RATCHET_MESSAGE {
        match process_ratchet_message(data) {
            Ok(m) => Ok(Outcome::Ratchet(m)),
            Err(e) => Err(e),
        }
    } else if tag == TAG_COMPLIANCE_REVEAL {
        match process_compliance_reveal(data) {
            Ok(m) => Ok(Outcome::Reveal(m)),
            Err(e) => Err(e),
        }
    } else {
        Err(PmpError::InvalidInstructionData)
    }
}

} // verus!
