//! Envelope codec: a self-describing binary container with a fixed 4-byte
//! magic tag, version, kind and algorithm codes, a 16-bit flag word whose
//! bits mirror the presence of the optional fields exactly, a 32-byte
//! identifier, and length-prefixed variable fields. Decoding rejects any
//! malformed buffer, including one with trailing bytes, which makes the
//! format self-terminating.

use vstd::prelude::*;
use vstd::arithmetic::power2::{pow2, lemma_pow2_adds, lemma_pow2_strictly_increases, lemma2_to64,
    lemma2_to64_rest};
use vstd::arithmetic::div_mod::{lemma_div_decreases, lemma_multiply_divide_lt,
    lemma_fundamental_div_mod};
use vstd::bytes::{spec_u16_to_le_bytes, spec_u16_from_le_bytes, u16_to_le_bytes, u16_from_le_bytes,
    lemma_auto_spec_u16_to_from_le_bytes};
use vstd::slice::{slice_subrange, slice_to_vec};
use crate::bytes::{push_slice, read_arr};

verus! {

/// The wire version this codec understands.
pub const STYX_V1: u8 = 1;

/// The flag bit marking a present `to_hash` field.
pub const F_TOHASH: u16 = 1;

/// The flag bit marking a present `from` field.
pub const F_FROM: u16 = 2;

/// The flag bit marking a present `nonce` field.
pub const F_NONCE: u16 = 4;

/// The flag bit marking a present `aad` field.
pub const F_AAD: u16 = 8;

/// The flag bit marking a present `sig` field.
pub const F_SIG: u16 = 16;

/// The 4-byte magic tag "STYX" that opens every encoded envelope.
pub open spec fn magic() -> Seq<u8> {
    seq![0x53u8, 0x54, 0x59, 0x58]
}

/// The magic tag as a byte array.
pub fn styx_magic() -> (r: [u8; 4])
    ensures
        r@ == magic(),
{
    let r: [u8; 4] = [0x53u8, 0x54, 0x59, 0x58];
    proof { assert(r@ =~= magic()); }
    r
}

/// What a protocol message carries.
#[derive(Debug, Clone, PartialEq, Eq)]
pub enum Kind {
    Message,
    Reveal,
    Keybundle,
}

/// The encryption suite the payload was prepared with.
#[derive(Debug, Clone, PartialEq, Eq)]
pub enum Algo {
    Pmf1,
}

/// Why an envelope failed to encode or decode.
#[derive(Debug, Clone, Copy, PartialEq, Eq, Structural)]
pub enum EnvError {
    /// The buffer ends before a fixed-size field does.
    TooShort,
    /// The first four bytes are not the magic tag.
    BadMagic,
    /// The version byte is not the one supported version.
    UnsupportedVersion,
    /// The kind code is not assigned.
    UnknownKind,
    /// The algorithm code is not assigned.
    UnknownAlgo,
    /// The buffer ends in the middle of a length prefix.
    VarintTruncated,
    /// A length prefix runs beyond the largest accepted width.
    VarintTooLarge,
    /// A declared field length exceeds the remaining buffer.
    VarBytesOutOfRange,
    /// Bytes remain after every flagged field was consumed.
    TrailingBytes,
}

/// A protocol envelope. The flag word is not stored: it is derived from
/// which optional fields are present, and the two always agree.
#[derive(Debug, Clone, PartialEq, Eq)]
pub struct Env {
    pub v: u8,
    pub kind: Kind,
    pub algo: Algo,
    pub id: [u8; 32],
    pub to_hash: Option<[u8; 32]>,
    pub from: Option<[u8; 32]>,
    pub nonce: Option<Vec<u8>>,
    pub body: Vec<u8>,
    pub aad: Option<Vec<u8>>,
    pub sig: Option<Vec<u8>>,
}

/// The mathematical shape of an envelope: every byte field as a sequence.
pub ghost struct EnvView {
    pub v: u8,
    pub kind: Kind,
    pub algo: Algo,
    pub id: Seq<u8>,
    pub to_hash: Option<Seq<u8>>,
    pub from: Option<Seq<u8>>,
    pub nonce: Option<Seq<u8>>,
    pub body: Seq<u8>,
    pub aad: Option<Seq<u8>>,
    pub sig: Option<Seq<u8>>,
}

impl View for Env {
    type V = EnvView;

    open spec fn view(&self) -> EnvView {
        EnvView {
            v: self.v,
            kind: self.kind,
            algo: self.algo,
            id: self.id@,
            to_hash: match self.to_hash {
                Some(b) => Some(b@),
                None => None,
            },
            from: match self.from {
                Some(b) => Some(b@),
                None => None,
            },
            nonce: match self.nonce {
                Some(b) => Some(b@),
                None => None,
            },
            body: self.body@,
            aad: match self.aad {
                Some(b) => Some(b@),
                None => None,
            },
            sig: match self.sig {
                Some(b) => Some(b@),
                None => None,
            },
        }
    }
}

/// A length this codec can both emit and re-read: it fits in the five
/// base-128 digits the decoder accepts, and in the machine's `usize`.
pub open spec fn uleb_decodable(n: nat) -> bool {
    n < 0x8_0000_0000 && n <= usize::MAX
}

/// A well-formed envelope: fixed fields are 32 bytes and every
/// variable-length field has a decodable length.
pub open spec fn env_wf(e: EnvView) -> bool {
    &&& e.id.len() == 32
    &&& (e.to_hash matches Some(b) ==> b.len() == 32)
    &&& (e.from matches Some(b) ==> b.len() == 32)
    &&& (e.nonce matches Some(b) ==> uleb_decodable(b.len()))
    &&& uleb_decodable(e.body.len())
    &&& (e.aad matches Some(b) ==> uleb_decodable(b.len()))
    &&& (e.sig matches Some(b) ==> uleb_decodable(b.len()))
}

/// The wire code of a kind.
pub open spec fn kind_code_spec(k: Kind) -> u8 {
    match k {
        Kind::Message => 1,
        Kind::Reveal => 2,
        Kind::Keybundle => 3,
    }
}

/// The kind a wire code stands for, if any.
pub open spec fn kind_from_code_spec(c: u8) -> Option<Kind> {
    if c == 1 {
        Some(Kind::Message)
    } else if c == 2 {
        Some(Kind::Reveal)
    } else if c == 3 {
        Some(Kind::Keybundle)
    } else {
        None
    }
}

/// The wire code of an algorithm.
pub open spec fn algo_code_spec(a: Algo) -> u8 {
    match a {
        Algo::Pmf1 => 1,
    }
}

/// The algorithm a wire code stands for, if any.
pub open spec fn algo_from_code_spec(c: u8) -> Option<Algo> {
    if c == 1 {
        Some(Algo::Pmf1)
    } else {
        None
    }
}

/// Maps a kind to its wire code.
pub fn kind_code(k: &Kind) -> (r: u8)
    ensures
        r == kind_code_spec(*k),
{
    match k {
        Kind::Message => 1,
        Kind::Reveal => 2,
        Kind::Keybundle => 3,
    }
}

/// Maps a wire code back to a kind; unassigned codes give `None`.
pub fn kind_from_code(c: u8) -> (r: Option<Kind>)
    ensures
        r == kind_from_code_spec(c),
{
    match c {
        1 => Some(Kind::Message),
        2 => Some(Kind::Reveal),
        3 => Some(Kind::Keybundle),
        _ => None,
    }
}

/// Maps an algorithm to its wire code.
pub fn algo_code(a: &Algo) -> (r: u8)
    ensures
        r == algo_code_spec(*a),
{
    match a {
        Algo::Pmf1 => 1,
    }
}

/// Maps a wire code back to an algorithm; unassigned codes give `None`.
pub fn algo_from_code(c: u8) -> (r: Option<Algo>)
    ensures
        r == algo_from_code_spec(c),
{
    match c {
        1 => Some(Algo::Pmf1),
        _ => None,
    }
}

/// The flag word encoding which of the five optional fields are present.
pub open spec fn spec_flags5(t: bool, f: bool, n: bool, a: bool, s: bool) -> u16 {
    (if t { 1u16 } else { 0u16 }) | (if f { 2u16 } else { 0u16 }) | (if n { 4u16 } else { 0u16 })
        | (if a { 8u16 } else { 0u16 }) | (if s { 16u16 } else { 0u16 })
}

/// The flag word of an envelope, derived from its optional fields.
pub open spec fn spec_flags(e: EnvView) -> u16 {
    spec_flags5(e.to_hash is Some, e.from is Some, e.nonce is Some, e.aad is Some, e.sig is Some)
}

/// Whether a flag bit is set.
pub open spec fn flag_bit(flags: u16, bit: u16) -> bool {
    flags & bit != 0
}

/// Each bit of the flag word mirrors exactly one presence choice, and the
/// word never exceeds the five assigned bits.
pub proof fn lemma_flags5_bits(t: bool, f: bool, n: bool, a: bool, s: bool)
    ensures
        flag_bit(spec_flags5(t, f, n, a, s), F_TOHASH) == t,
        flag_bit(spec_flags5(t, f, n, a, s), F_FROM) == f,
        flag_bit(spec_flags5(t, f, n, a, s), F_NONCE) == n,
        flag_bit(spec_flags5(t, f, n, a, s), F_AAD) == a,
        flag_bit(spec_flags5(t, f, n, a, s), F_SIG) == s,
{
    let w = spec_flags5(t, f, n, a, s);
    assert((w & 1u16 != 0) == t && (w & 2u16 != 0) == f && (w & 4u16 != 0) == n && (w & 8u16 != 0)
        == a && (w & 16u16 != 0) == s) by (bit_vector)
        requires
            w == ((if t { 1u16 } else { 0u16 }) | (if f { 2u16 } else { 0u16 }) | (if n {
                4u16
            } else {
                0u16
            }) | (if a { 8u16 } else { 0u16 }) | (if s { 16u16 } else { 0u16 })),
    ;
}

/// Computes the flag word of the five presence choices.
pub fn flags5(t: bool, f: bool, n: bool, a: bool, s: bool) -> (r: u16)
    ensures
        r == spec_flags5(t, f, n, a, s),
{
    (if t { 1u16 } else { 0u16 }) | (if f { 2u16 } else { 0u16 }) | (if n { 4u16 } else { 0u16 })
        | (if a { 8u16 } else { 0u16 }) | (if s { 16u16 } else { 0u16 })
}

/// The little-endian bytes of a 16-bit word.
pub fn u16le(n: u16) -> (r: [u8; 2])
    ensures
        r@ == spec_u16_to_le_bytes(n),
{
    proof { lemma_auto_spec_u16_to_from_le_bytes(); }
    let v = u16_to_le_bytes(n);
    read_arr::<2>(v.as_slice(), 0)
}

/// Reads a 16-bit word from two little-endian bytes at offset `o`.
pub fn read_u16le(buf: &[u8], o: usize) -> (r: u16)
    requires
        o + 2 <= buf@.len(),
    ensures
        r == spec_u16_from_le_bytes(buf@.subrange(o as int, o as int + 2)),
{
    let n = buf.len();
    u16_from_le_bytes(slice_subrange(buf, o, o + 2))
}

/// The unsigned base-128 encoding of `n`, least-significant digits first,
/// with the high bit of a byte marking a continuation.
pub open spec fn uleb(n: nat) -> Seq<u8>
    decreases n,
{
    if n < 128 {
        seq![n as u8]
    } else {
        seq![(128 + n % 128) as u8] + uleb(n / 128)
    }
}

/// Parses a base-128 length prefix at offset `o`, reading at most `rem`
/// bytes. Gives the value and the number of bytes read.
pub open spec fn parse_uleb(s: Seq<u8>, o: nat, rem: nat) -> Result<(nat, nat), EnvError>
    decreases rem,
{
    if rem == 0 {
        Err(EnvError::VarintTooLarge)
    } else if o >= s.len() {
        Err(EnvError::VarintTruncated)
    } else if s[o as int] < 128 {
        Ok((s[o as int] as nat, 1))
    } else {
        match parse_uleb(s, o + 1, (rem - 1) as nat) {
            Ok((v, k)) => Ok((((s[o as int] - 128) + 128 * v) as nat, k + 1)),
            Err(e) => Err(e),
        }
    }
}

/// Parses a length prefix as the decoder does: at most five digits, and
/// the value must fit in `usize`.
pub open spec fn parse_varint(s: Seq<u8>, o: nat) -> Result<(nat, nat), EnvError> {
    match parse_uleb(s, o, 5) {
        Ok((v, k)) => if v <= usize::MAX {
            Ok((v, k))
        } else {
            Err(EnvError::VarintTooLarge)
        },
        Err(e) => Err(e),
    }
}

/// A parsed length prefix of width `rem` stays under `pow2(7 * rem)` and
/// consumes between 1 and `rem` bytes, all inside the buffer.
pub proof fn lemma_parse_uleb_bound(s: Seq<u8>, o: nat, rem: nat)
    ensures
        parse_uleb(s, o, rem) matches Ok((v, k)) ==> v < pow2(7 * rem) && 1 <= k <= rem && o + k
            <= s.len(),
    decreases rem,
{
    if rem > 0 && o < s.len() {
        if s[o as int] < 128 {
            assert(pow2(7) == 128) by {
                lemma2_to64();
            }
            if rem > 1 {
                lemma_pow2_strictly_increases(7, 7 * rem);
            }
        } else {
            lemma_parse_uleb_bound(s, o + 1, (rem - 1) as nat);
            match parse_uleb(s, o + 1, (rem - 1) as nat) {
                Ok((v, k)) => {
                    assert(pow2(7 * rem) == 128 * pow2(7 * (rem - 1) as nat)) by {
                        lemma_pow2_adds(7, 7 * (rem - 1) as nat);
                        assert(pow2(7) == 128) by { lemma2_to64(); }
                    }
                    assert((s[o as int] - 128) + 128 * v < 128 * pow2(7 * (rem - 1) as nat)) by {
                        assert(128 * v <= 128 * (pow2(7 * (rem - 1) as nat) - 1))
                            by (nonlinear_arith)
                            requires
                                v <= pow2(7 * (rem - 1) as nat) - 1,
                        ;
                    }
                },
                Err(_) => {},
            }
        }
    }
}

/// The parser reads back exactly the encoding of `n`, wherever it is
/// embedded and whatever follows it, as long as `n` fits in `rem` digits.
pub proof fn lemma_parse_uleb_of_encoding(s: Seq<u8>, o: nat, n: nat, rem: nat)
    requires
        n < pow2(7 * rem),
        rem >= 1,
        o + uleb(n).len() <= s.len(),
        s.subrange(o as int, o as int + uleb(n).len() as int) == uleb(n),
    ensures
        parse_uleb(s, o, rem) == Ok::<(nat, nat), EnvError>((n, uleb(n).len())),
    decreases rem,
{
    let enc = uleb(n);
    assert(forall|i: int| 0 <= i < enc.len() ==> #[trigger] enc[i] == s[o + i]) by {
        let sub = s.subrange(o as int, o as int + enc.len() as int);
        assert(forall|i: int| 0 <= i < enc.len() ==> #[trigger] sub[i] == s[o + i]);
    }
    assert(s[o as int] == enc[0]);
    if n < 128 {
        assert(enc[0] == n as u8);
        assert(parse_uleb(s, o, rem) == Ok::<(nat, nat), EnvError>((n, 1)));
    } else {
        assert(pow2(7) == 128) by { lemma2_to64(); }
        if rem == 1 {
            // n >= 128 == pow2(7) == pow2(7 * rem) contradicts the bound.
            assert(false);
        }
        let rest = uleb(n / 128);
        assert(enc == seq![(128 + n % 128) as u8] + rest);
        assert(enc[0] == (128 + n % 128) as u8);
        assert(n % 128 < 128);
        assert(s[o as int] >= 128);
        assert(n / 128 < pow2(7 * (rem - 1) as nat)) by {
            lemma_pow2_adds(7, 7 * (rem - 1) as nat);
            lemma_multiply_divide_lt(n as int, 128, pow2(7 * (rem - 1) as nat) as int);
        }
        assert forall|j: int| 0 <= j < rest.len() implies s.subrange(
            o as int + 1,
            o as int + 1 + rest.len() as int,
        )[j] == rest[j] by {
            assert(enc[1 + j] == rest[j]);
            assert(enc[1 + j] == s[o + 1 + j]);
        }
        assert(s.subrange(o as int + 1, o as int + 1 + rest.len() as int) =~= rest);
        lemma_parse_uleb_of_encoding(s, o + 1, n / 128, (rem - 1) as nat);
        assert((s[o as int] - 128) + 128 * (n / 128) == n) by {
            lemma_fundamental_div_mod(n as int, 128);
        }
        assert(enc.len() == 1 + rest.len());
    }
}

/// A decodable length encodes in at most five digits.
pub proof fn lemma_uleb_len(n: nat)
    requires
        n < 0x8_0000_0000,
    ensures
        1 <= uleb(n).len() <= 5,
        n < pow2(35),
{
    assert(pow2(35) == 0x8_0000_0000) by {
        lemma2_to64();
        lemma2_to64_rest();
    }
    assert(uleb(n).len() <= 5) by {
        // Unfold the encoding through its at most five digits.
        if n >= 128 {
            assert(uleb(n).len() == 1 + uleb(n / 128).len());
            if n / 128 >= 128 {
                assert(uleb(n / 128).len() == 1 + uleb(n / 128 / 128).len());
                if n / 128 / 128 >= 128 {
                    assert(uleb(n / 128 / 128).len() == 1 + uleb(n / 128 / 128 / 128).len());
                    if n / 128 / 128 / 128 >= 128 {
                        assert(uleb(n / 128 / 128 / 128).len() == 1 + uleb(
                            n / 128 / 128 / 128 / 128,
                        ).len());
                        assert(n / 128 / 128 / 128 / 128 < 128);
                        assert(uleb(n / 128 / 128 / 128 / 128).len() == 1);
                    }
                }
            }
        }
    }
}

/// The length-prefixed form of a byte string.
pub open spec fn spec_var_bytes(v: Seq<u8>) -> Seq<u8> {
    uleb(v.len()) + v
}

/// Parses a length-prefixed byte string at offset `o`: the declared length
/// must lie within the buffer. Gives the bytes and the total width read.
pub open spec fn parse_var_bytes(s: Seq<u8>, o: nat) -> Result<(Seq<u8>, nat), EnvError> {
    match parse_varint(s, o) {
        Ok((len, k)) => if o + k + len <= s.len() {
            Ok((s.subrange((o + k) as int, (o + k + len) as int), k + len))
        } else {
            Err(EnvError::VarBytesOutOfRange)
        },
        Err(e) => Err(e),
    }
}

/// The parser reads back exactly the length-prefixed form of `v`, wherever
/// it is embedded and whatever follows it.
pub proof fn lemma_parse_var_bytes_of_encoding(s: Seq<u8>, o: nat, v: Seq<u8>)
    requires
        uleb_decodable(v.len()),
        o + spec_var_bytes(v).len() <= s.len(),
        s.subrange(o as int, o as int + spec_var_bytes(v).len() as int) == spec_var_bytes(v),
    ensures
        parse_var_bytes(s, o) == Ok::<(Seq<u8>, nat), EnvError>((v, spec_var_bytes(v).len())),
{
    let enc = spec_var_bytes(v);
    let pre = uleb(v.len());
    lemma_uleb_len(v.len());
    assert(7 * 5 == 35nat);
    assert(forall|i: int| 0 <= i < enc.len() ==> #[trigger] enc[i] == s[o + i]) by {
        let sub = s.subrange(o as int, o as int + enc.len() as int);
        assert(forall|i: int| 0 <= i < enc.len() ==> #[trigger] sub[i] == s[o + i]);
    }
    assert forall|j: int| 0 <= j < pre.len() implies s.subrange(
        o as int,
        o as int + pre.len() as int,
    )[j] == pre[j] by {
        assert(enc[j] == pre[j]);
        assert(enc[j] == s[o + j]);
    }
    assert(s.subrange(o as int, o as int + pre.len() as int) =~= pre);
    lemma_parse_uleb_of_encoding(s, o, v.len(), 5);
    assert(parse_varint(s, o) == Ok::<(nat, nat), EnvError>((v.len(), pre.len())));
    assert forall|j: int| 0 <= j < v.len() implies s.subrange(
        (o + pre.len()) as int,
        (o + pre.len() + v.len()) as int,
    )[j] == v[j] by {
        assert(enc[pre.len() + j] == v[j]);
        assert(enc[pre.len() + j] == s[o + pre.len() + j]);
    }
    assert(s.subrange((o + pre.len()) as int, (o + pre.len() + v.len()) as int) =~= v);
}

} // verus!

verus! {

/// Encodes `n` as an unsigned base-128 length prefix.
pub fn uleb128_encode(n: usize) -> (r: Vec<u8>)
    ensures
        r@ == uleb(n as nat),
    decreases n,
{
    let mut out: Vec<u8> = Vec::new();
    if n < 128 {
        out.push(n as u8);
        proof { assert(out@ =~= uleb(n as nat)); }
    } else {
        let low = (n % 128) as u8;
        out.push(128 + low);
        proof { lemma_div_decreases(n as int, 128); }
        let mut rest = uleb128_encode(n / 128);
        out.append(&mut rest);
        proof { assert(out@ =~= uleb(n as nat)); }
    }
    out
}

/// Encodes a byte string in its length-prefixed form.
pub fn var_bytes_encode(v: &[u8]) -> (r: Vec<u8>)
    ensures
        r@ == spec_var_bytes(v@),
{
    let mut out = uleb128_encode(v.len());
    push_slice(&mut out, v);
    proof { assert(out@ =~= spec_var_bytes(v@)); }
    out
}

fn uleb_decode_rec(buf: &[u8], o: usize, rem: u8) -> (r: Result<(u64, usize), EnvError>)
    requires
        o <= buf@.len(),
        rem <= 5,
    ensures
        (r matches Ok((v, k)) ==> parse_uleb(buf@, o as nat, rem as nat) == Ok::<(nat, nat), EnvError>((
            v as nat,
            k as nat,
        )) && 1 <= k <= rem && o + k <= buf@.len()),
        (r matches Err(e) ==> parse_uleb(buf@, o as nat, rem as nat) == Err::<(nat, nat), EnvError>(e)),
    decreases rem,
{
    if rem == 0 {
        return Err(EnvError::VarintTooLarge);
    }
    if o >= buf.len() {
        return Err(EnvError::VarintTruncated);
    }
    let b = buf[o];
    if b < 128 {
        return Ok((b as u64, 1));
    }
    match uleb_decode_rec(buf, o + 1, rem - 1) {
        Err(e) => Err(e),
        Ok((v, k)) => {
            proof {
                lemma_parse_uleb_bound(buf@, o as nat + 1, (rem - 1) as nat);
                assert(pow2(28) == 0x1000_0000) by {
                    lemma2_to64();
                }
                assert(v < pow2(7 * (rem - 1) as nat));
                if rem - 1 < 4 {
                    lemma_pow2_strictly_increases(7 * (rem - 1) as nat, 28);
                }
                assert(v < 0x1000_0000);
            }
            let value = (b - 128) as u64 + 128 * v;
            Ok((value, k + 1))
        },
    }
}

/// Decodes a base-128 length prefix at offset `o`: the value and how many
/// bytes it occupied. At most five digits are accepted.
pub fn uleb128_decode(buf: &[u8], o: usize) -> (r: Result<(usize, usize), EnvError>)
    requires
        o <= buf@.len(),
    ensures
        (r matches Ok((v, k)) ==> parse_varint(buf@, o as nat) == Ok::<(nat, nat), EnvError>((
            v as nat,
            k as nat,
        )) && 1 <= k <= 5 && o + k <= buf@.len()),
        (r matches Err(e) ==> parse_varint(buf@, o as nat) == Err::<(nat, nat), EnvError>(e)),
{
    match uleb_decode_rec(buf, o, 5) {
        Err(e) => Err(e),
        Ok((v, k)) => {
            if v > usize::MAX as u64 {
                Err(EnvError::VarintTooLarge)
            } else {
                Ok((v as usize, k))
            }
        },
    }
}

/// Decodes a length-prefixed byte string at offset `o`: the bytes and the
/// total width consumed, prefix included.
pub fn var_bytes_decode(buf: &[u8], o: usize) -> (r: Result<(Vec<u8>, usize), EnvError>)
    requires
        o <= buf@.len(),
    ensures
        (r matches Ok(p) ==> parse_var_bytes(buf@, o as nat) == Ok::<(Seq<u8>, nat), EnvError>((
            p.0@,
            p.1 as nat,
        )) && o + p.1 <= buf@.len()),
        (r matches Err(e) ==> parse_var_bytes(buf@, o as nat) == Err::<(Seq<u8>, nat), EnvError>(e)),
{
    let n = buf.len();
    match uleb128_decode(buf, o) {
        Err(e) => Err(e),
        Ok((len, k)) => {
            if len > n - (o + k) {
                Err(EnvError::VarBytesOutOfRange)
            } else {
                let start = o + k;
                let end = start + len;
                let v = slice_to_vec(slice_subrange(buf, start, end));
                Ok((v, k + len))
            }
        },
    }
}

/// The bytes an optional 32-byte field contributes to the stream.
pub open spec fn opt32_bytes(o: Option<Seq<u8>>) -> Seq<u8> {
    match o {
        Some(b) => b,
        None => Seq::empty(),
    }
}

/// The bytes an optional length-prefixed field contributes to the stream.
pub open spec fn opt_var_bytes(o: Option<Seq<u8>>) -> Seq<u8> {
    match o {
        Some(b) => spec_var_bytes(b),
        None => Seq::empty(),
    }
}

/// The fixed 41-byte header: magic, version, kind, flags, algo, identifier.
pub open spec fn env_header(e: EnvView) -> Seq<u8> {
    magic() + seq![e.v, kind_code_spec(e.kind)] + spec_u16_to_le_bytes(spec_flags(e))
        + seq![algo_code_spec(e.algo)] + e.id
}

/// The full encoded form of an envelope: header, then each optional field
/// in its fixed order, the mandatory body among them.
pub open spec fn env_bytes(e: EnvView) -> Seq<u8> {
    env_header(e) + opt32_bytes(e.to_hash) + opt32_bytes(e.from) + opt_var_bytes(e.nonce)
        + spec_var_bytes(e.body) + opt_var_bytes(e.aad) + opt_var_bytes(e.sig)
}

/// Parses a fixed 32-byte field at offset `o`.
pub open spec fn parse_fixed32(s: Seq<u8>, o: nat) -> Result<(Seq<u8>, nat), EnvError> {
    if o + 32 <= s.len() {
        Ok((s.subrange(o as int, o as int + 32), 32))
    } else {
        Err(EnvError::TooShort)
    }
}

/// Parses a flag-gated fixed 32-byte field: absent fields consume nothing.
pub open spec fn parse_opt_fixed32(s: Seq<u8>, o: nat, present: bool) -> Result<
    (Option<Seq<u8>>, nat),
    EnvError,
> {
    if present {
        match parse_fixed32(s, o) {
            Ok((b, k)) => Ok((Some(b), k)),
            Err(e) => Err(e),
        }
    } else {
        Ok((None, 0))
    }
}

/// Parses a flag-gated length-prefixed field: absent fields consume nothing.
pub open spec fn parse_opt_var_bytes(s: Seq<u8>, o: nat, present: bool) -> Result<
    (Option<Seq<u8>>, nat),
    EnvError,
> {
    if present {
        match parse_var_bytes(s, o) {
            Ok((b, k)) => Ok((Some(b), k)),
            Err(e) => Err(e),
        }
    } else {
        Ok((None, 0))
    }
}

/// Parses everything after the fixed header: the five flag-gated fields and
/// the mandatory body, in their fixed order, then demands that the buffer
/// ends exactly there.
pub open spec fn env_decode_fields(s: Seq<u8>, kind: Kind, algo: Algo, flags: u16) -> Result<
    EnvView,
    EnvError,
> {
    match parse_opt_fixed32(s, 41, flag_bit(flags, F_TOHASH)) {
        Err(e) => Err(e),
        Ok((to_hash, k1)) => match parse_opt_fixed32(s, 41 + k1, flag_bit(flags, F_FROM)) {
            Err(e) => Err(e),
            Ok((from, k2)) => match parse_opt_var_bytes(
                s,
                41 + k1 + k2,
                flag_bit(flags, F_NONCE),
            ) {
                Err(e) => Err(e),
                Ok((nonce, k3)) => match parse_var_bytes(s, 41 + k1 + k2 + k3) {
                    Err(e) => Err(e),
                    Ok((body, k4)) => match parse_opt_var_bytes(
                        s,
                        41 + k1 + k2 + k3 + k4,
                        flag_bit(flags, F_AAD),
                    ) {
                        Err(e) => Err(e),
                        Ok((aad, k5)) => match parse_opt_var_bytes(
                            s,
                            41 + k1 + k2 + k3 + k4 + k5,
                            flag_bit(flags, F_SIG),
                        ) {
                            Err(e) => Err(e),
                            Ok((sig, k6)) => if 41 + k1 + k2 + k3 + k4 + k5 + k6 == s.len() {
                                Ok(
                                    EnvView {
                                        v: 1,
                                        kind,
                                        algo,
                                        id: s.subrange(9, 41),
                                        to_hash,
                                        from,
                                        nonce,
                                        body,
                                        aad,
                                        sig,
                                    },
                                )
                            } else {
                                Err(EnvError::TrailingBytes)
                            },
                        },
                    },
                },
            },
        },
    }
}

/// What decoding a buffer yields: the unique envelope the bytes spell, or
/// the first error the scan meets.
pub open spec fn env_decode(s: Seq<u8>) -> Result<EnvView, EnvError> {
    if s.len() < 41 {
        Err(EnvError::TooShort)
    } else if s.subrange(0, 4) != magic() {
        Err(EnvError::BadMagic)
    } else if s[4] != 1 {
        Err(EnvError::UnsupportedVersion)
    } else {
        match kind_from_code_spec(s[5]) {
            None => Err(EnvError::UnknownKind),
            Some(kind) => match algo_from_code_spec(s[8]) {
                None => Err(EnvError::UnknownAlgo),
                Some(algo) => env_decode_fields(
                    s,
                    kind,
                    algo,
                    spec_u16_from_le_bytes(s.subrange(6, 8)),
                ),
            },
        }
    }
}

} // verus!

verus! {

spec fn oview32(o: Option<[u8; 32]>) -> Option<Seq<u8>> {
    match o {
        Some(a) => Some(a@),
        None => None,
    }
}

spec fn oviewv(o: Option<Vec<u8>>) -> Option<Seq<u8>> {
    match o {
        Some(v) => Some(v@),
        None => None,
    }
}

/// Encodes an envelope into its unique byte form. Only version 1 is
/// supported; any other version is rejected before a byte is written.
pub fn encode(env: &Env) -> (r: Result<Vec<u8>, EnvError>)
    ensures
        env.v == 1 ==> (r matches Ok(b) && b@ == env_bytes(env@)),
        env.v != 1 ==> r == Err::<Vec<u8>, EnvError>(EnvError::UnsupportedVersion),
{
    if env.v != 1 {
        return Err(EnvError::UnsupportedVersion);
    }
    let flags = flags5(
        env.to_hash.is_some(),
        env.from.is_some(),
        env.nonce.is_some(),
        env.aad.is_some(),
        env.sig.is_some(),
    );
    proof {
        assert(flags == spec_flags(env@));
    }
    let mut out: Vec<u8> = Vec::new();
    let m = styx_magic();
    push_slice(&mut out, m.as_slice());
    out.push(env.v);
    out.push(kind_code(&env.kind));
    let fb = u16le(flags);
    push_slice(&mut out, fb.as_slice());
    out.push(algo_code(&env.algo));
    push_slice(&mut out, env.id.as_slice());
    proof {
        assert(out@ =~= env_header(env@));
    }
    match &env.to_hash {
        Some(th) => push_slice(&mut out, th.as_slice()),
        None => (),
    }
    proof {
        assert(out@ =~= env_header(env@) + opt32_bytes(env@.to_hash));
    }
    match &env.from {
        Some(fr) => push_slice(&mut out, fr.as_slice()),
        None => (),
    }
    proof {
        assert(out@ =~= env_header(env@) + opt32_bytes(env@.to_hash) + opt32_bytes(env@.from));
    }
    match &env.nonce {
        Some(nn) => {
            let vb = var_bytes_encode(nn.as_slice());
            push_slice(&mut out, vb.as_slice());
        },
        None => (),
    }
    proof {
        assert(out@ =~= env_header(env@) + opt32_bytes(env@.to_hash) + opt32_bytes(env@.from)
            + opt_var_bytes(env@.nonce));
    }
    let bb = var_bytes_encode(env.body.as_slice());
    push_slice(&mut out, bb.as_slice());
    match &env.aad {
        Some(aa) => {
            let vb = var_bytes_encode(aa.as_slice());
            push_slice(&mut out, vb.as_slice());
        },
        None => (),
    }
    match &env.sig {
        Some(sg) => {
            let vb = var_bytes_encode(sg.as_slice());
            push_slice(&mut out, vb.as_slice());
        },
        None => (),
    }
    proof {
        assert(out@ =~= env_bytes(env@));
    }
    Ok(out)
}

/// Chains the six field-parse results into the verdict of
/// `env_decode_fields` when every step succeeds.
proof fn lemma_fields_ok(
    s: Seq<u8>,
    kind: Kind,
    algo: Algo,
    flags: u16,
    th: Option<Seq<u8>>,
    k1: nat,
    fr: Option<Seq<u8>>,
    k2: nat,
    no: Option<Seq<u8>>,
    k3: nat,
    body: Seq<u8>,
    k4: nat,
    aad: Option<Seq<u8>>,
    k5: nat,
    sig: Option<Seq<u8>>,
    k6: nat,
)
    requires
        parse_opt_fixed32(s, 41, flag_bit(flags, F_TOHASH)) == Ok::<(Option<Seq<u8>>, nat), EnvError>((th, k1)),
        parse_opt_fixed32(s, 41 + k1, flag_bit(flags, F_FROM)) == Ok::<(Option<Seq<u8>>, nat), EnvError>((fr, k2)),
        parse_opt_var_bytes(s, 41 + k1 + k2, flag_bit(flags, F_NONCE)) == Ok::<(Option<Seq<u8>>, nat), EnvError>((no, k3)),
        parse_var_bytes(s, 41 + k1 + k2 + k3) == Ok::<(Seq<u8>, nat), EnvError>((body, k4)),
        parse_opt_var_bytes(s, 41 + k1 + k2 + k3 + k4, flag_bit(flags, F_AAD)) == Ok::<(Option<Seq<u8>>, nat), EnvError>((aad, k5)),
        parse_opt_var_bytes(s, 41 + k1 + k2 + k3 + k4 + k5, flag_bit(flags, F_SIG)) == Ok::<(Option<Seq<u8>>, nat), EnvError>((sig, k6)),
    ensures
        41 + k1 + k2 + k3 + k4 + k5 + k6 == s.len() ==> env_decode_fields(s, kind, algo, flags)
            == Ok::<EnvView, EnvError>(
            EnvView {
                v: 1,
                kind,
                algo,
                id: s.subrange(9, 41),
                to_hash: th,
                from: fr,
                nonce: no,
                body,
                aad,
                sig,
            },
        ),
        41 + k1 + k2 + k3 + k4 + k5 + k6 != s.len() ==> env_decode_fields(s, kind, algo, flags)
            == Err::<EnvView, EnvError>(EnvError::TrailingBytes),
{
}

/// A failure in the first flag-gated field decides the verdict.
proof fn lemma_fields_err1(s: Seq<u8>, kind: Kind, algo: Algo, flags: u16, e: EnvError)
    requires
        parse_opt_fixed32(s, 41, flag_bit(flags, F_TOHASH)) == Err::<(Option<Seq<u8>>, nat), EnvError>(e),
    ensures
        env_decode_fields(s, kind, algo, flags) == Err::<EnvView, EnvError>(e),
{
}

/// A failure in the second flag-gated field decides the verdict.
proof fn lemma_fields_err2(
    s: Seq<u8>,
    kind: Kind,
    algo: Algo,
    flags: u16,
    th: Option<Seq<u8>>,
    k1: nat,
    e: EnvError,
)
    requires
        parse_opt_fixed32(s, 41, flag_bit(flags, F_TOHASH)) == Ok::<(Option<Seq<u8>>, nat), EnvError>((th, k1)),
        parse_opt_fixed32(s, 41 + k1, flag_bit(flags, F_FROM)) == Err::<(Option<Seq<u8>>, nat), EnvError>(e),
    ensures
        env_decode_fields(s, kind, algo, flags) == Err::<EnvView, EnvError>(e),
{
}

/// A failure in the nonce field decides the verdict.
proof fn lemma_fields_err3(
    s: Seq<u8>,
    kind: Kind,
    algo: Algo,
    flags: u16,
    th: Option<Seq<u8>>,
    k1: nat,
    fr: Option<Seq<u8>>,
    k2: nat,
    e: EnvError,
)
    requires
        parse_opt_fixed32(s, 41, flag_bit(flags, F_TOHASH)) == Ok::<(Option<Seq<u8>>, nat), EnvError>((th, k1)),
        parse_opt_fixed32(s, 41 + k1, flag_bit(flags, F_FROM)) == Ok::<(Option<Seq<u8>>, nat), EnvError>((fr, k2)),
        parse_opt_var_bytes(s, 41 + k1 + k2, flag_bit(flags, F_NONCE)) == Err::<(Option<Seq<u8>>, nat), EnvError>(e),
    ensures
        env_decode_fields(s, kind, algo, flags) == Err::<EnvView, EnvError>(e),
{
}

/// A failure in the mandatory body decides the verdict.
proof fn lemma_fields_err4(
    s: Seq<u8>,
    kind: Kind,
    algo: Algo,
    flags: u16,
    th: Option<Seq<u8>>,
    k1: nat,
    fr: Option<Seq<u8>>,
    k2: nat,
    no: Option<Seq<u8>>,
    k3: nat,
    e: EnvError,
)
    requires
        parse_opt_fixed32(s, 41, flag_bit(flags, F_TOHASH)) == Ok::<(Option<Seq<u8>>, nat), EnvError>((th, k1)),
        parse_opt_fixed32(s, 41 + k1, flag_bit(flags, F_FROM)) == Ok::<(Option<Seq<u8>>, nat), EnvError>((fr, k2)),
        parse_opt_var_bytes(s, 41 + k1 + k2, flag_bit(flags, F_NONCE)) == Ok::<(Option<Seq<u8>>, nat), EnvError>((no, k3)),
        parse_var_bytes(s, 41 + k1 + k2 + k3) == Err::<(Seq<u8>, nat), EnvError>(e),
    ensures
        env_decode_fields(s, kind, algo, flags) == Err::<EnvView, EnvError>(e),
{
}

/// A failure in the aad field decides the verdict.
proof fn lemma_fields_err5(
    s: Seq<u8>,
    kind: Kind,
    algo: Algo,
    flags: u16,
    th: Option<Seq<u8>>,
    k1: nat,
    fr: Option<Seq<u8>>,
    k2: nat,
    no: Option<Seq<u8>>,
    k3: nat,
    body: Seq<u8>,
    k4: nat,
    e: EnvError,
)
    requires
        parse_opt_fixed32(s, 41, flag_bit(flags, F_TOHASH)) == Ok::<(Option<Seq<u8>>, nat), EnvError>((th, k1)),
        parse_opt_fixed32(s, 41 + k1, flag_bit(flags, F_FROM)) == Ok::<(Option<Seq<u8>>, nat), EnvError>((fr, k2)),
        parse_opt_var_bytes(s, 41 + k1 + k2, flag_bit(flags, F_NONCE)) == Ok::<(Option<Seq<u8>>, nat), EnvError>((no, k3)),
        parse_var_bytes(s, 41 + k1 + k2 + k3) == Ok::<(Seq<u8>, nat), EnvError>((body, k4)),
        parse_opt_var_bytes(s, 41 + k1 + k2 + k3 + k4, flag_bit(flags, F_AAD)) == Err::<(Option<Seq<u8>>, nat), EnvError>(e),
    ensures
        env_decode_fields(s, kind, algo, flags) == Err::<EnvView, EnvError>(e),
{
}

/// A failure in the sig field decides the verdict.
proof fn lemma_fields_err6(
    s: Seq<u8>,
    kind: Kind,
    algo: Algo,
    flags: u16,
    th: Option<Seq<u8>>,
    k1: nat,
    fr: Option<Seq<u8>>,
    k2: nat,
    no: Option<Seq<u8>>,
    k3: nat,
    body: Seq<u8>,
    k4: nat,
    aad: Option<Seq<u8>>,
    k5: nat,
    e: EnvError,
)
    requires
        parse_opt_fixed32(s, 41, flag_bit(flags, F_TOHASH)) == Ok::<(Option<Seq<u8>>, nat), EnvError>((th, k1)),
        parse_opt_fixed32(s, 41 + k1, flag_bit(flags, F_FROM)) == Ok::<(Option<Seq<u8>>, nat), EnvError>((fr, k2)),
        parse_opt_var_bytes(s, 41 + k1 + k2, flag_bit(flags, F_NONCE)) == Ok::<(Option<Seq<u8>>, nat), EnvError>((no, k3)),
        parse_var_bytes(s, 41 + k1 + k2 + k3) == Ok::<(Seq<u8>, nat), EnvError>((body, k4)),
        parse_opt_var_bytes(s, 41 + k1 + k2 + k3 + k4, flag_bit(flags, F_AAD)) == Ok::<(Option<Seq<u8>>, nat), EnvError>((aad, k5)),
        parse_opt_var_bytes(s, 41 + k1 + k2 + k3 + k4 + k5, flag_bit(flags, F_SIG)) == Err::<(Option<Seq<u8>>, nat), EnvError>(e),
    ensures
        env_decode_fields(s, kind, algo, flags) == Err::<EnvView, EnvError>(e),
{
}


/// Reads one flag-gated fixed 32-byte field at offset `o`.
fn read_opt_fixed32(buf: &[u8], o: usize, present: bool) -> (r: Result<
    (Option<[u8; 32]>, usize),
    EnvError,
>)
    requires
        o <= buf@.len(),
    ensures
        (r matches Ok(p) ==> parse_opt_fixed32(buf@, o as nat, present) == Ok::<
            (Option<Seq<u8>>, nat),
            EnvError,
        >((oview32(p.0), p.1 as nat)) && o + p.1 <= buf@.len()),
        (r matches Err(e) ==> parse_opt_fixed32(buf@, o as nat, present) == Err::<
            (Option<Seq<u8>>, nat),
            EnvError,
        >(e)),
{
    if !present {
        return Ok((None, 0));
    }
    let n = buf.len();
    if n - o < 32 {
        return Err(EnvError::TooShort);
    }
    let a = read_arr::<32>(buf, o);
    Ok((Some(a), 32))
}

/// Reads one flag-gated length-prefixed field at offset `o`.
fn read_opt_var_bytes(buf: &[u8], o: usize, present: bool) -> (r: Result<
    (Option<Vec<u8>>, usize),
    EnvError,
>)
    requires
        o <= buf@.len(),
    ensures
        (r matches Ok(p) ==> parse_opt_var_bytes(buf@, o as nat, present) == Ok::<
            (Option<Seq<u8>>, nat),
            EnvError,
        >((oviewv(p.0), p.1 as nat)) && o + p.1 <= buf@.len()),
        (r matches Err(e) ==> parse_opt_var_bytes(buf@, o as nat, present) == Err::<
            (Option<Seq<u8>>, nat),
            EnvError,
        >(e)),
{
    if !present {
        return Ok((None, 0));
    }
    match var_bytes_decode(buf, o) {
        Err(e) => Err(e),
        Ok((vb, k)) => Ok((Some(vb), k)),
    }
}

/// Reads the three leading flag-gated fields: `to_hash`, `from`, `nonce`.
/// Gives each field and the width it consumed.
#[verifier::spinoff_prover]
fn decode_opt_head(buf: &[u8], flags: u16) -> (r: Result<
    ((Option<[u8; 32]>, usize), (Option<[u8; 32]>, usize), (Option<Vec<u8>>, usize)),
    EnvError,
>)
    requires
        buf@.len() >= 41,
    ensures
        (r matches Ok(p) ==> {
            &&& parse_opt_fixed32(buf@, 41, flag_bit(flags, F_TOHASH)) == Ok::<
                (Option<Seq<u8>>, nat),
                EnvError,
            >((oview32(p.0.0), p.0.1 as nat))
            &&& parse_opt_fixed32(buf@, (41 + p.0.1) as nat, flag_bit(flags, F_FROM)) == Ok::<
                (Option<Seq<u8>>, nat),
                EnvError,
            >((oview32(p.1.0), p.1.1 as nat))
            &&& parse_opt_var_bytes(buf@, (41 + p.0.1 + p.1.1) as nat, flag_bit(flags, F_NONCE)) == Ok::<
                (Option<Seq<u8>>, nat),
                EnvError,
            >((oviewv(p.2.0), p.2.1 as nat))
            &&& 41 + p.0.1 + p.1.1 + p.2.1 <= buf@.len()
        }),
        (r matches Err(e) ==> forall|kind: Kind, algo: Algo|
            env_decode_fields(buf@, kind, algo, flags) == Err::<EnvView, EnvError>(e)),
{
    let ghost s = buf@;
    let n = buf.len();
    let mut o: usize = 41;

    let (to_hash, c1) = match read_opt_fixed32(buf, o, (flags & F_TOHASH) != 0) {
        Err(e) => {
            proof {
                assert forall|kind: Kind, algo: Algo|
                    env_decode_fields(s, kind, algo, flags) == Err::<EnvView, EnvError>(e) by {
                    lemma_fields_err1(s, kind, algo, flags, e);
                }
            }
            return Err(e);
        },
        Ok(p) => p,
    };
    o = o + c1;

    let (from, c2) = match read_opt_fixed32(buf, o, (flags & F_FROM) != 0) {
        Err(e) => {
            proof {
                assert forall|kind: Kind, algo: Algo|
                    env_decode_fields(s, kind, algo, flags) == Err::<EnvView, EnvError>(e) by {
                    lemma_fields_err2(s, kind, algo, flags, oview32(to_hash), c1 as nat, e);
                }
            }
            return Err(e);
        },
        Ok(p) => p,
    };
    o = o + c2;

    let (nonce, c3) = match read_opt_var_bytes(buf, o, (flags & F_NONCE) != 0) {
        Err(e) => {
            proof {
                assert forall|kind: Kind, algo: Algo|
                    env_decode_fields(s, kind, algo, flags) == Err::<EnvView, EnvError>(e) by {
                    lemma_fields_err3(
                        s,
                        kind,
                        algo,
                        flags,
                        oview32(to_hash),
                        c1 as nat,
                        oview32(from),
                        c2 as nat,
                        e,
                    );
                }
            }
            return Err(e);
        },
        Ok(p) => p,
    };

    Ok(((to_hash, c1), (from, c2), (nonce, c3)))
}

/// Parses the flag-gated fields after the fixed header and assembles the
/// envelope, demanding that the buffer end exactly after the last field.
#[verifier::rlimit(100)]
#[verifier::spinoff_prover]
fn decode_tail(buf: &[u8], v: u8, kind: Kind, algo: Algo, id: [u8; 32], flags: u16) -> (r: Result<
    Env,
    EnvError,
>)
    requires
        buf@.len() >= 41,
        v == 1,
        id@ == buf@.subrange(9, 41),
    ensures
        (r matches Ok(e) ==> env_decode_fields(buf@, kind, algo, flags) == Ok::<EnvView, EnvError>(
            e@,
        )),
        (r matches Err(er) ==> env_decode_fields(buf@, kind, algo, flags) == Err::<
            EnvView,
            EnvError,
        >(er)),
{
    let ghost s = buf@;
    let n = buf.len();

    let ((to_hash, c1), (from, c2), (nonce, c3)) = match decode_opt_head(buf, flags) {
        Err(e) => {
            return Err(e);
        },
        Ok(p) => p,
    };
    let ghost k1 = c1 as nat;
    let ghost k2 = c2 as nat;
    let ghost k3 = c3 as nat;
    let mut o: usize = 41 + c1 + c2 + c3;

    let (body, c4) = match var_bytes_decode(buf, o) {
        Err(e) => {
            proof {
                lemma_fields_err4(
                    s,
                    kind,
                    algo,
                    flags,
                    oview32(to_hash),
                    k1,
                    oview32(from),
                    k2,
                    oviewv(nonce),
                    k3,
                    e,
                );
            }
            return Err(e);
        },
        Ok(p) => p,
    };
    o = o + c4;
    let ghost k4 = c4 as nat;

    let (aad, c5) = match read_opt_var_bytes(buf, o, (flags & F_AAD) != 0) {
        Err(e) => {
            proof {
                lemma_fields_err5(
                    s,
                    kind,
                    algo,
                    flags,
                    oview32(to_hash),
                    k1,
                    oview32(from),
                    k2,
                    oviewv(nonce),
                    k3,
                    body@,
                    k4,
                    e,
                );
            }
            return Err(e);
        },
        Ok(p) => p,
    };
    o = o + c5;
    let ghost k5 = c5 as nat;

    let (sig, c6) = match read_opt_var_bytes(buf, o, (flags & F_SIG) != 0) {
        Err(e) => {
            proof {
                lemma_fields_err6(
                    s,
                    kind,
                    algo,
                    flags,
                    oview32(to_hash),
                    k1,
                    oview32(from),
                    k2,
                    oviewv(nonce),
                    k3,
                    body@,
                    k4,
                    oviewv(aad),
                    k5,
                    e,
                );
            }
            return Err(e);
        },
        Ok(p) => p,
    };
    o = o + c6;
    let ghost k6 = c6 as nat;

    proof {
        lemma_fields_ok(
            s,
            kind,
            algo,
            flags,
            oview32(to_hash),
            k1,
            oview32(from),
            k2,
            oviewv(nonce),
            k3,
            body@,
            k4,
            oviewv(aad),
            k5,
            oviewv(sig),
            k6,
        );
    }

    if o != n {
        return Err(EnvError::TrailingBytes);
    }

    let e = Env { v, kind, algo, id, to_hash, from, nonce, body, aad, sig };
    proof {
        assert(env_decode_fields(s, kind, algo, flags) == Ok::<EnvView, EnvError>(e@));
    }
    Ok(e)
}

/// Decodes a byte buffer into the envelope it spells, or reports the first
/// reason it cannot: short buffer, wrong magic or version, unassigned
/// codes, truncated or oversized length prefixes, a field running past the
/// end, or trailing bytes after the last flagged field.
pub fn decode(buf: &[u8]) -> (r: Result<Env, EnvError>)
    ensures
        (r matches Ok(e) ==> env_decode(buf@) == Ok::<EnvView, EnvError>(e@)),
        (r matches Err(er) ==> env_decode(buf@) == Err::<EnvView, EnvError>(er)),
{
    let ghost s = buf@;
    let n = buf.len();
    if n < 41 {
        return Err(EnvError::TooShort);
    }
    let magic_ok = buf[0] == 0x53 && buf[1] == 0x54 && buf[2] == 0x59 && buf[3] == 0x58;
    if !magic_ok {
        proof {
            assert(s.subrange(0, 4) != magic()) by {
                if s.subrange(0, 4) == magic() {
                    assert(s.subrange(0, 4)[0] == s[0]);
                    assert(s.subrange(0, 4)[1] == s[1]);
                    assert(s.subrange(0, 4)[2] == s[2]);
                    assert(s.subrange(0, 4)[3] == s[3]);
                }
            }
        }
        return Err(EnvError::BadMagic);
    }
    proof {
        assert(s.subrange(0, 4) =~= magic());
    }
    let v = buf[4];
    if v != 1 {
        return Err(EnvError::UnsupportedVersion);
    }
    let kind = match kind_from_code(buf[5]) {
        Some(k) => k,
        None => {
            return Err(EnvError::UnknownKind);
        },
    };
    let flags = read_u16le(buf, 6);
    let algo = match algo_from_code(buf[8]) {
        Some(a) => a,
        None => {
            return Err(EnvError::UnknownAlgo);
        },
    };
    let id = read_arr::<32>(buf, 9);
    proof {
        assert(env_decode(s) == env_decode_fields(s, kind, algo, flags));
    }
    decode_tail(buf, v, kind, algo, id, flags)
}

} // verus!

verus! {

/// Every wire code maps back to the kind or algorithm it encodes.
proof fn lemma_codes_round_trip(k: Kind, a: Algo)
    ensures
        kind_from_code_spec(kind_code_spec(k)) == Some(k),
        algo_from_code_spec(algo_code_spec(a)) == Some(a),
{
    match k {
        Kind::Message => {},
        Kind::Reveal => {},
        Kind::Keybundle => {},
    }
}

/// Where each piece of an encoded envelope lies in the byte stream, with
/// any suffix appended: the header fields at their fixed offsets, and each
/// optional segment at the running sum of the segment lengths before it.
#[verifier::rlimit(100)]
#[verifier::spinoff_prover]
proof fn lemma_env_bytes_segments(e: EnvView, extra: Seq<u8>)
    requires
        env_wf(e),
    ensures
        ({
            let s = env_bytes(e) + extra;
            let f1 = opt32_bytes(e.to_hash);
            let f2 = opt32_bytes(e.from);
            let f3 = opt_var_bytes(e.nonce);
            let f4 = spec_var_bytes(e.body);
            let f5 = opt_var_bytes(e.aad);
            let f6 = opt_var_bytes(e.sig);
            let p1 = 41int;
            let p2 = p1 + f1.len();
            let p3 = p2 + f2.len();
            let p4 = p3 + f3.len();
            let p5 = p4 + f4.len();
            let p6 = p5 + f5.len();
            let p7 = p6 + f6.len();
            &&& s.len() == p7 + extra.len()
            &&& s.subrange(0, 4) == magic()
            &&& s[4] == e.v
            &&& s[5] == kind_code_spec(e.kind)
            &&& s.subrange(6, 8) == spec_u16_to_le_bytes(spec_flags(e))
            &&& s[8] == algo_code_spec(e.algo)
            &&& s.subrange(9, 41) == e.id
            &&& s.subrange(p1, p2) == f1
            &&& s.subrange(p2, p3) == f2
            &&& s.subrange(p3, p4) == f3
            &&& s.subrange(p4, p5) == f4
            &&& s.subrange(p5, p6) == f5
            &&& s.subrange(p6, p7) == f6
        }),
{
    lemma_auto_spec_u16_to_from_le_bytes();
    let flags = spec_flags(e);
    let fb = spec_u16_to_le_bytes(flags);
    let h = env_header(e);
    let hh1 = magic() + seq![e.v, kind_code_spec(e.kind)];
    let hh2 = hh1 + fb;
    let hh3 = hh2 + seq![algo_code_spec(e.algo)];
    assert(h == hh3 + e.id);
    assert(fb.len() == 2);
    assert(h.len() == 41);

    let f1 = opt32_bytes(e.to_hash);
    let f2 = opt32_bytes(e.from);
    let f3 = opt_var_bytes(e.nonce);
    let f4 = spec_var_bytes(e.body);
    let f5 = opt_var_bytes(e.aad);
    let f6 = opt_var_bytes(e.sig);
    let c1 = h + f1;
    let c2 = c1 + f2;
    let c3 = c2 + f3;
    let c4 = c3 + f4;
    let c5 = c4 + f5;
    let c6 = c5 + f6;
    assert(env_bytes(e) == c6);
    let s = env_bytes(e) + extra;
    let p1 = 41int;
    let p2 = p1 + f1.len();
    let p3 = p2 + f2.len();
    let p4 = p3 + f3.len();
    let p5 = p4 + f4.len();
    let p6 = p5 + f5.len();
    let p7 = p6 + f6.len();
    assert(s.len() == p7 + extra.len());

    assert forall|i: int| 0 <= i < 41 implies s[i] == h[i] by {
        assert(s[i] == c6[i]);
        assert(c6[i] == c5[i]);
        assert(c5[i] == c4[i]);
        assert(c4[i] == c3[i]);
        assert(c3[i] == c2[i]);
        assert(c2[i] == c1[i]);
        assert(c1[i] == h[i]);
    }
    assert(s.subrange(0, 4) =~= magic()) by {
        assert(forall|i: int| 0 <= i < 4 ==> h[i] == magic()[i]);
    }
    assert(h[4] == e.v && h[5] == kind_code_spec(e.kind));
    assert(s.subrange(6, 8) =~= fb) by {
        assert(forall|i: int| 0 <= i < 2 ==> h[6 + i] == fb[i]);
    }
    assert(h[8] == algo_code_spec(e.algo));
    assert(s.subrange(9, 41) =~= e.id) by {
        assert(forall|i: int| 0 <= i < 32 ==> h[9 + i] == e.id[i]);
    }

    assert forall|i: int| p1 <= i < p2 implies s[i] == f1[i - p1] by {
        assert(s[i] == c6[i]);
        assert(c6[i] == c5[i]);
        assert(c5[i] == c4[i]);
        assert(c4[i] == c3[i]);
        assert(c3[i] == c2[i]);
        assert(c2[i] == c1[i]);
        assert(c1[i] == f1[i - p1]);
    }
    assert(s.subrange(p1, p2) =~= f1);
    assert forall|i: int| p2 <= i < p3 implies s[i] == f2[i - p2] by {
        assert(s[i] == c6[i]);
        assert(c6[i] == c5[i]);
        assert(c5[i] == c4[i]);
        assert(c4[i] == c3[i]);
        assert(c3[i] == c2[i]);
        assert(c2[i] == f2[i - p2]);
    }
    assert(s.subrange(p2, p3) =~= f2);
    assert forall|i: int| p3 <= i < p4 implies s[i] == f3[i - p3] by {
        assert(s[i] == c6[i]);
        assert(c6[i] == c5[i]);
        assert(c5[i] == c4[i]);
        assert(c4[i] == c3[i]);
        assert(c3[i] == f3[i - p3]);
    }
    assert(s.subrange(p3, p4) =~= f3);
    assert forall|i: int| p4 <= i < p5 implies s[i] == f4[i - p4] by {
        assert(s[i] == c6[i]);
        assert(c6[i] == c5[i]);
        assert(c5[i] == c4[i]);
        assert(c4[i] == f4[i - p4]);
    }
    assert(s.subrange(p4, p5) =~= f4);
    assert forall|i: int| p5 <= i < p6 implies s[i] == f5[i - p5] by {
        assert(s[i] == c6[i]);
        assert(c6[i] == c5[i]);
        assert(c5[i] == f5[i - p5]);
    }
    assert(s.subrange(p5, p6) =~= f5);
    assert forall|i: int| p6 <= i < p7 implies s[i] == f6[i - p6] by {
        assert(s[i] == c6[i]);
        assert(c6[i] == f6[i - p6]);
    }
    assert(s.subrange(p6, p7) =~= f6);
}

/// Decoding the encoding of a well-formed envelope, with any suffix
/// appended, recovers exactly the envelope when the suffix is empty and
/// fails on trailing bytes otherwise.
#[verifier::rlimit(100)]
#[verifier::spinoff_prover]
proof fn lemma_env_decode_of_encoding(e: EnvView, extra: Seq<u8>)
    requires
        env_wf(e),
        e.v == 1,
    ensures
        extra.len() == 0 ==> env_decode(env_bytes(e) + extra) == Ok::<EnvView, EnvError>(e),
        extra.len() > 0 ==> env_decode(env_bytes(e) + extra) == Err::<EnvView, EnvError>(
            EnvError::TrailingBytes,
        ),
{
    lemma_auto_spec_u16_to_from_le_bytes();
    lemma_env_bytes_segments(e, extra);
    let flags = spec_flags(e);
    let s = env_bytes(e) + extra;
    let f1 = opt32_bytes(e.to_hash);
    let f2 = opt32_bytes(e.from);
    let f3 = opt_var_bytes(e.nonce);
    let f4 = spec_var_bytes(e.body);
    let f5 = opt_var_bytes(e.aad);
    let f6 = opt_var_bytes(e.sig);
    let p1 = 41int;
    let p2 = p1 + f1.len();
    let p3 = p2 + f2.len();
    let p4 = p3 + f3.len();
    let p5 = p4 + f4.len();
    let p6 = p5 + f5.len();
    let p7 = p6 + f6.len();

    lemma_codes_round_trip(e.kind, e.algo);
    assert(spec_u16_from_le_bytes(s.subrange(6, 8)) == flags);
    assert(env_decode(s) == env_decode_fields(s, e.kind, e.algo, flags));
    lemma_flags5_bits(
        e.to_hash is Some,
        e.from is Some,
        e.nonce is Some,
        e.aad is Some,
        e.sig is Some,
    );

    assert(parse_opt_fixed32(s, 41, flag_bit(flags, F_TOHASH)) == Ok::<
        (Option<Seq<u8>>, nat),
        EnvError,
    >((e.to_hash, f1.len()))) by {
        match e.to_hash {
            Some(b) => {
                assert(s.subrange(p1, p1 + 32) == b);
            },
            None => {},
        }
    }
    assert(parse_opt_fixed32(s, (41 + f1.len()) as nat, flag_bit(flags, F_FROM)) == Ok::<
        (Option<Seq<u8>>, nat),
        EnvError,
    >((e.from, f2.len()))) by {
        match e.from {
            Some(b) => {
                assert(s.subrange(p2, p2 + 32) == b);
            },
            None => {},
        }
    }
    assert(parse_opt_var_bytes(s, (41 + f1.len() + f2.len()) as nat, flag_bit(flags, F_NONCE))
        == Ok::<(Option<Seq<u8>>, nat), EnvError>((e.nonce, f3.len()))) by {
        match e.nonce {
            Some(b) => {
                assert(s.subrange(p3, p3 + spec_var_bytes(b).len() as int) == spec_var_bytes(b));
                lemma_parse_var_bytes_of_encoding(s, p3 as nat, b);
            },
            None => {},
        }
    }
    assert(parse_var_bytes(s, (41 + f1.len() + f2.len() + f3.len()) as nat) == Ok::<
        (Seq<u8>, nat),
        EnvError,
    >((e.body, f4.len()))) by {
        assert(s.subrange(p4, p4 + f4.len() as int) == f4);
        lemma_parse_var_bytes_of_encoding(s, p4 as nat, e.body);
    }
    assert(parse_opt_var_bytes(
        s,
        (41 + f1.len() + f2.len() + f3.len() + f4.len()) as nat,
        flag_bit(flags, F_AAD),
    ) == Ok::<(Option<Seq<u8>>, nat), EnvError>((e.aad, f5.len()))) by {
        match e.aad {
            Some(b) => {
                assert(s.subrange(p5, p5 + spec_var_bytes(b).len() as int) == spec_var_bytes(b));
                lemma_parse_var_bytes_of_encoding(s, p5 as nat, b);
            },
            None => {},
        }
    }
    assert(parse_opt_var_bytes(
        s,
        (41 + f1.len() + f2.len() + f3.len() + f4.len() + f5.len()) as nat,
        flag_bit(flags, F_SIG),
    ) == Ok::<(Option<Seq<u8>>, nat), EnvError>((e.sig, f6.len()))) by {
        match e.sig {
            Some(b) => {
                assert(s.subrange(p6, p6 + spec_var_bytes(b).len() as int) == spec_var_bytes(b));
                lemma_parse_var_bytes_of_encoding(s, p6 as nat, b);
            },
            None => {},
        }
    }

    lemma_fields_ok(
        s,
        e.kind,
        e.algo,
        flags,
        e.to_hash,
        f1.len(),
        e.from,
        f2.len(),
        e.nonce,
        f3.len(),
        e.body,
        f4.len(),
        e.aad,
        f5.len(),
        e.sig,
        f6.len(),
    );
    if extra.len() == 0 {
        assert(41 + f1.len() + f2.len() + f3.len() + f4.len() + f5.len() + f6.len() == s.len());
        let d = EnvView {
            v: 1,
            kind: e.kind,
            algo: e.algo,
            id: s.subrange(9, 41),
            to_hash: e.to_hash,
            from: e.from,
            nonce: e.nonce,
            body: e.body,
            aad: e.aad,
            sig: e.sig,
        };
        assert(env_decode_fields(s, e.kind, e.algo, flags) == Ok::<EnvView, EnvError>(d));
        assert(d == e);
    } else {
        assert(41 + f1.len() + f2.len() + f3.len() + f4.len() + f5.len() + f6.len() != s.len());
    }
}

/// Round trip: decoding the encoding of any well-formed version-1 envelope
/// yields that envelope back, exactly.
pub proof fn lemma_encode_decode_round_trip(e: EnvView)
    requires
        env_wf(e),
        e.v == 1,
    ensures
        env_decode(env_bytes(e)) == Ok::<EnvView, EnvError>(e),
{
    lemma_env_decode_of_encoding(e, Seq::empty());
    assert(env_bytes(e) + Seq::<u8>::empty() =~= env_bytes(e));
}

/// Self-terminating: appending any nonempty suffix to an encoded envelope
/// makes decoding fail with a trailing-bytes error.
pub proof fn lemma_decode_rejects_trailing_bytes(e: EnvView, extra: Seq<u8>)
    requires
        env_wf(e),
        e.v == 1,
        extra.len() > 0,
    ensures
        env_decode(env_bytes(e) + extra) == Err::<EnvView, EnvError>(EnvError::TrailingBytes),
{
    lemma_env_decode_of_encoding(e, extra);
}

/// A buffer that does not open with the magic tag never decodes.
pub proof fn lemma_decode_rejects_bad_magic(s: Seq<u8>)
    requires
        s.len() >= 4 ==> s.subrange(0, 4) != magic(),
    ensures
        env_decode(s) is Err,
{
}

/// A buffer whose version byte is not 1 never decodes.
pub proof fn lemma_decode_rejects_bad_version(s: Seq<u8>)
    requires
        s.len() >= 5,
        s[4] != 1,
    ensures
        env_decode(s) is Err,
{
}

} // verus!

verus! {

/// A parsed length-prefixed field always has a decodable length: what the
/// five-digit prefix can spell fits back into a prefix the decoder accepts.
proof fn lemma_parse_var_bytes_len(s: Seq<u8>, o: nat)
    ensures
        parse_var_bytes(s, o) matches Ok(p) ==> uleb_decodable(p.0.len()),
{
    lemma_parse_uleb_bound(s, o, 5);
    assert(pow2(35) == 0x8_0000_0000) by {
        lemma2_to64();
        lemma2_to64_rest();
    }
    assert(7 * 5 == 35nat);
}

/// Every envelope the decoder accepts is well-formed and carries version 1,
/// so re-encoding it is always possible and, by the round trip, decodes
/// back to it.
pub proof fn lemma_decoded_env_is_well_formed(s: Seq<u8>)
    ensures
        env_decode(s) matches Ok(e) ==> env_wf(e) && e.v == 1,
{
    if s.len() >= 41 && s.subrange(0, 4) == magic() && s[4] == 1 {
        if let Some(kind) = kind_from_code_spec(s[5]) {
            if let Some(algo) = algo_from_code_spec(s[8]) {
                let flags = spec_u16_from_le_bytes(s.subrange(6, 8));
                match parse_opt_fixed32(s, 41, flag_bit(flags, F_TOHASH)) {
                    Err(_) => {},
                    Ok((th, k1)) => match parse_opt_fixed32(s, 41 + k1, flag_bit(flags, F_FROM)) {
                        Err(_) => {},
                        Ok((fr, k2)) => match parse_opt_var_bytes(
                            s,
                            41 + k1 + k2,
                            flag_bit(flags, F_NONCE),
                        ) {
                            Err(_) => {},
                            Ok((no, k3)) => {
                                lemma_parse_var_bytes_len(s, 41 + k1 + k2);
                                match parse_var_bytes(s, 41 + k1 + k2 + k3) {
                                    Err(_) => {},
                                    Ok((body, k4)) => {
                                        lemma_parse_var_bytes_len(s, 41 + k1 + k2 + k3);
                                        match parse_opt_var_bytes(
                                            s,
                                            41 + k1 + k2 + k3 + k4,
                                            flag_bit(flags, F_AAD),
                                        ) {
                                            Err(_) => {},
                                            Ok((aad, k5)) => {
                                                lemma_parse_var_bytes_len(s, 41 + k1 + k2 + k3 + k4);
                                                lemma_parse_var_bytes_len(
                                                    s,
                                                    41 + k1 + k2 + k3 + k4 + k5,
                                                );
                                            },
                                        }
                                    },
                                }
                            },
                        },
                    },
                }
            }
        }
    }
}

} // verus!
