//! Small byte-buffer helpers shared by the codec and the key-derivation
//! transforms: byte-wise XOR, slice-to-vector plumbing, and fixed-size reads.

use vstd::prelude::*;

verus! {

/// Byte-wise XOR of `a` against the keystream `k`, truncated to `a`'s length.
pub open spec fn xor_seq(a: Seq<u8>, k: Seq<u8>) -> Seq<u8> {
    Seq::new(a.len(), |i: int| a[i] ^ k[i])
}

/// XOR with the same keystream is an involution: applying it twice
/// recovers the original bytes.
pub proof fn lemma_xor_involutive(a: Seq<u8>, k: Seq<u8>)
    ensures
        xor_seq(xor_seq(a, k), k) == a,
{
    assert forall|i: int| 0 <= i < a.len() implies xor_seq(xor_seq(a, k), k)[i] == a[i] by {
        let x = a[i];
        let y = k[i];
        assert((x ^ y) ^ y == x) by (bit_vector);
    }
    assert(xor_seq(xor_seq(a, k), k) =~= a);
}

/// Appends every byte of `s` to `out`, in order.
pub fn push_slice(out: &mut Vec<u8>, s: &[u8])
    ensures
        final(out)@ == old(out)@ + s@,
{
    let mut i: usize = 0;
    while i < s.len()
        invariant
            i <= s@.len(),
            out@ == old(out)@ + s@.subrange(0, i as int),
        decreases s@.len() - i,
    {
        out.push(s[i]);
        assert(out@ =~= old(out)@ + s@.subrange(0, i + 1 as int));
        i = i + 1;
    }
    assert(out@ =~= old(out)@ + s@);
}

/// Copies the `N` bytes of `buf` starting at `o` into a fresh array.
pub fn read_arr<const N: usize>(buf: &[u8], o: usize) -> (r: [u8; N])
    requires
        o + N <= buf@.len(),
    ensures
        r@ == buf@.subrange(o as int, o as int + N as int),
{
    let n = buf.len();
    let mut r = [0u8; N];
    let mut i: usize = 0;
    while i < N
        invariant
            i <= N,
            o + N <= n == buf@.len(),
            r@.len() == N,
            forall|j: int| 0 <= j < i ==> r@[j] == buf@[o + j],
        decreases N - i,
    {
        r[i] = buf[o + i];
        i = i + 1;
    }
    assert(r@ =~= buf@.subrange(o as int, o as int + N as int));
    r
}

/// XOR of two 32-byte blocks, element by element.
pub fn xor_arr32(a: &[u8; 32], k: &[u8; 32]) -> (r: [u8; 32])
    ensures
        r@ == xor_seq(a@, k@),
{
    let mut r = [0u8; 32];
    let mut i: usize = 0;
    while i < 32
        invariant
            i <= 32,
            r@.len() == 32,
            forall|j: int| 0 <= j < i ==> r@[j] == (a@[j] ^ k@[j]),
        decreases 32 - i,
    {
        r[i] = a[i] ^ k[i];
        i = i + 1;
    }
    assert(r@ =~= xor_seq(a@, k@));
    r
}

/// Whether two 32-byte blocks hold the same bytes.
pub fn eq_arr32(a: &[u8; 32], b: &[u8; 32]) -> (r: bool)
    ensures
        r == (a@ == b@),
{
    let mut i: usize = 0;
    while i < 32
        invariant
            i <= 32,
            forall|j: int| 0 <= j < i ==> a@[j] == b@[j],
        decreases 32 - i,
    {
        if a[i] != b[i] {
            return false;
        }
        i = i + 1;
    }
    proof {
        assert(a@ =~= b@);
    }
    true
}

} // verus!
