//! Fixed-width byte fields: cutting them out of a buffer, appending them to one, and
//! comparing them without an early exit.

use vstd::prelude::*;

verus! {

/// Cuts the `N` bytes that start at `start` out of `b`.
pub fn take<const N: usize>(b: &[u8], start: usize) -> (out: [u8; N])
    requires
        start + N <= b@.len(),
    ensures
        out@ == b@.subrange(start as int, start + N),
{
    let total: usize = b.len();
    let mut out: [u8; N] = [0u8; N];
    let mut i: usize = 0;
    while i < N
        invariant
            i <= N,
            start + N <= b@.len(),
            b@.len() == total,
            out@.len() == N,
            forall|j: int| 0 <= j < i ==> out@[j] == b@[start + j],
        decreases N - i,
    {
        out[i] = b[start + i];
        i = i + 1;
    }
    assert(out@ =~= b@.subrange(start as int, start + N));
    out
}

/// Appends the bytes of `field` to `buffer`.
pub fn append(buffer: &mut Vec<u8>, field: &[u8])
    ensures
        final(buffer)@ == old(buffer)@ + field@,
{
    let n: usize = field.len();
    let mut i: usize = 0;
    while i < n
        invariant
            i <= n,
            n == field@.len(),
            buffer@ == old(buffer)@ + field@.subrange(0, i as int),
        decreases n - i,
    {
        buffer.push(field[i]);
        i = i + 1;
        assert(buffer@ =~= old(buffer)@ + field@.subrange(0, i as int));
    }
    assert(field@.subrange(0, n as int) =~= field@);
}

/// Tells whether two fields hold the same bytes. Every byte of both is read whatever
/// the outcome, so the running time does not show where they first differ.
pub fn ct_eq<const N: usize>(a: &[u8; N], b: &[u8; N]) -> (same: bool)
    ensures
        same == (a@ == b@),
{
    let mut diff: u8 = 0;
    let mut i: usize = 0;
    while i < N
        invariant
            i <= N,
            a@.len() == N,
            b@.len() == N,
            (diff == 0) == (forall|j: int| 0 <= j < i ==> a@[j] == b@[j]),
        decreases N - i,
    {
        let x: u8 = a[i];
        let y: u8 = b[i];
        let ghost before: u8 = diff;
        diff = diff | (x ^ y);
        assert((before | (x ^ y)) == 0 <==> (before == 0 && x == y)) by (bit_vector);
        i = i + 1;
    }
    assert((a@ =~= b@) == (forall|j: int| 0 <= j < N ==> a@[j] == b@[j]));
    diff == 0
}

} // verus!
