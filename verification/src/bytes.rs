//! Byte sequences: combining with a keystream, and filling buffers.

use vstd::prelude::*;
use crate::error::CipherError;

verus! {

/// Each byte of `data` combined by exclusive or with the byte of `pad` at the
/// same place. The result is as long as `data`.
pub open spec fn xor_bytes(data: Seq<u8>, pad: Seq<u8>) -> Seq<u8> {
    Seq::new(data.len(), |i: int| data[i] ^ pad[i])
}

/// What a buffer holds once `bytes` have been written at its start: `bytes`,
/// then what the buffer held behind them.
pub open spec fn overwritten(buffer: Seq<u8>, bytes: Seq<u8>) -> Seq<u8> {
    bytes + buffer.skip(bytes.len() as int)
}

/// The outcome of an operation that returns bytes, with the bytes as a
/// sequence.
pub open spec fn bytes_of(r: Result<Vec<u8>, CipherError>) -> Result<Seq<u8>, CipherError> {
    match r {
        Ok(v) => Ok(v@),
        Err(e) => Err(e),
    }
}

/// How the outcome of an operation that writes into the caller's buffer shows
/// in what the call returns and in the buffer. On success the bytes stand at
/// the start of the buffer, their number is returned, and the rest of the
/// buffer is as it was. On failure the whole buffer is as it was.
pub open spec fn delivered(
    outcome: Result<Seq<u8>, CipherError>,
    r: Result<usize, CipherError>,
    before: Seq<u8>,
    after: Seq<u8>,
) -> bool {
    match outcome {
        Ok(bytes) => r matches Ok(n) && n == bytes.len() && after == overwritten(before, bytes),
        Err(e) => r matches Err(f) && f == e && after == before,
    }
}

/// Combining twice with the same pad gives the data back.
pub proof fn lemma_xor_bytes_twice(data: Seq<u8>, pad: Seq<u8>)
    ensures
        xor_bytes(xor_bytes(data, pad), pad) == data,
{
    assert forall|i: int| 0 <= i < data.len() implies xor_bytes(xor_bytes(data, pad), pad)[i]
        == data[i] by {
        let a: u8 = data[i];
        let b: u8 = pad[i];
        assert((a ^ b) ^ b == a) by (bit_vector);
    }
}

/// Appends the first `n` bytes of `src` to `out`.
pub fn append_prefix(out: &mut Vec<u8>, src: &[u8], n: usize)
    requires
        n <= src@.len(),
    ensures
        final(out)@ == old(out)@ + src@.take(n as int),
{
    let mut i: usize = 0;
    while i < n
        invariant
            i <= n <= src@.len(),
            out@ == old(out)@ + src@.take(i as int),
        decreases n - i,
    {
        out.push(src[i]);
        i += 1;
    }
}

/// Writes `src` into `dst` from index `at` on and leaves the rest of `dst` as
/// it was.
pub fn write_at(dst: &mut [u8], at: usize, src: &[u8])
    requires
        at + src@.len() <= old(dst)@.len(),
    ensures
        final(dst)@ == old(dst)@.take(at as int) + src@ + old(dst)@.skip(at + src@.len()),
{
    let n: usize = src.len();
    let total: usize = dst.len();
    let mut i: usize = 0;
    while i < n
        invariant
            i <= n,
            n == src@.len(),
            total == dst@.len(),
            total == old(dst)@.len(),
            at + n <= total,
            forall|j: int| 0 <= j < at ==> dst@[j] == old(dst)@[j],
            forall|j: int| 0 <= j < i ==> dst@[at + j] == src@[j],
            forall|j: int| at + i <= j < total ==> dst@[j] == old(dst)@[j],
        decreases n - i,
    {
        dst[at + i] = src[i];
        i += 1;
    }
}

} // verus!
