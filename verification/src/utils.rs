//! Small helpers over the byte source.

use crate::buffer::ByteSource;
use vstd::prelude::*;

verus! {

/// The smaller of two lengths.
pub open spec fn min2(a: nat, b: nat) -> nat {
    if a <= b {
        a
    } else {
        b
    }
}

/// Takes exactly `N` bytes from the stream, or nothing where fewer are
/// buffered.
pub fn read_buf<const N: usize>(stream: &mut ByteSource) -> (r: Option<[u8; N]>)
    ensures
        old(stream)@.len() < N ==> r is None && final(stream)@ == old(stream)@,
        old(stream)@.len() >= N ==> r is Some && r.unwrap()@ == old(stream)@.subrange(0, N as int)
            && final(stream)@ == old(stream)@.subrange(N as int, old(stream)@.len() as int),
{
    if stream.available() < N {
        return None;
    }
    let mut buf: [u8; N] = [0u8; N];
    let bytes: &[u8] = stream.buffer();
    let mut i: usize = 0;
    while i < N
        invariant
            i <= N,
            N <= bytes@.len(),
            buf@.len() == N,
            forall|j: int| 0 <= j < i ==> buf@[j] == bytes@[j],
        decreases N - i,
    {
        buf[i] = bytes[i];
        i += 1;
    }
    assert(buf@ =~= old(stream)@.subrange(0, N as int));
    stream.consume(N);
    Some(buf)
}

/// Hands up to `len` buffered bytes to `cb`, consumes them whatever `cb`
/// makes of them, and gives back what `cb` gave.
pub fn read_bytes<F>(stream: &mut ByteSource, len: usize, cb: F) -> (count: usize) where
    F: FnOnce(&[u8]) -> usize,

    requires
        forall|bytes: &[u8]| cb.requires((bytes,)),
    ensures
        exists|bytes: &[u8]|
            bytes@ == old(stream)@.subrange(0, min2(len as nat, old(stream)@.len()) as int)
                && cb.ensures((bytes,), count),
        final(stream)@ == old(stream)@.subrange(
            min2(len as nat, old(stream)@.len()) as int,
            old(stream)@.len() as int,
        ),
{
    let amt: usize = if stream.available() < len { stream.available() } else { len };
    let bytes: &[u8] = vstd::slice::slice_subrange(stream.buffer(), 0, amt);
    let count: usize = cb(bytes);
    stream.consume(amt);
    count
}

} // verus!
