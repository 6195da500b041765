//! The masking unit: a four byte key, repeated without end, is combined by
//! exclusive-or with a run of payload bytes.

use vstd::prelude::*;

verus! {

/// `data` with each byte combined with the key byte of its position, where the
/// first byte of `data` stands at position `start` of the frame's payload.
pub open spec fn masked(data: Seq<u8>, key: Seq<u8>, start: nat) -> Seq<u8>
    recommends
        key.len() == 4,
{
    Seq::new(data.len(), |i: int| data[i] ^ key[(start + i) % 4])
}

/// Masking twice with the same key and position gives the bytes back.
pub proof fn lemma_mask_involution(data: Seq<u8>, key: Seq<u8>, start: nat)
    ensures
        masked(masked(data, key, start), key, start) == data,
{
    let twice = masked(masked(data, key, start), key, start);
    assert forall|i: int| 0 <= i < data.len() implies twice[i] == data[i] by {
        let a: u8 = data[i];
        let k: u8 = key[(start + i) % 4];
        assert((a ^ k) ^ k == a) by (bit_vector);
    }
    assert(twice =~= data);
}

/// Masking a payload piece by piece, each piece at the position where it
/// stands, gives what masking the whole payload at once gives.
pub proof fn lemma_mask_split(head: Seq<u8>, tail: Seq<u8>, key: Seq<u8>, start: nat)
    ensures
        masked(head + tail, key, start) == masked(head, key, start) + masked(
            tail,
            key,
            start + head.len(),
        ),
{
    let whole = masked(head + tail, key, start);
    let parts = masked(head, key, start) + masked(tail, key, start + head.len());
    assert forall|i: int| 0 <= i < whole.len() implies whole[i] == parts[i] by {
        if i >= head.len() {
            assert((head + tail)[i] == tail[i - head.len()]);
            assert((start + i) % 4 == (start + head.len() + (i - head.len())) % 4);
        }
    }
    assert(whole =~= parts);
}

/// Combines each byte of `buffer` with `key[(start_offset + i) % 4]` by
/// exclusive-or, in place. Masking and unmasking are this one operation.
pub fn apply(buffer: &mut Vec<u8>, key: [u8; 4], start_offset: u64)
    ensures
        final(buffer)@ == masked(old(buffer)@, key@, start_offset as nat),
{
    let n: usize = buffer.len();
    let base: usize = (start_offset % 4) as usize;
    let mut i: usize = 0;
    while i < n
        invariant
            n == buffer@.len(),
            n == old(buffer)@.len(),
            base == start_offset % 4,
            i <= n,
            forall|j: int| 0 <= j < i ==> buffer@[j] == old(buffer)@[j] ^ key@[(start_offset + j) % 4],
            forall|j: int| i <= j < n ==> buffer@[j] == old(buffer)@[j],
        decreases n - i,
    {
        let k: u8 = key[(base + i % 4) % 4];
        let b: u8 = buffer[i];
        buffer[i] = b ^ k;
        i += 1;
    }
    assert(buffer@ =~= masked(old(buffer)@, key@, start_offset as nat));
}

} // verus!
