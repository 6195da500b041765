//! The reader over the payload of one frame: it knows how many bytes of the
//! frame are still unread and where in the mask cycle the next byte stands.

use crate::buffer::ByteSource;
use crate::header::FrameHeader;
use crate::mask::{lemma_mask_split, masked};
use crate::proto::{DataType, Error};
use vstd::prelude::*;

verus! {

/// The unread payload of the current data frame.
#[derive(Debug)]
pub struct Data {
    ty: DataType,
    fin: bool,
    len: u64,
    mask: Option<[u8; 4]>,
    phase: u8,
}

/// A reader as a mathematical value. `phase` is the number of payload bytes
/// of the frame that were read so far, modulo four.
pub struct DataView {
    pub ty: DataType,
    pub fin: bool,
    pub remaining: nat,
    pub mask: Option<Seq<u8>>,
    pub phase: nat,
}

impl DataView {
    /// The reader after `n` more bytes were read.
    pub open spec fn advanced(self, n: nat) -> DataView {
        DataView {
            remaining: (self.remaining - n) as nat,
            phase: (self.phase + n) % 4,
            ..self
        }
    }
}

impl View for Data {
    type V = DataView;

    closed spec fn view(&self) -> DataView {
        DataView {
            ty: self.ty,
            fin: self.fin,
            remaining: self.len as nat,
            mask: match self.mask {
                Some(key) => Some(key@),
                None => None,
            },
            phase: self.phase as nat,
        }
    }
}

/// Payload bytes as the application gets them: with the mask taken off where
/// the frame has a key, as they are where it has none. `phase` is the place
/// of the first byte in the frame's payload, modulo four.
pub open spec fn unmasked(chunk: Seq<u8>, mask: Option<Seq<u8>>, phase: nat) -> Seq<u8> {
    match mask {
        Some(key) => masked(chunk, key, phase),
        None => chunk,
    }
}

/// The smallest of three lengths.
pub open spec fn min3(a: nat, b: nat, c: nat) -> nat {
    if a <= b && a <= c {
        a
    } else if b <= c {
        b
    } else {
        c
    }
}

/// Reading a payload in two pieces, the second where the first ended, gives
/// the bytes that reading it at once gives.
pub proof fn lemma_read_in_pieces(head: Seq<u8>, tail: Seq<u8>, mask: Option<Seq<u8>>, phase: nat)
    ensures
        unmasked(head + tail, mask, phase) == unmasked(head, mask, phase) + unmasked(
            tail,
            mask,
            (phase + head.len()) % 4,
        ),
{
    match mask {
        Some(key) => {
            lemma_mask_split(head, tail, key, phase);
            let a = masked(tail, key, phase + head.len());
            let b = masked(tail, key, (phase + head.len()) % 4);
            assert forall|i: int| 0 <= i < tail.len() implies a[i] == b[i] by {
                assert((phase + head.len() + i) % 4 == ((phase + head.len()) % 4 + i) % 4);
            }
            assert(a =~= b);
        },
        None => {},
    }
}

impl Data {
    /// A reader at the start of the payload that `header` announces.
    pub fn new(ty: DataType, header: &FrameHeader) -> (r: Data)
        ensures
            r@ == (DataView {
                ty,
                fin: header.fin,
                remaining: header.len as nat,
                mask: header@.mask,
                phase: 0,
            }),
    {
        Data { ty, fin: header.fin, len: header.len, mask: header.mask, phase: 0 }
    }

    /// Text or binary.
    pub fn ty(&self) -> (r: DataType)
        ensures
            r == self@.ty,
    {
        self.ty
    }

    /// Whether the frame is the last of its message.
    pub fn fin(&self) -> (r: bool)
        ensures
            r == self@.fin,
    {
        self.fin
    }

    /// The number of payload bytes of the frame that are still unread.
    pub fn len(&self) -> (r: u64)
        ensures
            r == self@.remaining,
    {
        self.len
    }

    /// Moves up to `dest.len()` bytes of the payload from `source` to the
    /// start of `dest`, taking the mask off, and consumes them: as many as
    /// the frame still has, `dest` has room for and `source` has buffered.
    pub fn read(&mut self, source: &mut ByteSource, dest: &mut Vec<u8>) -> (n: usize)
        ensures
            n == min3(old(self)@.remaining, old(dest)@.len(), old(source)@.len()),
            final(dest)@ == unmasked(
                old(source)@.subrange(0, n as int),
                old(self)@.mask,
                old(self)@.phase,
            ) + old(dest)@.subrange(n as int, old(dest)@.len() as int),
            final(source)@ == old(source)@.subrange(n as int, old(source)@.len() as int),
            final(self)@ == old(self)@.advanced(n as nat),
    {
        let mut n: usize = dest.len();
        if source.available() < n {
            n = source.available();
        }
        if self.len < n as u64 {
            n = self.len as usize;
        }
        let phase: usize = self.phase as usize;
        let bytes: &[u8] = source.buffer();
        let mut i: usize = 0;
        while i < n
            invariant
                i <= n,
                n <= bytes@.len(),
                n <= dest@.len(),
                dest@.len() == old(dest)@.len(),
                phase == old(self).phase,
                self.mask == old(self).mask,
                forall|j: int|
                    0 <= j < i ==> dest@[j] == unmasked(
                        bytes@.subrange(0, n as int),
                        old(self)@.mask,
                        old(self)@.phase,
                    )[j],
                forall|j: int| i <= j < dest@.len() ==> dest@[j] == old(dest)@[j],
            decreases n - i,
        {
            let b: u8 = match self.mask {
                Some(key) => bytes[i] ^ key[(phase + i % 4) % 4],
                None => bytes[i],
            };
            dest[i] = b;
            i += 1;
        }
        assert(dest@ =~= unmasked(bytes@.subrange(0, n as int), old(self)@.mask, old(self)@.phase)
            + old(dest)@.subrange(n as int, old(dest)@.len() as int));
        source.consume(n);
        self.len = self.len - n as u64;
        self.phase = ((phase + n % 4) % 4) as u8;
        n
    }

    /// Fills `dest` from the frame's payload. `UnexpectedEof` where the frame
    /// has fewer bytes left than `dest` holds, `Incomplete` where the frame
    /// has them but `source` has not buffered them yet; either way nothing is
    /// read.
    pub fn read_exact(&mut self, source: &mut ByteSource, dest: &mut Vec<u8>) -> (r: Result<
        (),
        Error,
    >)
        ensures
            old(dest)@.len() > old(self)@.remaining ==> r == Err::<(), Error>(Error::UnexpectedEof),
            old(dest)@.len() <= old(self)@.remaining && old(dest)@.len() > old(source)@.len() ==> r
                == Err::<(), Error>(Error::Incomplete),
            old(dest)@.len() <= old(self)@.remaining && old(dest)@.len() <= old(source)@.len()
                ==> r is Ok,
            r is Err ==> final(dest)@ == old(dest)@ && final(source)@ == old(source)@
                && final(self)@ == old(self)@,
            r is Ok ==> final(dest)@ == unmasked(
                old(source)@.subrange(0, old(dest)@.len() as int),
                old(self)@.mask,
                old(self)@.phase,
            ) && final(source)@ == old(source)@.subrange(
                old(dest)@.len() as int,
                old(source)@.len() as int,
            ) && final(self)@ == old(self)@.advanced(old(dest)@.len()),
    {
        let want: usize = dest.len();
        if want as u64 > self.len {
            return Err(Error::UnexpectedEof);
        }
        if want > source.available() {
            return Err(Error::Incomplete);
        }
        let n: usize = self.read(source, dest);
        assert(n == want);
        assert(old(dest)@.subrange(n as int, old(dest)@.len() as int) =~= Seq::<u8>::empty());
        assert(dest@ =~= unmasked(
            old(source)@.subrange(0, old(dest)@.len() as int),
            old(self)@.mask,
            old(self)@.phase,
        ));
        Ok(())
    }

    /// Appends all of the frame's unread payload to `accumulator`, straight
    /// from `source`, and gives the number of bytes appended. `Incomplete`
    /// where `source` has not buffered all of it yet; then nothing is read.
    pub fn read_to_end(&mut self, source: &mut ByteSource, accumulator: &mut Vec<u8>) -> (r: Result<
        usize,
        Error,
    >)
        ensures
            old(self)@.remaining > old(source)@.len() ==> r == Err::<usize, Error>(
                Error::Incomplete,
            ) && final(accumulator)@ == old(accumulator)@ && final(source)@ == old(source)@
                && final(self)@ == old(self)@,
            old(self)@.remaining <= old(source)@.len() ==> r == Ok::<usize, Error>(
                old(self)@.remaining as usize,
            ) && final(accumulator)@ == old(accumulator)@ + unmasked(
                old(source)@.subrange(0, old(self)@.remaining as int),
                old(self)@.mask,
                old(self)@.phase,
            ) && final(source)@ == old(source)@.subrange(
                old(self)@.remaining as int,
                old(source)@.len() as int,
            ) && final(self)@ == old(self)@.advanced(old(self)@.remaining),
    {
        if self.len > source.available() as u64 {
            return Err(Error::Incomplete);
        }
        let n: usize = self.len as usize;
        let phase: usize = self.phase as usize;
        let bytes: &[u8] = source.buffer();
        let ghost whole = unmasked(bytes@.subrange(0, n as int), old(self)@.mask, old(self)@.phase);
        let mut i: usize = 0;
        while i < n
            invariant
                i <= n,
                n <= bytes@.len(),
                phase == old(self).phase,
                self.mask == old(self).mask,
                whole == unmasked(bytes@.subrange(0, n as int), old(self)@.mask, old(self)@.phase),
                accumulator@ == old(accumulator)@ + whole.subrange(0, i as int),
            decreases n - i,
        {
            let b: u8 = match self.mask {
                Some(key) => bytes[i] ^ key[(phase + i % 4) % 4],
                None => bytes[i],
            };
            accumulator.push(b);
            proof {
                assert(whole[i as int] == b);
                assert(whole.subrange(0, i + 1) =~= whole.subrange(0, i as int).push(b));
                assert(accumulator@ =~= old(accumulator)@ + whole.subrange(0, i + 1));
            }
            i += 1;
        }
        assert(whole.subrange(0, n as int) =~= whole);
        source.consume(n);
        self.len = 0;
        self.phase = ((phase + n % 4) % 4) as u8;
        Ok(n)
    }
}

} // verus!
