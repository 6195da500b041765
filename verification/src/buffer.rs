//! The byte source as the engine sees it: the bytes that have arrived and
//! were not consumed yet. Whoever owns the transport appends what arrives.

use vstd::prelude::*;

verus! {

/// Buffered bytes, oldest first.
#[derive(Debug)]
pub struct ByteSource {
    buf: Vec<u8>,
}

impl View for ByteSource {
    type V = Seq<u8>;

    /// The bytes that are buffered and not consumed, oldest first.
    closed spec fn view(&self) -> Seq<u8> {
        self.buf@
    }
}

impl ByteSource {
    /// An empty source.
    pub fn new() -> (r: ByteSource)
        ensures
            r@ == Seq::<u8>::empty(),
    {
        ByteSource { buf: Vec::new() }
    }

    /// An empty source with room for `capacity` bytes.
    pub fn with_capacity(capacity: usize) -> (r: ByteSource)
        ensures
            r@ == Seq::<u8>::empty(),
    {
        ByteSource { buf: Vec::with_capacity(capacity) }
    }

    /// The number of bytes that can be read without waiting.
    pub fn available(&self) -> (n: usize)
        ensures
            n == self@.len(),
    {
        self.buf.len()
    }

    /// The buffered bytes, without consuming any.
    pub fn buffer(&self) -> (r: &[u8])
        ensures
            r@ == self@,
    {
        self.buf.as_slice()
    }

    /// Marks the first `n` buffered bytes as consumed; with fewer than `n`
    /// buffered, all of them.
    pub fn consume(&mut self, n: usize)
        ensures
            n <= old(self)@.len() ==> final(self)@ == old(self)@.subrange(
                n as int,
                old(self)@.len() as int,
            ),
            n > old(self)@.len() ==> final(self)@ == Seq::<u8>::empty(),
    {
        if n <= self.buf.len() {
            let tail: Vec<u8> = self.buf.split_off(n);
            self.buf = tail;
        } else {
            self.buf.clear();
        }
    }

    /// Appends bytes that arrived from the transport.
    pub fn fill(&mut self, bytes: &[u8])
        ensures
            final(self)@ == old(self)@ + bytes@,
    {
        let n: usize = bytes.len();
        let mut i: usize = 0;
        while i < n
            invariant
                n == bytes@.len(),
                i <= n,
                self.buf@ == old(self).buf@ + bytes@.subrange(0, i as int),
            decreases n - i,
        {
            self.buf.push(bytes[i]);
            proof {
                assert(bytes@.subrange(0, i + 1) =~= bytes@.subrange(0, i as int).push(
                    bytes@[i as int],
                ));
                assert(self.buf@ =~= old(self).buf@ + bytes@.subrange(0, i + 1));
            }
            i += 1;
        }
        assert(bytes@.subrange(0, n as int) =~= bytes@);
    }
}

} // verus!
