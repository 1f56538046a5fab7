//! Reading payload bytes back out of a ring buffer, with wraparound.

use vstd::prelude::*;

verus! {

/// The `n` bytes of ring buffer `buf` starting at `start`, wrapping around.
pub open spec fn ring_read(buf: Seq<u8>, start: int, n: int) -> Seq<u8>
    recommends
        buf.len() > 0,
        n >= 0,
{
    Seq::new(n as nat, |k: int| buf[(start + k) % (buf.len() as int)])
}

/// A reader over a data buffer that wraps around at its end.
pub struct RingBufferReader<'a> {
    buf: &'a [u8],
    start_idx: usize,
}

impl<'a> RingBufferReader<'a> {
    /// The buffer being read.
    pub closed spec fn buffer(&self) -> Seq<u8> {
        self.buf@
    }

    /// Where the next read starts.
    pub closed spec fn position(&self) -> int {
        self.start_idx as int
    }

    /// Construct a new [RingBufferReader] with a reference to a data buffer
    /// and a start index into that buffer
    pub fn new(buf: &'a [u8], start_idx: usize) -> (r: Self)
        ensures
            r.buffer() == buf@,
            r.position() == start_idx as int,
    {
        RingBufferReader { buf, start_idx }
    }

    /// Reads the next `n` bytes, cycling back to the start of the buffer.
    pub fn read(&mut self, n: usize) -> (out: Vec<u8>)
        requires
            old(self).buffer().len() > 0,
            old(self).position() + n <= usize::MAX,
        ensures
            out@ == ring_read(old(self).buffer(), old(self).position(), n as int),
            final(self).buffer() == old(self).buffer(),
            final(self).position() == old(self).position() + n,
    {
        let len = self.buf.len();
        let mut out: Vec<u8> = Vec::new();
        let mut k: usize = 0;
        while k < n
            invariant
                k <= n,
                len == self.buf@.len(),
                len > 0,
                self.start_idx + n <= usize::MAX,
                self == old(self),
                out@ == ring_read(self.buf@, self.start_idx as int, k as int),
            decreases n - k,
        {
            let idx = (self.start_idx + k) % len;
            out.push(self.buf[idx]);
            assert(out@ =~= ring_read(self.buf@, self.start_idx as int, k + 1));
            k = k + 1;
        }
        self.start_idx = self.start_idx + n;
        out
    }
}

} // verus!
