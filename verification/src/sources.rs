//! Byte sources over in-memory buffers.
//!
//! [`SliceSource`] yields a buffer's bytes, optionally a few at a time,
//! to exercise short reads. [`FlakySource`] reports a retryable
//! interruption before every read. [`FatalSource`] yields its bytes and
//! then fails for good instead of ending. All three satisfy the
//! [`ByteSource`] contract, so [`crate::stream::hash_streaming`] over
//! any of them is covered by its proof.

use vstd::prelude::*;

use crate::stream::ByteSource;
use crate::stream::IoError;

verus! {

/// A byte source over an in-memory buffer that yields at most `step`
/// bytes per read, however many were asked for.
pub struct SliceSource {
    data: Vec<u8>,
    pos: usize,
    step: usize,
}

impl SliceSource {
    /// A source over `data` that serves each read in full.
    pub fn new(data: Vec<u8>) -> (s: SliceSource)
        ensures
            s.remaining() == data@,
    {
        let s = SliceSource { data, pos: 0, step: usize::MAX };
        proof {
            assert(s.remaining() =~= s.data@);
        }
        s
    }

    /// A source over `data` that yields at most `step` bytes per read,
    /// so that every word must be assembled from short reads. A `step`
    /// of 0 is served as 1.
    pub fn with_step(data: Vec<u8>, step: usize) -> (s: SliceSource)
        ensures
            s.remaining() == data@,
    {
        let s = SliceSource { data, pos: 0, step };
        proof {
            assert(s.remaining() =~= s.data@);
        }
        s
    }

    /// Whether every byte has been yielded.
    pub fn exhausted(&self) -> (b: bool)
        ensures
            b == (self.remaining().len() == 0),
    {
        self.pos >= self.data.len()
    }
}

impl ByteSource for SliceSource {
    closed spec fn remaining(&self) -> Seq<u8> {
        if self.pos <= self.data@.len() {
            self.data@.skip(self.pos as int)
        } else {
            Seq::<u8>::empty()
        }
    }

    closed spec fn patience(&self) -> nat {
        0
    }

    fn read(&mut self, max: usize) -> (r: Result<Vec<u8>, IoError>) {
        let len = self.data.len();
        if self.pos >= len {
            let chunk: Vec<u8> = Vec::new();
            proof {
                assert(chunk@ =~= old(self).remaining().take(0));
                assert(self.remaining() =~= old(self).remaining().skip(0));
            }
            return Ok(chunk);
        }
        let step = if self.step == 0 {
            1
        } else {
            self.step
        };
        let avail = len - self.pos;
        let mut k = max;
        if step < k {
            k = step;
        }
        if avail < k {
            k = avail;
        }
        let mut out: Vec<u8> = Vec::new();
        let mut j: usize = 0;
        while j < k
            invariant
                j <= k,
                1 <= k,
                len == self.data@.len(),
                self.pos + k <= len,
                self == old(self),
                out@ == self.data@.subrange(self.pos as int, self.pos + j),
            decreases k - j,
        {
            let b = self.data[self.pos + j];
            out.push(b);
            j = j + 1;
            proof {
                assert(out@ =~= self.data@.subrange(self.pos as int, self.pos + j));
            }
        }
        self.pos = self.pos + k;
        proof {
            assert(out@ =~= old(self).remaining().take(k as int));
            assert(self.remaining() =~= old(self).remaining().skip(k as int));
        }
        Ok(out)
    }
}

/// A byte source that reports a retryable interruption before every
/// read: reads alternate between `Err(Interrupted)` and real progress.
pub struct FlakySource {
    inner: SliceSource,
    interrupt_next: bool,
}

impl FlakySource {
    /// A source over `data` whose every other read is interrupted.
    pub fn new(data: Vec<u8>) -> (s: FlakySource)
        ensures
            s.remaining() == data@,
    {
        FlakySource { inner: SliceSource::new(data), interrupt_next: true }
    }
}

impl ByteSource for FlakySource {
    closed spec fn remaining(&self) -> Seq<u8> {
        self.inner.remaining()
    }

    closed spec fn patience(&self) -> nat {
        if self.interrupt_next {
            1
        } else {
            0
        }
    }

    fn read(&mut self, max: usize) -> (r: Result<Vec<u8>, IoError>) {
        if self.interrupt_next {
            self.interrupt_next = false;
            Err(IoError::Interrupted)
        } else {
            self.interrupt_next = true;
            self.inner.read(max)
        }
    }
}

/// A byte source that yields its buffer and then fails for good: where
/// a well-behaved source would signal end of input, this one reports a
/// non-retryable error, so a streaming hash over it never produces a
/// value.
pub struct FatalSource {
    inner: SliceSource,
}

impl FatalSource {
    /// A source that yields `data` and then fails instead of ending.
    pub fn new(data: Vec<u8>) -> (s: FatalSource)
        ensures
            s.remaining() == data@,
    {
        FatalSource { inner: SliceSource::new(data) }
    }
}

impl ByteSource for FatalSource {
    closed spec fn remaining(&self) -> Seq<u8> {
        self.inner.remaining()
    }

    closed spec fn patience(&self) -> nat {
        0
    }

    fn read(&mut self, max: usize) -> (r: Result<Vec<u8>, IoError>) {
        if self.inner.exhausted() {
            Err(IoError::Fatal)
        } else {
            self.inner.read(max)
        }
    }
}

} // verus!
