//! The incremental, resumable Marvin32 hasher.
//!
//! A [`Marvin32`] accepts input in pushes of arbitrary length, buffering
//! the 0 to 3 bytes that form no complete word between calls, and can be
//! asked for a finish value at any time without disturbing further input.

use vstd::prelude::*;

use crate::model::hash_spec;
use crate::model::lemma_hash_split;
use crate::model::lemma_mix_blocks_snoc;
use crate::model::mix_blocks;
use crate::model::word_at;
use crate::state::HashState;
use crate::state::init;
use crate::state::init_state;
use crate::state::mix;
use crate::words::finalize;
use crate::words::load_word;

verus! {

/// An incremental hasher over the Marvin32 algorithm.
///
/// Bytes arrive through [`Marvin32::push`] in slices of any length; the
/// hash of everything pushed so far can be read at any time through
/// [`Marvin32::finish`]. The residue buffer holds fewer than 4 bytes
/// whenever a call returns: a buffer that fills to 4 bytes is flushed
/// into the mixing state at once.
pub struct Marvin32 {
    state: HashState,
    buf: Vec<u8>,
    seed: Ghost<u64>,
    done: Ghost<Seq<u8>>,
}

impl Marvin32 {
    /// The seed this hasher was constructed with.
    pub closed spec fn seed(&self) -> u64 {
        self.seed@
    }

    /// Every byte pushed so far, in order.
    pub closed spec fn bytes(&self) -> Seq<u8> {
        self.done@ + self.buf@
    }

    /// The hasher's invariant: the residue buffer holds fewer than 4
    /// bytes, the mixed-in prefix is word-aligned, and the mixing state
    /// is exactly the state reached by mixing that prefix.
    pub closed spec fn wf(&self) -> bool {
        &&& self.buf@.len() < 4
        &&& self.done@.len() % 4 == 0
        &&& self.state == mix_blocks(init_state(self.seed@), self.done@)
    }

    /// Create a hasher for the given seed, with no bytes pushed yet.
    pub fn new(seed: u64) -> (h: Marvin32)
        ensures
            h.wf(),
            h.seed() == seed,
            h.bytes() == Seq::<u8>::empty(),
    {
        let h = Marvin32 {
            state: init(seed),
            buf: Vec::new(),
            seed: Ghost(seed),
            done: Ghost(Seq::empty()),
        };
        proof {
            assert(h.bytes() =~= Seq::<u8>::empty());
        }
        h
    }

    /// Absorb `data`. Any residue from earlier pushes is topped off
    /// first; if that completes a word it is mixed and the buffer
    /// emptied. The rest of `data` is mixed word by word, and the final
    /// 0 to 3 bytes are stored back into the buffer.
    pub fn push(&mut self, data: &[u8])
        requires
            old(self).wf(),
        ensures
            final(self).wf(),
            final(self).seed() == old(self).seed(),
            final(self).bytes() == old(self).bytes() + data@,
    {
        let ghost seed = self.seed@;
        let ghost bytes0 = old(self).bytes();
        let n: usize = data.len();
        let mut i: usize = 0;
        if self.buf.len() > 0 {
            while self.buf.len() < 4 && i < n
                invariant
                    n == data@.len(),
                    i <= n,
                    self.seed@ == seed,
                    self.buf@.len() <= 4,
                    self.done@.len() % 4 == 0,
                    self.state == mix_blocks(init_state(seed), self.done@),
                    self.done@ + self.buf@ == bytes0 + data@.take(i as int),
                decreases n - i,
            {
                let ghost prev = self.buf@;
                let b = data[i];
                self.buf.push(b);
                i = i + 1;
                proof {
                    assert(self.done@ + self.buf@ =~= (self.done@ + prev).push(data@[i - 1]));
                    assert(bytes0 + data@.take(i as int) =~= (bytes0 + data@.take(i - 1)).push(
                        data@[i - 1],
                    ));
                }
            }
            if self.buf.len() == 4 {
                let ghost filled = self.buf@;
                let w = load_word(self.buf.as_slice(), 0);
                proof {
                    lemma_mix_blocks_snoc(init_state(seed), self.done@, filled);
                }
                mix(&mut self.state, w);
                self.done = Ghost(self.done@ + filled);
                self.buf.clear();
                proof {
                    assert(self.done@ + self.buf@ =~= bytes0 + data@.take(i as int));
                }
            }
        }
        while n - i >= 4
            invariant
                n == data@.len(),
                i <= n,
                self.seed@ == seed,
                self.buf@.len() < 4,
                self.buf@.len() == 0 || i == n,
                self.done@.len() % 4 == 0,
                self.state == mix_blocks(init_state(seed), self.done@),
                self.done@ + self.buf@ == bytes0 + data@.take(i as int),
            decreases n - i,
        {
            let ghost prev_done = self.done@;
            let w = load_word(data, i);
            let ghost block = data@.subrange(i as int, i as int + 4);
            proof {
                lemma_mix_blocks_snoc(init_state(seed), prev_done, block);
                assert(word_at(block, 0) == word_at(data@, i as int));
                assert(prev_done + self.buf@ =~= prev_done);
            }
            mix(&mut self.state, w);
            self.done = Ghost(prev_done + block);
            i = i + 4;
            proof {
                assert(self.done@ + self.buf@ =~= self.done@);
                assert(self.done@ =~= bytes0 + data@.take(i as int));
            }
        }
        while i < n
            invariant
                n == data@.len(),
                i <= n,
                self.seed@ == seed,
                self.buf@.len() + (n - i) < 4,
                self.done@.len() % 4 == 0,
                self.state == mix_blocks(init_state(seed), self.done@),
                self.done@ + self.buf@ == bytes0 + data@.take(i as int),
            decreases n - i,
        {
            let ghost prev = self.buf@;
            let b = data[i];
            self.buf.push(b);
            i = i + 1;
            proof {
                assert(self.done@ + self.buf@ =~= (self.done@ + prev).push(data@[i - 1]));
                assert(bytes0 + data@.take(i as int) =~= (bytes0 + data@.take(i - 1)).push(
                    data@[i - 1],
                ));
            }
        }
        proof {
            assert(data@.take(n as int) =~= data@);
        }
    }

    /// The hash of every byte pushed so far, widened to 64 bits with the
    /// upper 32 bits zero.
    ///
    /// The hasher is only read: calling `finish` repeatedly without an
    /// intervening `push` returns the same value, and pushing more bytes
    /// afterwards continues exactly as if `finish` had never been called.
    pub fn finish(&self) -> (r: u64)
        requires
            self.wf(),
        ensures
            r == hash_spec(self.bytes(), self.seed()) as u64,
            r <= u32::MAX,
    {
        proof {
            lemma_hash_split(self.done@, self.buf@, self.seed@);
        }
        let r32 = finalize(&self.state, self.buf.as_slice());
        r32 as u64
    }
}

} // verus!
