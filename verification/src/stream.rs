//! The streaming hash over a fallible byte source of unknown length.
//!
//! A [`ByteSource`] yields bytes in order and may fail: a retryable
//! interruption is retried transparently, any other failure aborts the
//! whole hash and is returned to the caller. [`hash_streaming`] is
//! proved to return the same value as the one-shot hash over whatever
//! byte sequence the source held, no matter how the source fragments
//! its reads.

use vstd::prelude::*;

use crate::model::hash_spec;
use crate::model::lemma_hash_split;
use crate::model::lemma_mix_blocks_snoc;
use crate::model::mix_blocks;
use crate::state::init;
use crate::state::init_state;
use crate::state::mix;
use crate::words::finalize;
use crate::words::load_word;

verus! {

/// The error a byte source may report from a read.
#[derive(Clone, Copy, Debug, PartialEq, Eq, Structural)]
pub enum IoError {
    /// A transient interruption: reading again may succeed. Never
    /// surfaced by [`hash_streaming`], which retries it transparently.
    Interrupted,
    /// Any other failure: aborts the streaming hash, which returns it
    /// to the caller with no partial result.
    Fatal,
}

/// An object that yields bytes in order and may fail while doing so.
///
/// A read for up to `max` bytes may return fewer — a short read is
/// progress, not end of input. A read that returns no bytes at all
/// signals end of input. A read may instead report an error; after a
/// retryable interruption the source stands unchanged, and its
/// `patience` bounds how many interruptions it may report in a row.
pub trait ByteSource {
    /// The bytes the source has yet to yield, in order.
    spec fn remaining(&self) -> Seq<u8>;

    /// How many retryable interruptions the source may still report
    /// before it must yield bytes, end, or fail for good.
    spec fn patience(&self) -> nat;

    /// Yield up to `max` of the remaining bytes, in order.
    fn read(&mut self, max: usize) -> (r: Result<Vec<u8>, IoError>)
        requires
            max > 0,
        ensures
            match r {
                Ok(chunk) => {
                    &&& chunk@.len() <= max
                    &&& chunk@.len() <= old(self).remaining().len()
                    &&& (chunk@.len() == 0 ==> old(self).remaining().len() == 0)
                    &&& chunk@ == old(self).remaining().take(chunk@.len() as int)
                    &&& final(self).remaining() == old(self).remaining().skip(
                        chunk@.len() as int,
                    )
                },
                Err(e) => (e is Interrupted ==> final(self).remaining() == old(
                    self,
                ).remaining() && final(self).patience() < old(self).patience()),
            },
    ;
}

/// Collect the next word from `src`: up to 4 bytes, probing the source
/// repeatedly across short reads and retrying interruptions, until a
/// full word is assembled or the source ends. A chunk of fewer than 4
/// bytes therefore means the source is exhausted.
fn read_chunked<S: ByteSource>(src: &mut S) -> (r: Result<Vec<u8>, IoError>)
    ensures
        match r {
            Ok(chunk) => {
                &&& chunk@.len() == if old(src).remaining().len() >= 4 {
                    4int
                } else {
                    old(src).remaining().len() as int
                }
                &&& chunk@ == old(src).remaining().take(chunk@.len() as int)
                &&& final(src).remaining() == old(src).remaining().skip(chunk@.len() as int)
            },
            Err(e) => e is Fatal,
        },
{
    let ghost orig = src.remaining();
    let mut collected: Vec<u8> = Vec::new();
    proof {
        assert(orig =~= collected@ + src.remaining());
    }
    loop
        invariant
            orig == old(src).remaining(),
            collected@.len() < 4,
            orig == collected@ + src.remaining(),
        decreases src.remaining().len(), src.patience(),
    {
        let want: usize = 4 - collected.len();
        match src.read(want) {
            Ok(mut chunk) => {
                if chunk.len() == 0 {
                    proof {
                        assert(orig =~= collected@);
                        assert(collected@ =~= orig.take(collected@.len() as int));
                        assert(src.remaining() =~= orig.skip(collected@.len() as int));
                    }
                    return Ok(collected);
                }
                collected.append(&mut chunk);
                proof {
                    assert(orig =~= collected@ + src.remaining());
                }
                if collected.len() == 4 {
                    proof {
                        assert(collected@ =~= orig.take(4));
                        assert(src.remaining() =~= orig.skip(4));
                    }
                    return Ok(collected);
                }
            },
            Err(e) => {
                match e {
                    IoError::Interrupted => {},
                    IoError::Fatal => {
                        return Err(e);
                    },
                }
            },
        }
    }
}

/// Calculate the 32-bit Marvin32 hash of everything `source` yields,
/// under the seed `seed`.
///
/// Words are assembled 4 bytes at a time across arbitrary read
/// fragmentation, so the result depends only on the byte sequence the
/// source held, never on how it chose to fragment reads. Retryable
/// interruptions are retried and never surfaced; any other read failure
/// aborts the hash, and that error is returned with no partial result.
pub fn hash_streaming<S: ByteSource>(source: &mut S, seed: u64) -> (r: Result<u32, IoError>)
    ensures
        match r {
            Ok(h) => h == hash_spec(old(source).remaining(), seed),
            Err(e) => e is Fatal,
        },
{
    let ghost orig = source.remaining();
    let mut st = init(seed);
    let ghost mut done: Seq<u8> = Seq::empty();
    proof {
        assert(orig =~= done + source.remaining());
    }
    loop
        invariant
            orig == old(source).remaining(),
            done.len() % 4 == 0,
            st == mix_blocks(init_state(seed), done),
            orig == done + source.remaining(),
        decreases source.remaining().len(),
    {
        match read_chunked(source) {
            Ok(chunk) => {
                if chunk.len() == 4 {
                    let w = load_word(chunk.as_slice(), 0);
                    proof {
                        lemma_mix_blocks_snoc(init_state(seed), done, chunk@);
                    }
                    mix(&mut st, w);
                    proof {
                        done = done + chunk@;
                        assert(orig =~= done + source.remaining());
                    }
                } else {
                    let h = finalize(&st, chunk.as_slice());
                    proof {
                        lemma_hash_split(done, chunk@, seed);
                        assert(orig =~= done + chunk@);
                    }
                    return Ok(h);
                }
            },
            Err(e) => {
                return Err(e);
            },
        }
    }
}

} // verus!
