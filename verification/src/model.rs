//! The mathematical model of the Marvin32 hash over a byte sequence.
//!
//! A byte sequence is split into consecutive 4-byte little-endian words
//! plus a trailing remainder of 0 to 3 bytes. [`hash_spec`] mixes every
//! full word into the state in order, folds the remainder and a `0x80`
//! sentinel into one last word, mixes that word and then `0`, and reads
//! the result as `lo XOR hi`. All executable entry points of this crate
//! are proved to return this function of the bytes they consumed.

use vstd::prelude::*;

use crate::state::HashState;
use crate::state::init_state;
use crate::state::mix_spec;

verus! {

/// The 32-bit little-endian word formed by the four bytes of `b`
/// starting at index `i`.
pub open spec fn word_at(b: Seq<u8>, i: int) -> u32
    recommends
        0 <= i,
        i + 4 <= b.len(),
{
    (b[i] as u32) | ((b[i + 1] as u32) << 8) | ((b[i + 2] as u32) << 16) | ((b[i + 3] as u32)
        << 24)
}

/// The padding word built from a remainder of fewer than 4 bytes: a fold
/// over the remainder in reverse order, `acc = (acc << 8) | byte`,
/// starting from the sentinel `0x80`. An empty remainder gives `0x80`.
pub open spec fn tail_word(rem: Seq<u8>) -> u32
    decreases rem.len(),
{
    if rem.len() == 0 {
        0x80u32
    } else {
        (tail_word(rem.drop_first()) << 8) | (rem[0] as u32)
    }
}

/// The length of the full-word prefix of `b`: its length rounded down to
/// a multiple of 4.
pub open spec fn words_len(b: Seq<u8>) -> int {
    b.len() - (b.len() % 4)
}

/// The prefix of `b` made of complete 4-byte words.
pub open spec fn full_words(b: Seq<u8>) -> Seq<u8> {
    b.take(words_len(b))
}

/// The trailing 0 to 3 bytes of `b` that form no complete word.
pub open spec fn residue(b: Seq<u8>) -> Seq<u8> {
    b.skip(words_len(b))
}

/// The state after mixing every 4-byte word of `b` into `st` in order,
/// for a `b` whose length is a multiple of 4.
pub open spec fn mix_blocks(st: HashState, b: Seq<u8>) -> HashState
    recommends
        b.len() % 4 == 0,
    decreases b.len(),
{
    if b.len() < 4 {
        st
    } else {
        mix_spec(mix_blocks(st, b.take(b.len() - 4)), word_at(b, b.len() - 4))
    }
}

/// Finalization: mix the padding word of `rem`, then `0`, and read the
/// hash out as `lo XOR hi`.
pub open spec fn finalize_spec(st: HashState, rem: Seq<u8>) -> u32 {
    let f = mix_spec(mix_spec(st, tail_word(rem)), 0);
    f.lo ^ f.hi
}

/// The Marvin32 hash of the byte sequence `b` under `seed`.
pub open spec fn hash_spec(b: Seq<u8>, seed: u64) -> u32 {
    finalize_spec(mix_blocks(init_state(seed), full_words(b)), residue(b))
}

/// Mixing the words of `b.take(i + 4)` equals mixing the words of
/// `b.take(i)` and then the single word at `i`, when `i` is word-aligned.
pub proof fn lemma_mix_blocks_step(st: HashState, b: Seq<u8>, i: int)
    requires
        0 <= i,
        i % 4 == 0,
        i + 4 <= b.len(),
    ensures
        mix_blocks(st, b.take(i + 4)) == mix_spec(mix_blocks(st, b.take(i)), word_at(b, i)),
{
    let p = b.take(i + 4);
    assert(p.take(i) =~= b.take(i));
    assert(word_at(p, i) == word_at(b, i));
}

/// Appending one 4-byte word `w` to a word-aligned sequence `b` and
/// mixing equals mixing `b` and then the word read from `w`.
pub proof fn lemma_mix_blocks_snoc(st: HashState, b: Seq<u8>, w: Seq<u8>)
    requires
        b.len() % 4 == 0,
        w.len() == 4,
    ensures
        mix_blocks(st, b + w) == mix_spec(mix_blocks(st, b), word_at(w, 0)),
{
    let p = b + w;
    assert(p.take(p.len() - 4) =~= b);
    assert(word_at(p, b.len() as int) == word_at(w, 0));
}

/// The hash of a sequence split into a word-aligned prefix `done` and a
/// remainder `rem` of fewer than 4 bytes is the finalization of the
/// state reached by mixing `done` alone. This is the law behind the
/// equivalence of the one-shot, streaming and incremental entry points:
/// once the full words and the remainder are fixed, the hash is fixed,
/// no matter how the bytes arrived.
pub proof fn lemma_hash_split(done: Seq<u8>, rem: Seq<u8>, seed: u64)
    requires
        done.len() % 4 == 0,
        rem.len() < 4,
    ensures
        hash_spec(done + rem, seed) == finalize_spec(
            mix_blocks(init_state(seed), done),
            rem,
        ),
{
    let b = done + rem;
    assert(b.len() == done.len() + rem.len());
    assert(b.len() % 4 == rem.len() % 4) by (nonlinear_arith)
        requires
            done.len() % 4 == 0,
            b.len() == done.len() + rem.len(),
    ;
    assert(words_len(b) == done.len());
    assert(full_words(b) =~= done);
    assert(residue(b) =~= rem);
}

} // verus!
