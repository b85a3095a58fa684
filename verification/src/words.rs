//! Executable helpers shared by the three hashing entry points: reading a
//! little-endian word out of input bytes, folding a trailing remainder
//! into the padding word, and finalizing a state into the 32-bit hash.

use vstd::prelude::*;

use crate::model::finalize_spec;
use crate::model::tail_word;
use crate::model::word_at;
use crate::state::HashState;
use crate::state::mix;

verus! {

/// The 32-bit little-endian word at index `i` of `data`.
pub fn load_word(data: &[u8], i: usize) -> (w: u32)
    requires
        i + 4 <= data@.len(),
    ensures
        w == word_at(data@, i as int),
{
    (data[i] as u32) | ((data[i + 1] as u32) << 8) | ((data[i + 2] as u32) << 16) | ((data[i
        + 3] as u32) << 24)
}

/// Fold a remainder of fewer than 4 bytes into the padding word: the
/// bytes in reverse order, each shifted under the `0x80` sentinel.
pub fn fold_tail(rem: &[u8]) -> (r: u32)
    requires
        rem@.len() < 4,
    ensures
        r == tail_word(rem@),
{
    let mut acc: u32 = 0x80;
    let mut i: usize = rem.len();
    while i > 0
        invariant
            i <= rem@.len() < 4,
            acc == tail_word(rem@.skip(i as int)),
        decreases i,
    {
        i = i - 1;
        acc = (acc << 8) | (rem[i] as u32);
        proof {
            assert(rem@.skip(i as int).drop_first() =~= rem@.skip(i + 1));
        }
    }
    assert(rem@.skip(0) =~= rem@);
    acc
}

/// Apply finalization to a copy of `st`: mix the padding word of `rem`,
/// mix `0`, and read out `lo XOR hi`.
pub fn finalize(st: &HashState, rem: &[u8]) -> (r: u32)
    requires
        rem@.len() < 4,
    ensures
        r == finalize_spec(*st, rem@),
{
    let mut closing: HashState = *st;
    let pad = fold_tail(rem);
    mix(&mut closing, pad);
    mix(&mut closing, 0);
    closing.lo ^ closing.hi
}

} // verus!
