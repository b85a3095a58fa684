//! The one-shot hash over a fully materialized byte slice.

use vstd::prelude::*;

use crate::model::full_words;
use crate::model::hash_spec;
use crate::model::lemma_mix_blocks_step;
use crate::model::mix_blocks;
use crate::model::residue;
use crate::state::init;
use crate::state::init_state;
use crate::state::mix;
use crate::words::finalize;
use crate::words::load_word;

verus! {

/// Calculate the 32-bit Marvin32 hash of `data` under the seed `seed`.
///
/// The slice is split into consecutive 4-byte little-endian words plus a
/// trailing remainder of 0 to 3 bytes; every full word is mixed into the
/// state in order and the remainder is folded in by finalization. The
/// result is a pure function of `data` and `seed`, so repeated calls on
/// the same inputs return the same value, and it agrees with the
/// streaming and incremental forms on the same bytes.
pub fn hash(data: &[u8], seed: u64) -> (r: u32)
    ensures
        r == hash_spec(data@, seed),
{
    let n: usize = data.len();
    let end: usize = n - (n % 4);
    let mut st = init(seed);
    let mut i: usize = 0;
    while i < end
        invariant
            n == data@.len(),
            end == n - (n % 4),
            i <= end,
            i % 4 == 0,
            st == mix_blocks(init_state(seed), data@.take(i as int)),
        decreases end - i,
    {
        let w = load_word(data, i);
        proof {
            lemma_mix_blocks_step(init_state(seed), data@, i as int);
        }
        mix(&mut st, w);
        i = i + 4;
    }
    let r = finalize(&st, &data[end..n]);
    proof {
        assert(data@.take(end as int) =~= full_words(data@));
        assert(data@.subrange(end as int, n as int) =~= residue(data@));
    }
    r
}

} // verus!
