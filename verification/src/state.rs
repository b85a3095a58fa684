//! The 64-bit mixing state and the Marvin32 mixing transform.

use vstd::prelude::*;

verus! {

/// The mutable state of a Marvin32 computation: two 32-bit halves of a
/// 64-bit value, advanced one 32-bit word at a time by [`mix`].
#[derive(Clone, Copy, PartialEq, Eq, Structural)]
pub struct HashState {
    pub lo: u32,
    pub hi: u32,
}

/// Left rotation of a 32-bit word by `n` bits, for `0 < n < 32`.
pub open spec fn rotl32(x: u32, n: u32) -> u32
    recommends
        0 < n < 32,
{
    (x << n) | (x >> ((32 - n) as u32))
}

/// 32-bit addition modulo `2^32`, as `u32::wrapping_add` computes it.
pub open spec fn wadd32(x: u32, y: u32) -> u32 {
    vstd::wrapping::u32_specs::wrapping_add(x, y)
}

/// The Marvin32 mixing transform: absorb one little-endian word `v` into
/// the state. The rotation amounts 20, 9, 27, 19 and the operation order
/// are fixed constants of the algorithm.
pub open spec fn mix_spec(st: HashState, v: u32) -> HashState {
    let lo0 = wadd32(st.lo, v);
    let hi0 = st.hi ^ lo0;
    let lo1 = wadd32(rotl32(lo0, 20), hi0);
    let hi1 = rotl32(hi0, 9) ^ lo1;
    let lo2 = wadd32(rotl32(lo1, 27), hi1);
    let hi2 = rotl32(hi1, 19);
    HashState { lo: lo2, hi: hi2 }
}

/// The state a hash computation starts from: the seed's low 32 bits in
/// `lo`, its high 32 bits in `hi`.
pub open spec fn init_state(seed: u64) -> HashState {
    HashState { lo: (seed & 0xFFFF_FFFF) as u32, hi: (seed >> 32) as u32 }
}

fn rotl(x: u32, n: u32) -> (r: u32)
    requires
        0 < n < 32,
    ensures
        r == rotl32(x, n),
{
    (x << n) | (x >> (32 - n))
}

/// Advance the state by one 32-bit word.
pub fn mix(st: &mut HashState, v: u32)
    ensures
        *final(st) == mix_spec(*old(st), v),
{
    st.lo = st.lo.wrapping_add(v);
    st.hi = st.hi ^ st.lo;
    st.lo = rotl(st.lo, 20).wrapping_add(st.hi);
    st.hi = rotl(st.hi, 9) ^ st.lo;
    st.lo = rotl(st.lo, 27).wrapping_add(st.hi);
    st.hi = rotl(st.hi, 19);
}

/// Build the starting state from a 64-bit seed.
pub fn init(seed: u64) -> (st: HashState)
    ensures
        st == init_state(seed),
{
    assert(seed & 0xFFFF_FFFF < 0x1_0000_0000) by (bit_vector);
    assert(seed >> 32 < 0x1_0000_0000) by (bit_vector);
    HashState { lo: (seed & 0xFFFF_FFFF) as u32, hi: (seed >> 32) as u32 }
}

} // verus!
