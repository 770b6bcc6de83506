//! Seed expansion: a 64-bit integer seed is stretched into a stream of 32-bit
//! words with a permuted-congruential step, and the words are installed as an
//! engine's initial lattice in little-endian order.

use vstd::prelude::*;

verus! {

/// Multiplier of the expansion stream's linear congruential state update.
pub const PCG_MUL: u64 = 6364136223846793005;

/// Increment of the expansion stream's linear congruential state update.
pub const PCG_INC: u64 = 11634580027462260723;

/// Right rotation of a 32-bit word by `r` positions, for `0 <= r < 32`.
pub open spec fn rotr32(x: u32, r: u32) -> u32
    recommends
        r < 32,
{
    if r == 0 {
        x
    } else {
        (x >> r) | (x << ((32 - r) as u32))
    }
}

/// The linear congruential state update of the expansion stream, modulo 2^64.
pub open spec fn pcg_state_next(s: u64) -> u64 {
    ((s * PCG_MUL + PCG_INC) % 0x1_0000_0000_0000_0000) as u64
}

/// The 32-bit word drawn from a stream state: an xorshift of the high bits
/// followed by a rotation selected by the top five bits.
pub open spec fn pcg_output(s: u64) -> u32 {
    rotr32((((s >> 18) ^ s) >> 27) as u32, (s >> 59) as u32)
}

/// The stream state after `k` updates of the initial seed.
pub open spec fn pcg_state_at(seed: u64, k: nat) -> u64
    decreases k,
{
    if k == 0 {
        seed
    } else {
        pcg_state_next(pcg_state_at(seed, (k - 1) as nat))
    }
}

/// The `k`-th 32-bit word of the expansion stream.  The state is advanced
/// before the first word is drawn, so word `k` is read from state `k + 1`.
pub open spec fn pcg_out_at(seed: u64, k: nat) -> u32 {
    pcg_output(pcg_state_at(seed, k + 1))
}

/// One step of the expansion stream: the updated state and the word drawn
/// from it.
fn pcg_step(state: u64) -> (r: (u64, u32))
    ensures
        r.0 == pcg_state_next(state),
        r.1 == pcg_output(r.0),
{
    proof {
        assert(state * PCG_MUL <= 0xffff_ffff_ffff_ffff * (PCG_MUL as int))
            by (nonlinear_arith)
            requires
                state <= 0xffff_ffff_ffff_ffff,
        ;
    }
    let wide: u128 = (state as u128) * (PCG_MUL as u128) + (PCG_INC as u128);
    let next: u64 = (wide % 0x1_0000_0000_0000_0000u128) as u64;
    let xorshifted: u32 = #[verifier::truncate] ((((next >> 18) ^ next) >> 27) as u32);
    let rot: u32 = #[verifier::truncate] ((next >> 59) as u32);
    proof {
        assert(next >> 59 < 32) by (bit_vector);
    }
    let out: u32 = if rot == 0 {
        xorshifted
    } else {
        (xorshifted >> rot) | (xorshifted << (32 - rot))
    };
    (next, out)
}

/// The first `n` words of the expansion stream of `seed`.
pub fn pcg_words32(seed: u64, n: usize) -> (r: Vec<u32>)
    ensures
        r@.len() == n,
        forall|k: int| 0 <= k < n ==> r@[k] == pcg_out_at(seed, k as nat),
{
    let mut out: Vec<u32> = Vec::new();
    let mut state: u64 = seed;
    let mut i: usize = 0;
    while i < n
        invariant
            i <= n,
            out@.len() == i,
            state == pcg_state_at(seed, i as nat),
            forall|k: int| 0 <= k < i ==> out@[k] == pcg_out_at(seed, k as nat),
        decreases n - i,
    {
        let (next, word) = pcg_step(state);
        proof {
            assert(pcg_state_at(seed, (i + 1) as nat) == pcg_state_next(pcg_state_at(seed, i as nat)));
        }
        state = next;
        out.push(word);
        i = i + 1;
    }
    out
}

/// The `k`-th 64-bit word of the expansion stream of `seed`: the
/// little-endian pairing of stream words `2k` and `2k + 1`.
pub open spec fn pcg_word64_at(seed: u64, k: nat) -> u64 {
    (pcg_out_at(seed, 2 * k) as u64) | ((pcg_out_at(seed, 2 * k + 1) as u64) << 32)
}

/// The first `n` 64-bit little-endian pairings of the expansion stream.
pub fn pcg_words64(seed: u64, n: usize) -> (r: Vec<u64>)
    requires
        n <= 0x7fff_ffff,
    ensures
        r@.len() == n,
        forall|k: int| 0 <= k < n ==> r@[k] == pcg_word64_at(seed, k as nat),
{
    let mut out: Vec<u64> = Vec::new();
    let mut state: u64 = seed;
    let mut i: usize = 0;
    while i < n
        invariant
            i <= n,
            n <= 0x7fff_ffff,
            out@.len() == i,
            state == pcg_state_at(seed, (2 * i) as nat),
            forall|k: int| 0 <= k < i ==> out@[k] == pcg_word64_at(seed, k as nat),
        decreases n - i,
    {
        let (next0, lo) = pcg_step(state);
        let (next1, hi) = pcg_step(next0);
        proof {
            assert(pcg_state_at(seed, (2 * i + 1) as nat)
                == pcg_state_next(pcg_state_at(seed, (2 * i) as nat)));
            assert(pcg_state_at(seed, (2 * i + 2) as nat)
                == pcg_state_next(pcg_state_at(seed, (2 * i + 1) as nat)));
        }
        state = next1;
        out.push((lo as u64) | ((hi as u64) << 32));
        i = i + 1;
    }
    out
}

} // verus!
