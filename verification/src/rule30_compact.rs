//! The compact Rule 30 engine: the entire lattice is one 32-bit word, one
//! bit per cell, with an open (non-wrapping) boundary — cells beyond the
//! ends read zero.  The deliberately short state trades period and
//! independence for size; seeding compensates with a warm-up that discards
//! an expanded-seed-determined number of transitions.

use vstd::prelude::*;
use crate::EngineError;
use crate::pcg::pcg_out_at;
use crate::pcg::pcg_words32;
use crate::rule30::le32_at;
use crate::rule30::le_byte32;
use crate::rule30::r30_word;
use crate::rule30::rotl1;
use crate::rule30::R30_MASK;

verus! {

/// Number of gather rounds per 32-bit output word.
pub const CPT_ROUNDS: usize = 29;

/// The lattice after `k` transitions of the single-word Rule 30 shift
/// formula; with no neighbor word, the shifts read zero past both ends.
pub open spec fn cpt_state_after(w: u32, k: nat) -> u32
    decreases k,
{
    if k == 0 {
        w
    } else {
        r30_word(cpt_state_after(w, (k - 1) as nat))
    }
}

/// The record accumulated over the first `k` gather rounds, starting from
/// zero: each round ors the marker bit of the current word into the record,
/// rotates the record left by one, and advances the word.
pub open spec fn cpt_record(w: u32, k: nat) -> u32
    decreases k,
{
    if k == 0 {
        0
    } else {
        rotl1(cpt_record(w, (k - 1) as nat) | (cpt_state_after(w, (k - 1) as nat) & R30_MASK))
    }
}

/// The 32-bit output of one extraction: 29 gather rounds.
pub open spec fn cpt_out(w: u32) -> u32 {
    cpt_record(w, 29)
}

/// The word left behind by one extraction: 29 transitions.
pub open spec fn cpt_next_state(w: u32) -> u32 {
    cpt_state_after(w, 29)
}

/// The word after `k` whole extractions.
pub open spec fn cpt_state_calls(w: u32, k: nat) -> u32
    decreases k,
{
    if k == 0 {
        w
    } else {
        cpt_next_state(cpt_state_calls(w, (k - 1) as nat))
    }
}

/// The `k`-th 32-bit output word produced from initial word `w`.
pub open spec fn cpt_out_at(w: u32, k: nat) -> u32 {
    cpt_out(cpt_state_calls(w, k))
}

/// Byte `i` of the engine's output byte stream.
pub open spec fn cpt_byte_at(w: u32, i: int) -> u8
    recommends
        0 <= i,
{
    le_byte32(cpt_out_at(w, (i / 4) as nat), i % 4)
}

/// Pseudo-random number generator evolving the single-word Rule 30 lattice.
#[derive(Clone, PartialEq, Eq, Debug)]
pub struct Rule30Compact {
    word: u32,
}

/// A full seed for the compact engine: the four bytes of its single word,
/// little-endian.
#[derive(Clone, Debug)]
pub struct Rule30CompactSeed(pub [u8; 4]);

impl Default for Rule30CompactSeed {
    /// The all-zero seed.
    fn default() -> (r: Self)
        ensures
            r.0@ =~= Seq::new(4, |i: int| 0u8),
    {
        Rule30CompactSeed([0u8; 4])
    }
}

impl View for Rule30Compact {
    type V = u32;

    closed spec fn view(&self) -> u32 {
        self.word
    }
}

impl Rule30Compact {
    /// Create an engine from the given lattice; the supplied array must hold
    /// exactly one word, which is installed unchanged.
    pub fn new(state: Vec<u32>) -> (r: Result<Rule30Compact, EngineError>)
        ensures
            r is Ok <==> state@.len() == 1,
            r is Ok ==> r->Ok_0@ == state@[0],
            r is Err ==> r->Err_0 == EngineError::InvalidLength,
    {
        if state.len() != 1 {
            Err(EngineError::InvalidLength)
        } else {
            Ok(Rule30Compact { word: state[0] })
        }
    }

    /// A copy of the current lattice; the engine is not advanced.
    pub fn state(&self) -> (r: Vec<u32>)
        ensures
            r@.len() == 1,
            r@[0] == self@,
    {
        let mut r: Vec<u32> = Vec::new();
        r.push(self.word);
        r
    }

    /// Replace the lattice with the supplied one; fails, leaving the engine
    /// untouched, unless the supplied array holds exactly one word.
    pub fn reset(&mut self, state: Vec<u32>) -> (r: Result<(), EngineError>)
        ensures
            r is Ok <==> state@.len() == 1,
            r is Ok ==> final(self)@ == state@[0],
            r is Err ==> final(self)@ == old(self)@ && r->Err_0 == EngineError::InvalidLength,
    {
        if state.len() != 1 {
            Err(EngineError::InvalidLength)
        } else {
            self.word = state[0];
            Ok(())
        }
    }

    /// Construct the engine from a full seed: the four bytes are read as one
    /// little-endian word.
    pub fn from_seed(seed: Rule30CompactSeed) -> (r: Rule30Compact)
        ensures
            r@ == le32_at(seed.0@, 0),
    {
        let w: u32 = (seed.0[0] as u32) | ((seed.0[1] as u32) << 8) | ((seed.0[2] as u32) << 16) | (
        (seed.0[3] as u32) << 24);
        Rule30Compact { word: w }
    }

    /// Construct the engine from a single 64-bit seed: the first word of the
    /// expansion stream is the initial lattice, and the second is a warm-up
    /// count of transitions discarded at once, to move past the low-quality
    /// early region of the strip.
    pub fn seed_from_u64(seed: u64) -> (r: Rule30Compact)
        ensures
            r@ == cpt_state_after(pcg_out_at(seed, 0), pcg_out_at(seed, 1) as nat),
    {
        let words = pcg_words32(seed, 2);
        let w0 = words[0];
        let skip = words[1];
        let mut w = w0;
        let mut k: u32 = 0;
        while k < skip
            invariant
                k <= skip,
                w == cpt_state_after(w0, k as nat),
            decreases skip - k,
        {
            proof {
                assert(cpt_state_after(w0, (k + 1) as nat) == r30_word(
                    cpt_state_after(w0, k as nat),
                ));
            }
            w = (w >> 1) ^ (w | (w << 1));
            k = k + 1;
        }
        Rule30Compact { word: w }
    }

    /// One transition of the strip.
    fn step(&mut self)
        ensures
            final(self)@ == r30_word(old(self)@),
    {
        let w = self.word;
        self.word = (w >> 1) ^ (w | (w << 1));
    }

    /// Produce the next 32-bit output: 29 gather rounds, each reading the
    /// marker bit of the current word into the record before the word is
    /// advanced by one transition.
    pub fn next_u32(&mut self) -> (r: u32)
        ensures
            r == cpt_out(old(self)@),
            final(self)@ == cpt_next_state(old(self)@),
    {
        let mut record: u32 = 0;
        let mut k: usize = 0;
        while k < CPT_ROUNDS
            invariant
                k <= 29,
                record == cpt_record(old(self)@, k as nat),
                self@ == cpt_state_after(old(self)@, k as nat),
            decreases CPT_ROUNDS - k,
        {
            let t = record | (self.word & R30_MASK);
            record = (t << 1) | (t >> 31);
            self.step();
            proof {
                assert(cpt_record(old(self)@, (k + 1) as nat) == rotl1(
                    cpt_record(old(self)@, k as nat) | (cpt_state_after(old(self)@, k as nat)
                        & R30_MASK),
                ));
                assert(cpt_state_after(old(self)@, (k + 1) as nat) == r30_word(
                    cpt_state_after(old(self)@, k as nat),
                ));
            }
            k = k + 1;
        }
        record
    }

    /// Produce the next 64-bit output: the little-endian composition of two
    /// consecutive 32-bit outputs, the first in the low half.
    pub fn next_u64(&mut self) -> (r: u64)
        ensures
            r == ((cpt_out(cpt_next_state(old(self)@)) as u64) << 32) | (cpt_out(
                old(self)@,
            ) as u64),
            final(self)@ == cpt_state_calls(old(self)@, 2),
    {
        let x = self.next_u32();
        let y = self.next_u32();
        proof {
            assert(cpt_state_calls(old(self)@, 1) == cpt_next_state(cpt_state_calls(old(self)@, 0)));
            assert(cpt_state_calls(old(self)@, 2) == cpt_next_state(cpt_state_calls(old(self)@, 1)));
        }
        ((y as u64) << 32) | (x as u64)
    }

    /// Fill the buffer, keeping its length: 32-bit output words are produced
    /// in order and their little-endian bytes written until the buffer is
    /// full, the final word truncated if the length is not a multiple of
    /// four.
    pub fn fill_bytes(&mut self, dest: &mut Vec<u8>)
        ensures
            final(dest)@.len() == old(dest)@.len(),
            forall|i: int| 0 <= i < old(dest)@.len() ==> final(dest)@[i] == cpt_byte_at(
                old(self)@,
                i,
            ),
            final(self)@ == cpt_state_calls(old(self)@, ((old(dest)@.len() + 3) / 4) as nat),
    {
        let n = dest.len();
        dest.clear();
        while 4 <= n && dest.len() <= n - 4
            invariant
                dest@.len() <= n,
                dest@.len() % 4 == 0,
                self@ == cpt_state_calls(old(self)@, (dest@.len() / 4) as nat),
                forall|i: int| 0 <= i < dest@.len() ==> dest@[i] == cpt_byte_at(old(self)@, i),
            decreases n - dest@.len(),
        {
            let w = self.next_u32();
            let ghost calls = (dest@.len() / 4) as nat;
            proof {
                assert(cpt_state_calls(old(self)@, (calls + 1) as nat) == cpt_next_state(
                    cpt_state_calls(old(self)@, calls),
                ));
            }
            let mut j: usize = 0;
            while j < 4
                invariant
                    j <= 4,
                    dest@.len() == 4 * calls + j,
                    w == cpt_out_at(old(self)@, calls),
                    forall|i: int| 0 <= i < dest@.len() ==> dest@[i] == cpt_byte_at(old(self)@, i),
                decreases 4 - j,
            {
                let b = #[verifier::truncate] ((w >> ((8 * j) as u32)) as u8);
                proof {
                    let i = dest@.len() as int;
                    assert(i / 4 == calls && i % 4 == j) by (nonlinear_arith)
                        requires
                            i == 4 * calls + j,
                            0 <= j < 4,
                            calls >= 0,
                    ;
                    assert(b == cpt_byte_at(old(self)@, i));
                }
                dest.push(b);
                j = j + 1;
            }
        }
        if dest.len() < n {
            let w = self.next_u32();
            let ghost calls = (dest@.len() / 4) as nat;
            proof {
                assert(cpt_state_calls(old(self)@, (calls + 1) as nat) == cpt_next_state(
                    cpt_state_calls(old(self)@, calls),
                ));
            }
            let mut j: usize = 0;
            while dest.len() < n
                invariant
                    j <= 4,
                    n < 4 * calls + 4,
                    dest@.len() == 4 * calls + j,
                    dest@.len() <= n,
                    w == cpt_out_at(old(self)@, calls),
                    forall|i: int| 0 <= i < dest@.len() ==> dest@[i] == cpt_byte_at(old(self)@, i),
                decreases n - dest@.len(),
            {
                let b = #[verifier::truncate] ((w >> ((8 * j) as u32)) as u8);
                proof {
                    let i = dest@.len() as int;
                    assert(i / 4 == calls && i % 4 == j) by (nonlinear_arith)
                        requires
                            i == 4 * calls + j,
                            0 <= j < 4,
                            calls >= 0,
                    ;
                    assert(b == cpt_byte_at(old(self)@, i));
                }
                dest.push(b);
                j = j + 1;
            }
            proof {
                assert((n + 3) / 4 == calls + 1) by (nonlinear_arith)
                    requires
                        4 * calls < n,
                        n < 4 * calls + 4,
                        calls >= 0,
                ;
            }
        }
        proof {
            if dest@.len() % 4 == 0 {
                assert((n + 3) / 4 == n / 4) by (nonlinear_arith)
                    requires
                        n >= 0,
                        n % 4 == 0,
                ;
            }
        }
    }
}

/// Determinism: every output word and every intermediate lattice is a pure
/// function of the initial word; engines started from equal words produce
/// equal output streams.
pub proof fn lemma_cpt_deterministic(w1: u32, w2: u32, k: nat)
    requires
        w1 == w2,
    ensures
        cpt_state_calls(w1, k) == cpt_state_calls(w2, k),
        cpt_out_at(w1, k) == cpt_out_at(w2, k),
{
}

} // verus!
