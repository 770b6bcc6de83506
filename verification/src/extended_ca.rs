//! The extended five-neighbor cellular automaton: a toroidal lattice of
//! eighty 64-bit words.  The 64 bit positions of the words evolve in lockstep
//! as independent parallel automata; two extra neighbor contributions per
//! side are synthesized from the adjacent words by an intra-word rotation.

use vstd::prelude::*;
use crate::EngineError;
use crate::pcg::pcg_word64_at;
use crate::pcg::pcg_words64;

verus! {

/// Number of 64-bit words in the lattice.
pub const EXT_WORDS: usize = 80;

/// Selects every fourth bit of a tapped word during extraction.
pub const EXT_MASK: u64 = 0x1111_1111_1111_1111;

/// Left rotation of a 64-bit word by three positions.
pub open spec fn rotl3(x: u64) -> u64 {
    (x << 3) | (x >> 61)
}

/// The five-neighbor rule, evaluated per word: each adjacent word contributes
/// itself and its rotation by three, so every bit position sees two
/// nonadjacent positions from each side beside its own.
pub open spec fn ext_rule(l: u64, c: u64, r: u64) -> u64 {
    ((l | rotl3(l)) ^ c) ^ (r | rotl3(r))
}

/// One transition of the whole lattice with toroidal wraparound: the left
/// neighbor of the first word is the last word and vice versa.
pub open spec fn ext_step_spec(s: Seq<u64>) -> Seq<u64> {
    Seq::new(
        s.len(),
        |i: int|
            ext_rule(
                s[if i == 0 { s.len() - 1 } else { i - 1 }],
                s[i],
                s[if i == s.len() - 1 { 0 } else { i + 1 }],
            ),
    )
}

/// The output word read from the current lattice: every fourth bit of the
/// four tapped words, concatenated by shift-and-or, most significant tap
/// first.
pub open spec fn ext_output_spec(s: Seq<u64>) -> u64
    recommends
        s.len() == 80,
{
    ((((((s[16] & EXT_MASK) << 1) | (s[32] & EXT_MASK)) << 1) | (s[48] & EXT_MASK)) << 1) | (
    s[54] & EXT_MASK)
}

/// The lattice after `k` transitions.
pub open spec fn ext_state_after(s: Seq<u64>, k: nat) -> Seq<u64>
    decreases k,
{
    if k == 0 {
        s
    } else {
        ext_step_spec(ext_state_after(s, (k - 1) as nat))
    }
}

/// The `k`-th output word produced from initial lattice `s`: extraction reads
/// the state left by `k` earlier transitions, before the `k + 1`-th.
pub open spec fn ext_out_at(s: Seq<u64>, k: nat) -> u64 {
    ext_output_spec(ext_state_after(s, k))
}

/// Byte `j` of the little-endian encoding of `w`.
pub open spec fn le_byte64(w: u64, j: int) -> u8
    recommends
        0 <= j < 8,
{
    (w >> (8 * j)) as u8
}

/// Byte `i` of the engine's output byte stream: the output words in order,
/// each contributing its eight little-endian bytes.
pub open spec fn ext_byte_at(s: Seq<u64>, i: int) -> u8
    recommends
        0 <= i,
{
    le_byte64(ext_out_at(s, (i / 8) as nat), i % 8)
}

/// The 64-bit word read little-endian from bytes `8k .. 8k + 8` of `b`.
pub open spec fn le64_at(b: Seq<u8>, k: int) -> u64
    recommends
        0 <= k,
        8 * k + 8 <= b.len(),
{
    (b[8 * k] as u64) | ((b[8 * k + 1] as u64) << 8) | ((b[8 * k + 2] as u64) << 16) | ((b[8 * k
        + 3] as u64) << 24) | ((b[8 * k + 4] as u64) << 32) | ((b[8 * k + 5] as u64) << 40) | ((b[8
        * k + 6] as u64) << 48) | ((b[8 * k + 7] as u64) << 56)
}

/// The eighty lattice words read little-endian from a full seed buffer.
pub open spec fn ext_words_of_bytes(b: Seq<u8>) -> Seq<u64>
    recommends
        b.len() == 640,
{
    Seq::new(80, |k: int| le64_at(b, k))
}

/// The eighty lattice words drawn from the seed-expansion stream of `seed`:
/// word `k` is the little-endian pairing of stream words `2k` and `2k + 1`,
/// exactly the little-endian reading of the expanded byte buffer.
pub open spec fn ext_seed_words(seed: u64) -> Seq<u64> {
    Seq::new(80, |k: int| pcg_word64_at(seed, k as nat))
}

/// Pseudo-random number generator evolving the extended five-neighbor
/// cellular automaton.  The sole state is the lattice itself.
#[derive(Clone, PartialEq, Eq, Debug)]
pub struct ExtendedCA {
    state: Vec<u64>,
}

/// A full seed for the extended engine: one byte buffer of exactly the
/// lattice's width, reinterpreted as little-endian 64-bit words.
#[derive(Clone, Debug)]
pub struct ExtendedRngSeed(pub [u8; 640]);

impl Default for ExtendedRngSeed {
    /// The all-zero seed.
    fn default() -> (r: Self)
        ensures
            r.0@ =~= Seq::new(640, |i: int| 0u8),
    {
        ExtendedRngSeed([0u8; 640])
    }
}

impl View for ExtendedCA {
    type V = Seq<u64>;

    closed spec fn view(&self) -> Seq<u64> {
        self.state@
    }
}

impl ExtendedCA {
    /// The lattice always holds exactly `EXT_WORDS` words.
    pub open spec fn wf(&self) -> bool {
        self@.len() == 80
    }

    /// Create an engine from the given lattice; the supplied array must have
    /// exactly the required length, and is installed unchanged.
    pub fn new(state: Vec<u64>) -> (r: Result<ExtendedCA, EngineError>)
        ensures
            r is Ok <==> state@.len() == 80,
            r is Ok ==> r->Ok_0@ == state@ && r->Ok_0.wf(),
            r is Err ==> r->Err_0 == EngineError::InvalidLength,
    {
        if state.len() != EXT_WORDS {
            Err(EngineError::InvalidLength)
        } else {
            Ok(ExtendedCA { state })
        }
    }

    /// A copy of the current lattice; the engine is not advanced.
    pub fn state(&self) -> (r: Vec<u64>)
        requires
            self.wf(),
        ensures
            r@ == self@,
    {
        let r = self.state.clone();
        proof {
            assert(r@ =~= self.state@);
        }
        r
    }

    /// Replace the lattice with the supplied one; fails, leaving the engine
    /// untouched, unless the supplied array has exactly the required length.
    pub fn reset(&mut self, state: Vec<u64>) -> (r: Result<(), EngineError>)
        requires
            old(self).wf(),
        ensures
            final(self).wf(),
            r is Ok <==> state@.len() == 80,
            r is Ok ==> final(self)@ == state@,
            r is Err ==> final(self)@ == old(self)@ && r->Err_0 == EngineError::InvalidLength,
    {
        if state.len() != EXT_WORDS {
            Err(EngineError::InvalidLength)
        } else {
            self.state = state;
            Ok(())
        }
    }

    /// Construct the engine from a full seed: the bytes are read as
    /// little-endian 64-bit words and installed as the initial lattice.
    pub fn from_seed(seed: ExtendedRngSeed) -> (r: ExtendedCA)
        ensures
            r.wf(),
            r@ == ext_words_of_bytes(seed.0@),
    {
        let mut words: Vec<u64> = Vec::new();
        let mut k: usize = 0;
        while k < 80
            invariant
                k <= 80,
                words@.len() == k,
                forall|j: int| 0 <= j < k ==> words@[j] == le64_at(seed.0@, j),
            decreases 80 - k,
        {
            let w: u64 = (seed.0[8 * k] as u64) | ((seed.0[8 * k + 1] as u64) << 8) | ((seed.0[8 * k
                + 2] as u64) << 16) | ((seed.0[8 * k + 3] as u64) << 24) | ((seed.0[8 * k
                + 4] as u64) << 32) | ((seed.0[8 * k + 5] as u64) << 40) | ((seed.0[8 * k
                + 6] as u64) << 48) | ((seed.0[8 * k + 7] as u64) << 56);
            words.push(w);
            k = k + 1;
        }
        proof {
            assert(words@ =~= ext_words_of_bytes(seed.0@));
        }
        ExtendedCA { state: words }
    }

    /// Construct the engine from a single 64-bit seed, expanded to the full
    /// lattice by the seed-expansion stream.
    pub fn seed_from_u64(seed: u64) -> (r: ExtendedCA)
        ensures
            r.wf(),
            r@ == ext_seed_words(seed),
    {
        let words = pcg_words64(seed, 80);
        proof {
            assert(words@ =~= ext_seed_words(seed));
        }
        ExtendedCA { state: words }
    }

    /// The lattice extended by one word on each side, the last word copied
    /// before the first and the first after the last, so that every real
    /// word sees its toroidal neighbors at adjacent indices.
    fn extend_state(&self) -> (r: Vec<u64>)
        requires
            self.wf(),
        ensures
            r@.len() == 82,
            r@[0] == self@[79],
            r@[81] == self@[0],
            forall|i: int| 0 <= i < 80 ==> r@[i + 1] == self@[i],
    {
        let mut extend: Vec<u64> = Vec::new();
        extend.push(self.state[79]);
        let mut i: usize = 0;
        while i < 80
            invariant
                self.wf(),
                i <= 80,
                extend@.len() == i + 1,
                extend@[0] == self@[79],
                forall|j: int| 0 <= j < i ==> extend@[j + 1] == self@[j],
            decreases 80 - i,
        {
            extend.push(self.state[i]);
            i = i + 1;
        }
        extend.push(self.state[0]);
        extend
    }

    /// One transition of the lattice under the five-neighbor rule.
    fn step(&mut self)
        requires
            old(self).wf(),
        ensures
            final(self).wf(),
            final(self)@ == ext_step_spec(old(self)@),
    {
        let extend = self.extend_state();
        let mut next: Vec<u64> = Vec::new();
        let mut i: usize = 0;
        while i < 80
            invariant
                self.wf(),
                self@ == old(self)@,
                i <= 80,
                next@.len() == i,
                extend@.len() == 82,
                extend@[0] == self@[79],
                extend@[81] == self@[0],
                forall|j: int| 0 <= j < 80 ==> extend@[j + 1] == self@[j],
                forall|j: int| 0 <= j < i ==> next@[j] == ext_step_spec(self@)[j],
            decreases 80 - i,
        {
            let l = extend[i];
            let c = extend[i + 1];
            let r = extend[i + 2];
            let w = ((l | ((l << 3) | (l >> 61))) ^ c) ^ (r | ((r << 3) | (r >> 61)));
            proof {
                assert(extend@[i as int] == if i == 0 {
                    self@[79]
                } else {
                    self@[i - 1]
                });
                assert(extend@[i + 2] == if i == 79 {
                    self@[0]
                } else {
                    self@[i + 1]
                });
                assert(w == ext_step_spec(self@)[i as int]);
            }
            next.push(w);
            i = i + 1;
        }
        self.state = next;
        proof {
            assert(self@ =~= ext_step_spec(old(self)@));
        }
    }

    /// Produce the next 64-bit output: read the tapped bits of the current
    /// lattice, then advance the lattice by one transition.
    pub fn next_u64(&mut self) -> (r: u64)
        requires
            old(self).wf(),
        ensures
            final(self).wf(),
            r == ext_output_spec(old(self)@),
            final(self)@ == ext_step_spec(old(self)@),
    {
        let t0 = self.state[16] & EXT_MASK;
        let t1 = self.state[32] & EXT_MASK;
        let t2 = self.state[48] & EXT_MASK;
        let t3 = self.state[54] & EXT_MASK;
        let num = ((((t0 << 1) | t1) << 1) | t2) << 1 | t3;
        self.step();
        num
    }

    /// Produce the next 32-bit output: the low half of the next 64-bit
    /// output word.
    pub fn next_u32(&mut self) -> (r: u32)
        requires
            old(self).wf(),
        ensures
            final(self).wf(),
            r == ext_output_spec(old(self)@) as u32,
            final(self)@ == ext_step_spec(old(self)@),
    {
        let w = self.next_u64();
        #[verifier::truncate] (w as u32)
    }

    /// Fill the buffer, keeping its length: output words are produced in
    /// order and their little-endian bytes written until the buffer is full,
    /// the final word truncated if the length is not a multiple of eight.
    pub fn fill_bytes(&mut self, dest: &mut Vec<u8>)
        requires
            old(self).wf(),
        ensures
            final(self).wf(),
            final(dest)@.len() == old(dest)@.len(),
            forall|i: int| 0 <= i < old(dest)@.len() ==> final(dest)@[i] == ext_byte_at(
                old(self)@,
                i,
            ),
            final(self)@ == ext_state_after(old(self)@, ((old(dest)@.len() + 7) / 8) as nat),
    {
        let n = dest.len();
        dest.clear();
        while 8 <= n && dest.len() <= n - 8
            invariant
                self.wf(),
                dest@.len() <= n,
                dest@.len() % 8 == 0,
                self@ == ext_state_after(old(self)@, (dest@.len() / 8) as nat),
                forall|i: int| 0 <= i < dest@.len() ==> dest@[i] == ext_byte_at(old(self)@, i),
            decreases n - dest@.len(),
        {
            let w = self.next_u64();
            let ghost calls = (dest@.len() / 8) as nat;
            proof {
                assert(ext_state_after(old(self)@, (calls + 1) as nat) == ext_step_spec(
                    ext_state_after(old(self)@, calls),
                ));
            }
            let mut j: usize = 0;
            while j < 8
                invariant
                    j <= 8,
                    dest@.len() == 8 * calls + j,
                    w == ext_out_at(old(self)@, calls),
                    forall|i: int| 0 <= i < dest@.len() ==> dest@[i] == ext_byte_at(old(self)@, i),
                decreases 8 - j,
            {
                let b = #[verifier::truncate] ((w >> ((8 * j) as u64)) as u8);
                proof {
                    let i = dest@.len() as int;
                    assert(i / 8 == calls && i % 8 == j) by (nonlinear_arith)
                        requires
                            i == 8 * calls + j,
                            0 <= j < 8,
                            calls >= 0,
                    ;
                    assert(b == ext_byte_at(old(self)@, i));
                }
                dest.push(b);
                j = j + 1;
            }
        }
        if dest.len() < n {
            let w = self.next_u64();
            let ghost calls = (dest@.len() / 8) as nat;
            proof {
                assert(ext_state_after(old(self)@, (calls + 1) as nat) == ext_step_spec(
                    ext_state_after(old(self)@, calls),
                ));
            }
            let mut j: usize = 0;
            while dest.len() < n
                invariant
                    self.wf(),
                    j <= 8,
                    n < 8 * calls + 8,
                    dest@.len() == 8 * calls + j,
                    dest@.len() <= n,
                    w == ext_out_at(old(self)@, calls),
                    forall|i: int| 0 <= i < dest@.len() ==> dest@[i] == ext_byte_at(old(self)@, i),
                decreases n - dest@.len(),
            {
                let b = #[verifier::truncate] ((w >> ((8 * j) as u64)) as u8);
                proof {
                    let i = dest@.len() as int;
                    assert(i / 8 == calls && i % 8 == j) by (nonlinear_arith)
                        requires
                            i == 8 * calls + j,
                            0 <= j < 8,
                            calls >= 0,
                    ;
                    assert(b == ext_byte_at(old(self)@, i));
                }
                dest.push(b);
                j = j + 1;
            }
            proof {
                assert((n + 7) / 8 == calls + 1) by (nonlinear_arith)
                    requires
                        8 * calls < n,
                        n < 8 * calls + 8,
                        calls >= 0,
                ;
            }
        }
        proof {
            if dest@.len() % 8 == 0 {
                assert((n + 7) / 8 == n / 8) by (nonlinear_arith)
                    requires
                        n >= 0,
                        n % 8 == 0,
                ;
            }
        }
    }
}

/// Determinism: every output word and every intermediate lattice is a pure
/// function of the initial lattice; engines started from equal lattices
/// produce equal output streams.
pub proof fn lemma_ext_deterministic(s1: Seq<u64>, s2: Seq<u64>, k: nat)
    requires
        s1 == s2,
    ensures
        ext_state_after(s1, k) == ext_state_after(s2, k),
        ext_out_at(s1, k) == ext_out_at(s2, k),
{
}

/// Extraction precedes transition: the first output word depends only on
/// the masked bits of the four tapped words of the initial lattice, never
/// on a transitioned state.
pub proof fn lemma_ext_first_output_from_taps(s1: Seq<u64>, s2: Seq<u64>)
    requires
        s1.len() == 80,
        s2.len() == 80,
        s1[16] & EXT_MASK == s2[16] & EXT_MASK,
        s1[32] & EXT_MASK == s2[32] & EXT_MASK,
        s1[48] & EXT_MASK == s2[48] & EXT_MASK,
        s1[54] & EXT_MASK == s2[54] & EXT_MASK,
    ensures
        ext_output_spec(s1) == ext_output_spec(s2),
{
}

/// Toroidal translation symmetry, uniform case: a lattice whose words are
/// all equal is a fixed point of the step — every index gets the same
/// result, boundary words included, since the two equal neighbor
/// contributions cancel under exclusive or.
pub proof fn lemma_ext_translation_symmetry(s: Seq<u64>, w: u64)
    requires
        s.len() == 80,
        forall|i: int| 0 <= i < 80 ==> s[i] == w,
    ensures
        forall|i: int| 0 <= i < 80 ==> #[trigger] ext_step_spec(s)[i] == w,
{
    assert((((w | ((w << 3) | (w >> 61))) ^ w) ^ (w | ((w << 3) | (w >> 61)))) == w)
        by (bit_vector);
}

/// Toroidal translation symmetry, general case: the step commutes with a
/// cyclic rotation of the word array.  If `s2` is `s1` rotated by one
/// position, the stepped `s2` is the stepped `s1` rotated by one position.
pub proof fn lemma_ext_step_commutes_with_rotation(s1: Seq<u64>, s2: Seq<u64>)
    requires
        s1.len() == 80,
        s2.len() == 80,
        forall|i: int| 0 <= i < 80 ==> s2[i] == s1[if i == 79 {
            0int
        } else {
            i + 1
        }],
    ensures
        forall|i: int|
            0 <= i < 80 ==> #[trigger] ext_step_spec(s2)[i] == ext_step_spec(s1)[if i == 79 {
                0int
            } else {
                i + 1
            }],
{
    assert forall|i: int| 0 <= i < 80 implies #[trigger] ext_step_spec(s2)[i] == ext_step_spec(
        s1,
    )[if i == 79 {
        0int
    } else {
        i + 1
    }] by {
        let l = if i == 0 {
            79int
        } else {
            i - 1
        };
        let r = if i == 79 {
            0int
        } else {
            i + 1
        };
        assert(s2[l] == s1[if l == 79 {
            0int
        } else {
            l + 1
        }]);
        assert(s2[i] == s1[if i == 79 {
            0int
        } else {
            i + 1
        }]);
        assert(s2[r] == s1[if r == 79 {
            0int
        } else {
            r + 1
        }]);
    }
}

} // verus!
