//! The Rule 30 cellular automaton packed into nine 32-bit words.  Each word
//! holds 29 logical cells in bits 29 down to 1 plus two staging bits: bit 30
//! is a copy of the left neighbor word's cell at bit 1 and bit 0 a copy of
//! the right neighbor word's cell at bit 29, with the lattice closed into a
//! torus: the last word is the first word's left neighbor and vice versa.
//! A transition evolves every word with
//! the Rule 30 shift formula and then re-aligns the staging bits, so each
//! word's locally stored edge bits already equal its neighbor's edge cells
//! when the next transition reads them.

use vstd::prelude::*;
use crate::EngineError;
use crate::pcg::pcg_out_at;
use crate::pcg::pcg_words32;

verus! {

/// Number of 32-bit words in the lattice.
pub const R30_WORDS: usize = 9;

/// Number of logical cells stored in the middle of each word.
pub const R30_VALID: u32 = 29;

/// Selects the marker bit read from every word during extraction.
pub const R30_MASK: u32 = 0b10;

/// The staging bit holding the copy of the left neighbor's edge cell.
pub const LEFT_MASK: u32 = 0x4000_0000;

/// The staging bit holding the copy of the right neighbor's edge cell.
pub const RIGHT_MASK: u32 = 0b1;

/// Clears the left staging bit (and the unused top bit) before re-alignment.
pub const CLEAN_LEFT: u32 = 0x3fff_ffff;

/// Clears the right staging bit before re-alignment.
pub const CLEAN_RIGHT: u32 = 0xffff_fffe;

/// Word `j` of the lattice after the boundary re-alignment pass: bit 0 is
/// replaced by bit 29 of the right neighbor and bit 30 by bit 1 of the left
/// neighbor, shifted into place, with toroidal wraparound — the last word is
/// the first word's left neighbor and vice versa — so every word's staging
/// bits equal its true toroidal neighbor's edge cells.
pub open spec fn r30_align_word(s: Seq<u32>, j: int) -> u32
    recommends
        s.len() == 9,
        0 <= j < 9,
{
    (((s[j] & CLEAN_RIGHT) | ((s[if j == 8 {
        0int
    } else {
        j + 1
    }] >> 29) & RIGHT_MASK)) & CLEAN_LEFT) | ((s[if j == 0 {
        8int
    } else {
        j - 1
    }] << 29) & LEFT_MASK)
}

/// The boundary re-alignment pass over the whole lattice.
pub open spec fn r30_align(s: Seq<u32>) -> Seq<u32>
    recommends
        s.len() == 9,
{
    Seq::new(s.len(), |j: int| r30_align_word(s, j))
}

/// Rule 30 on one word: with the left and right neighbor cells taken from
/// the adjacent bit positions of the same word, the classical rule
/// `left XOR (self OR right)` becomes a shift formula.
pub open spec fn r30_word(w: u32) -> u32 {
    (w >> 1) ^ (w | (w << 1))
}

/// One transition of the lattice: every word evolves by the Rule 30 shift
/// formula, then the staging bits are re-aligned.
pub open spec fn r30_step_spec(s: Seq<u32>) -> Seq<u32>
    recommends
        s.len() == 9,
{
    r30_align(Seq::new(s.len(), |i: int| r30_word(s[i])))
}

/// Left rotation of a 32-bit word by one position.
pub open spec fn rotl1(x: u32) -> u32 {
    (x << 1) | (x >> 31)
}

/// The accumulated record after the marker bits of the first `n` words have
/// been gathered: each word's marker bit is or-ed into the record, which is
/// then rotated left by one.
pub open spec fn r30_gather(s: Seq<u32>, rec: u32, n: int) -> u32
    recommends
        s.len() == 9,
        0 <= n <= 9,
    decreases n,
{
    if n <= 0 {
        rec
    } else {
        rotl1(r30_gather(s, rec, n - 1) | (s[n - 1] & R30_MASK))
    }
}

/// The lattice after `k` gather rounds, each followed by one transition.
pub open spec fn r30_round_state(s: Seq<u32>, k: nat) -> Seq<u32>
    recommends
        s.len() == 9,
    decreases k,
{
    if k == 0 {
        s
    } else {
        r30_step_spec(r30_round_state(s, (k - 1) as nat))
    }
}

/// The record accumulated over the first `k` gather rounds, starting from
/// zero; round `k` reads the lattice left by `k - 1` transitions.
pub open spec fn r30_record_after(s: Seq<u32>, k: nat) -> u32
    recommends
        s.len() == 9,
    decreases k,
{
    if k == 0 {
        0
    } else {
        r30_gather(r30_round_state(s, (k - 1) as nat), r30_record_after(s, (k - 1) as nat), 9)
    }
}

/// The 32-bit output of one extraction: four gather rounds.
pub open spec fn next32_out(s: Seq<u32>) -> u32 {
    r30_record_after(s, 4)
}

/// The lattice left behind by one extraction: four transitions.
pub open spec fn next32_state(s: Seq<u32>) -> Seq<u32> {
    r30_round_state(s, 4)
}

/// The lattice after `k` whole extractions.
pub open spec fn r30_state_calls(s: Seq<u32>, k: nat) -> Seq<u32>
    decreases k,
{
    if k == 0 {
        s
    } else {
        next32_state(r30_state_calls(s, (k - 1) as nat))
    }
}

/// The `k`-th 32-bit output word produced from initial lattice `s`.
pub open spec fn r30_out_at(s: Seq<u32>, k: nat) -> u32 {
    next32_out(r30_state_calls(s, k))
}

/// Byte `j` of the little-endian encoding of `w`.
pub open spec fn le_byte32(w: u32, j: int) -> u8
    recommends
        0 <= j < 4,
{
    (w >> (8 * j)) as u8
}

/// Byte `i` of the engine's output byte stream: the 32-bit output words in
/// order, each contributing its four little-endian bytes.
pub open spec fn r30_byte_at(s: Seq<u32>, i: int) -> u8
    recommends
        0 <= i,
{
    le_byte32(r30_out_at(s, (i / 4) as nat), i % 4)
}

/// The 32-bit word read little-endian from bytes `4k .. 4k + 4` of `b`.
pub open spec fn le32_at(b: Seq<u8>, k: int) -> u32
    recommends
        0 <= k,
        4 * k + 4 <= b.len(),
{
    (b[4 * k] as u32) | ((b[4 * k + 1] as u32) << 8) | ((b[4 * k + 2] as u32) << 16) | ((b[4 * k
        + 3] as u32) << 24)
}

/// The nine lattice words read little-endian from a full seed buffer.
pub open spec fn r30_words_of_bytes(b: Seq<u8>) -> Seq<u32>
    recommends
        b.len() == 36,
{
    Seq::new(9, |k: int| le32_at(b, k))
}

/// The nine lattice words drawn from the seed-expansion stream of `seed`.
pub open spec fn r30_seed_words(seed: u64) -> Seq<u32> {
    Seq::new(9, |k: int| pcg_out_at(seed, k as nat))
}

/// Pseudo-random number generator evolving the packed Rule 30 lattice.  The
/// state is the lattice plus the fixed number of gather rounds per output
/// word.
#[derive(Clone, PartialEq, Eq, Debug)]
pub struct Rule30 {
    state: Vec<u32>,
    round: usize,
}

/// A full seed for the packed Rule 30 engine: one byte buffer of exactly the
/// lattice's width, reinterpreted as little-endian 32-bit words.
#[derive(Clone, Debug)]
pub struct Rule30RngSeed(pub [u8; 36]);

impl Default for Rule30RngSeed {
    /// The all-zero seed.
    fn default() -> (r: Self)
        ensures
            r.0@ =~= Seq::new(36, |i: int| 0u8),
    {
        Rule30RngSeed([0u8; 36])
    }
}

impl View for Rule30 {
    type V = Seq<u32>;

    closed spec fn view(&self) -> Seq<u32> {
        self.state@
    }
}

impl Rule30 {
    /// The lattice always holds exactly `R30_WORDS` words, and the round
    /// count is fixed by the word width and word count.
    pub open spec fn wf(&self) -> bool {
        self@.len() == 9 && self.round() == 4
    }

    /// The number of gather rounds per output word.
    pub closed spec fn round(&self) -> int {
        self.round as int
    }

    /// Create an engine from the given lattice; the supplied array must have
    /// exactly the required length.  The staging bits of the installed
    /// lattice are aligned with their neighbors at once.
    pub fn new(state: Vec<u32>) -> (r: Result<Rule30, EngineError>)
        ensures
            r is Ok <==> state@.len() == 9,
            r is Ok ==> r->Ok_0@ == r30_align(state@) && r->Ok_0.wf(),
            r is Err ==> r->Err_0 == EngineError::InvalidLength,
    {
        if state.len() != R30_WORDS {
            Err(EngineError::InvalidLength)
        } else {
            let round: usize = (32 + 9 - 1) / 9;
            let mut r = Rule30 { state, round };
            r.align();
            Ok(r)
        }
    }

    /// A copy of the current lattice; the engine is not advanced.
    pub fn state(&self) -> (r: Vec<u32>)
        requires
            self.wf(),
        ensures
            r@ == self@,
    {
        let r = self.state.clone();
        proof {
            assert(r@ =~= self.state@);
        }
        r
    }

    /// Replace the lattice with the supplied one, re-aligning its staging
    /// bits; fails, leaving the engine untouched, unless the supplied array
    /// has exactly the required length.
    pub fn reset(&mut self, state: Vec<u32>) -> (r: Result<(), EngineError>)
        requires
            old(self).wf(),
        ensures
            final(self).wf(),
            r is Ok <==> state@.len() == 9,
            r is Ok ==> final(self)@ == r30_align(state@),
            r is Err ==> final(self)@ == old(self)@ && r->Err_0 == EngineError::InvalidLength,
    {
        if state.len() != R30_WORDS {
            Err(EngineError::InvalidLength)
        } else {
            self.state = state;
            self.align();
            Ok(())
        }
    }

    /// Construct the engine from a full seed: the bytes are read as
    /// little-endian 32-bit words and installed as the initial lattice.
    pub fn from_seed(seed: Rule30RngSeed) -> (r: Rule30)
        ensures
            r.wf(),
            r@ == r30_align(r30_words_of_bytes(seed.0@)),
    {
        let mut words: Vec<u32> = Vec::new();
        let mut k: usize = 0;
        while k < 9
            invariant
                k <= 9,
                words@.len() == k,
                forall|j: int| 0 <= j < k ==> words@[j] == le32_at(seed.0@, j),
            decreases 9 - k,
        {
            let w: u32 = (seed.0[4 * k] as u32) | ((seed.0[4 * k + 1] as u32) << 8) | ((seed.0[4 * k
                + 2] as u32) << 16) | ((seed.0[4 * k + 3] as u32) << 24);
            words.push(w);
            k = k + 1;
        }
        proof {
            assert(words@ =~= r30_words_of_bytes(seed.0@));
        }
        let round: usize = (32 + 9 - 1) / 9;
        let mut r = Rule30 { state: words, round };
        r.align();
        r
    }

    /// Construct the engine from a single 64-bit seed, expanded to the full
    /// lattice by the seed-expansion stream: lattice word `k` is stream word
    /// `k`, exactly the little-endian reading of the expanded byte buffer.
    pub fn seed_from_u64(seed: u64) -> (r: Rule30)
        ensures
            r.wf(),
            r@ == r30_align(r30_seed_words(seed)),
    {
        let words = pcg_words32(seed, 9);
        proof {
            assert(words@ =~= r30_seed_words(seed));
        }
        let round: usize = (32 + 9 - 1) / 9;
        let mut r = Rule30 { state: words, round };
        r.align();
        r
    }

    /// The boundary re-alignment pass: copy each word's edge cells into the
    /// staging bits of its toroidal neighbors, wrapping across the ends.
    fn align(&mut self)
        requires
            old(self)@.len() == 9,
        ensures
            final(self)@.len() == 9,
            final(self)@ == r30_align(old(self)@),
            final(self).round() == old(self).round(),
    {
        let snap = self.state.clone();
        proof {
            assert(snap@ =~= self.state@);
        }
        let mut next: Vec<u32> = Vec::new();
        let mut j: usize = 0;
        while j < 9
            invariant
                snap@ == old(self)@,
                snap@.len() == 9,
                j <= 9,
                next@.len() == j,
                forall|i: int| 0 <= i < j ==> next@[i] == r30_align_word(snap@, i),
            decreases 9 - j,
        {
            let right: usize = if j == 8 {
                0
            } else {
                j + 1
            };
            let left: usize = if j == 0 {
                8
            } else {
                j - 1
            };
            let w: u32 = (((snap[j] & CLEAN_RIGHT) | ((snap[right] >> R30_VALID) & RIGHT_MASK))
                & CLEAN_LEFT) | ((snap[left] << R30_VALID) & LEFT_MASK);
            next.push(w);
            j = j + 1;
        }
        self.state = next;
        proof {
            assert(self@ =~= r30_align(old(self)@));
        }
    }

    /// One transition of the lattice: the Rule 30 shift formula on every
    /// word, then the re-alignment pass.
    fn step(&mut self)
        requires
            old(self).wf(),
        ensures
            final(self).wf(),
            final(self)@ == r30_step_spec(old(self)@),
    {
        let mut next: Vec<u32> = Vec::new();
        let mut i: usize = 0;
        while i < 9
            invariant
                self.wf(),
                self@ == old(self)@,
                i <= 9,
                next@.len() == i,
                forall|j: int| 0 <= j < i ==> next@[j] == r30_word(old(self)@[j]),
            decreases 9 - i,
        {
            let w = self.state[i];
            next.push((w >> 1) ^ (w | (w << 1)));
            i = i + 1;
        }
        self.state = next;
        proof {
            assert(self@ =~= Seq::new(old(self)@.len(), |i: int| r30_word(old(self)@[i])));
        }
        self.align();
    }

    /// Produce the next 32-bit output: four gather rounds, each reading the
    /// marker bit of every word of the current lattice into the record
    /// before the lattice is advanced by one transition.
    pub fn next_u32(&mut self) -> (r: u32)
        requires
            old(self).wf(),
        ensures
            final(self).wf(),
            r == next32_out(old(self)@),
            final(self)@ == next32_state(old(self)@),
    {
        let mut record: u32 = 0;
        let mut k: usize = 0;
        let round = self.round;
        while k < round
            invariant
                self.wf(),
                round == 4,
                k <= 4,
                record == r30_record_after(old(self)@, k as nat),
                self@ == r30_round_state(old(self)@, k as nat),
            decreases round - k,
        {
            let ghost rec0 = record;
            let ghost s0 = self@;
            let mut i: usize = 0;
            while i < 9
                invariant
                    self.wf(),
                    self@ == s0,
                    i <= 9,
                    record == r30_gather(s0, rec0, i as int),
                decreases 9 - i,
            {
                let t = record | (self.state[i] & R30_MASK);
                record = (t << 1) | (t >> 31);
                i = i + 1;
            }
            self.step();
            proof {
                assert(r30_record_after(old(self)@, (k + 1) as nat) == r30_gather(
                    r30_round_state(old(self)@, k as nat),
                    r30_record_after(old(self)@, k as nat),
                    9,
                ));
                assert(r30_round_state(old(self)@, (k + 1) as nat) == r30_step_spec(
                    r30_round_state(old(self)@, k as nat),
                ));
            }
            k = k + 1;
        }
        record
    }

    /// Produce the next 64-bit output: the little-endian composition of two
    /// consecutive 32-bit outputs, the first in the low half.
    pub fn next_u64(&mut self) -> (r: u64)
        requires
            old(self).wf(),
        ensures
            final(self).wf(),
            r == ((next32_out(next32_state(old(self)@)) as u64) << 32) | (next32_out(
                old(self)@,
            ) as u64),
            final(self)@ == r30_state_calls(old(self)@, 2),
    {
        let x = self.next_u32();
        let y = self.next_u32();
        proof {
            assert(r30_state_calls(old(self)@, 1) == next32_state(r30_state_calls(old(self)@, 0)));
            assert(r30_state_calls(old(self)@, 2) == next32_state(r30_state_calls(old(self)@, 1)));
        }
        ((y as u64) << 32) | (x as u64)
    }

    /// Fill the buffer, keeping its length: 32-bit output words are produced
    /// in order and their little-endian bytes written until the buffer is
    /// full, the final word truncated if the length is not a multiple of
    /// four.
    pub fn fill_bytes(&mut self, dest: &mut Vec<u8>)
        requires
            old(self).wf(),
        ensures
            final(self).wf(),
            final(dest)@.len() == old(dest)@.len(),
            forall|i: int| 0 <= i < old(dest)@.len() ==> final(dest)@[i] == r30_byte_at(
                old(self)@,
                i,
            ),
            final(self)@ == r30_state_calls(old(self)@, ((old(dest)@.len() + 3) / 4) as nat),
    {
        let n = dest.len();
        dest.clear();
        while 4 <= n && dest.len() <= n - 4
            invariant
                self.wf(),
                dest@.len() <= n,
                dest@.len() % 4 == 0,
                self@ == r30_state_calls(old(self)@, (dest@.len() / 4) as nat),
                forall|i: int| 0 <= i < dest@.len() ==> dest@[i] == r30_byte_at(old(self)@, i),
            decreases n - dest@.len(),
        {
            let w = self.next_u32();
            let ghost calls = (dest@.len() / 4) as nat;
            proof {
                assert(r30_state_calls(old(self)@, (calls + 1) as nat) == next32_state(
                    r30_state_calls(old(self)@, calls),
                ));
            }
            let mut j: usize = 0;
            while j < 4
                invariant
                    j <= 4,
                    dest@.len() == 4 * calls + j,
                    w == r30_out_at(old(self)@, calls),
                    forall|i: int| 0 <= i < dest@.len() ==> dest@[i] == r30_byte_at(old(self)@, i),
                decreases 4 - j,
            {
                let b = #[verifier::truncate] ((w >> ((8 * j) as u32)) as u8);
                proof {
                    let i = dest@.len() as int;
                    assert(i / 4 == calls && i % 4 == j) by (nonlinear_arith)
                        requires
                            i == 4 * calls + j,
                            0 <= j < 4,
                            calls >= 0,
                    ;
                    assert(b == r30_byte_at(old(self)@, i));
                }
                dest.push(b);
                j = j + 1;
            }
        }
        if dest.len() < n {
            let w = self.next_u32();
            let ghost calls = (dest@.len() / 4) as nat;
            proof {
                assert(r30_state_calls(old(self)@, (calls + 1) as nat) == next32_state(
                    r30_state_calls(old(self)@, calls),
                ));
            }
            let mut j: usize = 0;
            while dest.len() < n
                invariant
                    self.wf(),
                    j <= 4,
                    n < 4 * calls + 4,
                    dest@.len() == 4 * calls + j,
                    dest@.len() <= n,
                    w == r30_out_at(old(self)@, calls),
                    forall|i: int| 0 <= i < dest@.len() ==> dest@[i] == r30_byte_at(old(self)@, i),
                decreases n - dest@.len(),
            {
                let b = #[verifier::truncate] ((w >> ((8 * j) as u32)) as u8);
                proof {
                    let i = dest@.len() as int;
                    assert(i / 4 == calls && i % 4 == j) by (nonlinear_arith)
                        requires
                            i == 4 * calls + j,
                            0 <= j < 4,
                            calls >= 0,
                    ;
                    assert(b == r30_byte_at(old(self)@, i));
                }
                dest.push(b);
                j = j + 1;
            }
            proof {
                assert((n + 3) / 4 == calls + 1) by (nonlinear_arith)
                    requires
                        4 * calls < n,
                        n < 4 * calls + 4,
                        calls >= 0,
                ;
            }
        }
        proof {
            if dest@.len() % 4 == 0 {
                assert((n + 3) / 4 == n / 4) by (nonlinear_arith)
                    requires
                        n >= 0,
                        n % 4 == 0,
                ;
            }
        }
    }
}

/// Determinism: every output word and every intermediate lattice is a pure
/// function of the initial lattice; engines started from equal lattices
/// produce equal output streams.
pub proof fn lemma_r30_deterministic(s1: Seq<u32>, s2: Seq<u32>, k: nat)
    requires
        s1 == s2,
    ensures
        r30_state_calls(s1, k) == r30_state_calls(s2, k),
        r30_out_at(s1, k) == r30_out_at(s2, k),
{
}

/// Extraction precedes transition: the first gather round reads the marker
/// bits of the initial lattice, so its record depends on nothing else, never
/// on a transitioned state.
pub proof fn lemma_r30_gather_reads_marker_bits(s1: Seq<u32>, s2: Seq<u32>, rec: u32, n: int)
    requires
        s1.len() == 9,
        s2.len() == 9,
        0 <= n <= 9,
        forall|i: int| 0 <= i < 9 ==> s1[i] & R30_MASK == s2[i] & R30_MASK,
    ensures
        r30_gather(s1, rec, n) == r30_gather(s2, rec, n),
    decreases n,
{
    if n > 0 {
        lemma_r30_gather_reads_marker_bits(s1, s2, rec, n - 1);
    }
}

/// The re-alignment pass never changes any word's edge cells (bit 1 and
/// bit 29): it writes only the staging bits 0 and 30 and clears the unused
/// bit 31.
proof fn lemma_r30_align_preserves_reads(s: Seq<u32>, j: int)
    requires
        s.len() == 9,
        0 <= j < 9,
    ensures
        r30_align(s)[j] & 0b10u32 == s[j] & 0b10u32,
        r30_align(s)[j] & 0x2000_0000u32 == s[j] & 0x2000_0000u32,
{
    let sl = s[if j == 0 {
        8int
    } else {
        j - 1
    }];
    let sc = s[j];
    let sr = s[if j == 8 {
        0int
    } else {
        j + 1
    }];
    assert(((((sc & 0xffff_fffeu32) | ((sr >> 29) & 0b1u32)) & 0x3fff_ffffu32) | ((sl << 29)
        & 0x4000_0000u32)) & 0b10u32 == sc & 0b10u32) by (bit_vector);
    assert(((((sc & 0xffff_fffeu32) | ((sr >> 29) & 0b1u32)) & 0x3fff_ffffu32) | ((sl << 29)
        & 0x4000_0000u32)) & 0x2000_0000u32 == sc & 0x2000_0000u32) by (bit_vector);
}

/// Boundary consistency: after the re-alignment pass every word's staging
/// bits equal its toroidal neighbors' edge cells as they now stand — bit 0
/// holds the right neighbor's bit 29 and bit 30 holds the left neighbor's
/// bit 1, the wrap pair between the first and last words included.
pub proof fn lemma_r30_align_consistent(s: Seq<u32>)
    requires
        s.len() == 9,
    ensures
        forall|j: int|
            0 <= j < 9 ==> (#[trigger] r30_align(s)[j]) & RIGHT_MASK == (r30_align(s)[if j == 8 {
                0int
            } else {
                j + 1
            }] >> 29) & RIGHT_MASK,
        forall|j: int|
            0 <= j < 9 ==> (#[trigger] r30_align(s)[j]) & LEFT_MASK == (r30_align(s)[if j == 0 {
                8int
            } else {
                j - 1
            }] << 29) & LEFT_MASK,
{
    let a = r30_align(s);
    assert forall|j: int| 0 <= j < 9 implies (#[trigger] a[j]) & RIGHT_MASK == (a[if j == 8 {
        0int
    } else {
        j + 1
    }] >> 29) & RIGHT_MASK && (#[trigger] a[j]) & LEFT_MASK == (a[if j == 0 {
        8int
    } else {
        j - 1
    }] << 29) & LEFT_MASK by {
        let jr = if j == 8 {
            0int
        } else {
            j + 1
        };
        let jl = if j == 0 {
            8int
        } else {
            j - 1
        };
        lemma_r30_align_preserves_reads(s, jr);
        lemma_r30_align_preserves_reads(s, jl);
        let sl = s[jl];
        let sc = s[j];
        let sr = s[jr];
        let ar = a[jr];
        let al = a[jl];
        assert(((((sc & 0xffff_fffeu32) | ((sr >> 29) & 0b1u32)) & 0x3fff_ffffu32) | ((sl << 29)
            & 0x4000_0000u32)) & 0b1u32 == (ar >> 29) & 0b1u32) by (bit_vector)
            requires
                ar & 0x2000_0000u32 == sr & 0x2000_0000u32,
        ;
        assert(((((sc & 0xffff_fffeu32) | ((sr >> 29) & 0b1u32)) & 0x3fff_ffffu32) | ((sl << 29)
            & 0x4000_0000u32)) & 0x4000_0000u32 == (al << 29) & 0x4000_0000u32) by (bit_vector)
            requires
                al & 0b10u32 == sl & 0b10u32,
        ;
    }
}

/// Boundary consistency, idempotence form: aligning writes only the staging
/// bits and reads only edge cells, which it never changes, so re-deriving
/// the staging bits from an aligned lattice leaves every word as it stands.
pub proof fn lemma_r30_align_idempotent(s: Seq<u32>)
    requires
        s.len() == 9,
    ensures
        r30_align(r30_align(s)) == r30_align(s),
{
    let a = r30_align(s);
    assert forall|j: int| 0 <= j < 9 implies r30_align(a)[j] == a[j] by {
        let jr = if j == 8 {
            0int
        } else {
            j + 1
        };
        let jl = if j == 0 {
            8int
        } else {
            j - 1
        };
        lemma_r30_align_preserves_reads(s, jr);
        lemma_r30_align_preserves_reads(s, jl);
        let al = a[jl];
        let ac = a[j];
        let ar = a[jr];
        let sl = s[jl];
        let sc = s[j];
        let sr = s[jr];
        assert(((((ac & 0xffff_fffeu32) | ((ar >> 29) & 0b1u32)) & 0x3fff_ffffu32) | ((al << 29)
            & 0x4000_0000u32)) == ac) by (bit_vector)
            requires
                ac == (((sc & 0xffff_fffeu32) | ((sr >> 29) & 0b1u32)) & 0x3fff_ffffu32) | ((sl
                    << 29) & 0x4000_0000u32),
                al & 0b10u32 == sl & 0b10u32,
                ar & 0x2000_0000u32 == sr & 0x2000_0000u32,
        ;
    }
    assert(r30_align(r30_align(s)) =~= r30_align(s));
}

/// Toroidal translation symmetry: a lattice whose words are all equal steps
/// to a lattice whose words are all equal — every index gets the same
/// result, the outermost words included.
pub proof fn lemma_r30_translation_symmetry(s: Seq<u32>, c: u32)
    requires
        s.len() == 9,
        forall|i: int| 0 <= i < 9 ==> s[i] == c,
    ensures
        forall|i: int| 0 <= i < 9 ==> #[trigger] r30_step_spec(s)[i] == r30_step_spec(s)[0],
{
    let m = Seq::new(s.len(), |i: int| r30_word(s[i]));
    assert forall|i: int| 0 <= i < 9 implies #[trigger] r30_step_spec(s)[i] == r30_step_spec(
        s,
    )[0] by {
        assert(m[i] == r30_word(c));
        assert(forall|x: int| 0 <= x < 9 ==> m[x] == r30_word(c));
        assert(r30_step_spec(s)[i] == r30_align_word(m, i));
        assert(r30_step_spec(s)[0] == r30_align_word(m, 0));
    }
}

/// Extraction precedes transition, at the round level: the record gathered
/// over the first round is a function of the initial lattice's marker bits
/// alone, read before any transition of the call.
pub proof fn lemma_r30_first_round_from_initial_markers(s1: Seq<u32>, s2: Seq<u32>)
    requires
        s1.len() == 9,
        s2.len() == 9,
        forall|i: int| 0 <= i < 9 ==> s1[i] & R30_MASK == s2[i] & R30_MASK,
    ensures
        r30_record_after(s1, 1) == r30_record_after(s2, 1),
{
    assert(r30_round_state(s1, 0) == s1 && r30_round_state(s2, 0) == s2);
    assert(r30_record_after(s1, 1) == r30_gather(s1, r30_record_after(s1, 0), 9));
    assert(r30_record_after(s2, 1) == r30_gather(s2, r30_record_after(s2, 0), 9));
    lemma_r30_gather_reads_marker_bits(s1, s2, 0, 9);
}

} // verus!
