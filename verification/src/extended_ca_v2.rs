//! The second extended five-neighbor cellular automaton: the same toroidal
//! lattice of eighty 64-bit words, but with the five neighbors taken
//! directly from the two adjacent words on each side through a two-word
//! halo, with no rotation trick.  Its output stream is deliberately not
//! compatible with the first variant's: both the step rule and the
//! extraction accumulation order differ.

use vstd::prelude::*;
use crate::EngineError;
use crate::extended_ca::EXT_MASK;
use crate::extended_ca::EXT_WORDS;
use crate::extended_ca::ext_seed_words;
use crate::extended_ca::ext_words_of_bytes;
use crate::extended_ca::le_byte64;
use crate::extended_ca::ExtendedRngSeed;
use crate::pcg::pcg_words64;

verus! {

/// The direct five-neighbor rule, evaluated per word, grouped strictly left
/// to right: `((left2 OR left1) XOR self) XOR (right1 OR right2)`.
pub open spec fn ext2_rule(l2: u64, l1: u64, c: u64, r1: u64, r2: u64) -> u64 {
    ((l2 | l1) ^ c) ^ (r1 | r2)
}

/// One transition of the whole lattice with toroidal wraparound two words
/// deep on each side.
pub open spec fn ext2_step_spec(s: Seq<u64>) -> Seq<u64> {
    Seq::new(
        s.len(),
        |i: int|
            ext2_rule(
                s[if i >= 2 { i - 2 } else { i + s.len() - 2 }],
                s[if i >= 1 { i - 1 } else { i + s.len() - 1 }],
                s[i],
                s[if i < s.len() - 1 { i + 1 } else { i - s.len() + 1 }],
                s[if i < s.len() - 2 { i + 2 } else { i - s.len() + 2 }],
            ),
    )
}

/// The output word read from the current lattice: every fourth bit of the
/// four tapped words, accumulated or-then-shift, so the record is shifted
/// once more after the last tap.
pub open spec fn ext2_output_spec(s: Seq<u64>) -> u64
    recommends
        s.len() == 80,
{
    (((((((s[16] & EXT_MASK) << 1) | (s[32] & EXT_MASK)) << 1) | (s[48] & EXT_MASK)) << 1) | (
    s[54] & EXT_MASK)) << 1
}

/// The lattice after `k` transitions.
pub open spec fn ext2_state_after(s: Seq<u64>, k: nat) -> Seq<u64>
    decreases k,
{
    if k == 0 {
        s
    } else {
        ext2_step_spec(ext2_state_after(s, (k - 1) as nat))
    }
}

/// The `k`-th output word produced from initial lattice `s`.
pub open spec fn ext2_out_at(s: Seq<u64>, k: nat) -> u64 {
    ext2_output_spec(ext2_state_after(s, k))
}

/// Byte `i` of the engine's output byte stream.
pub open spec fn ext2_byte_at(s: Seq<u64>, i: int) -> u8
    recommends
        0 <= i,
{
    le_byte64(ext2_out_at(s, (i / 8) as nat), i % 8)
}

/// Pseudo-random number generator evolving the direct five-neighbor
/// cellular automaton.  The sole state is the lattice itself.
#[derive(Clone, PartialEq, Eq, Debug)]
pub struct ExtendedCAv2 {
    state: Vec<u64>,
}

impl View for ExtendedCAv2 {
    type V = Seq<u64>;

    closed spec fn view(&self) -> Seq<u64> {
        self.state@
    }
}

impl ExtendedCAv2 {
    /// The lattice always holds exactly `EXT_WORDS` words.
    pub open spec fn wf(&self) -> bool {
        self@.len() == 80
    }

    /// Create an engine from the given lattice; the supplied array must have
    /// exactly the required length, and is installed unchanged.
    pub fn new(state: Vec<u64>) -> (r: Result<ExtendedCAv2, EngineError>)
        ensures
            r is Ok <==> state@.len() == 80,
            r is Ok ==> r->Ok_0@ == state@ && r->Ok_0.wf(),
            r is Err ==> r->Err_0 == EngineError::InvalidLength,
    {
        if state.len() != EXT_WORDS {
            Err(EngineError::InvalidLength)
        } else {
            Ok(ExtendedCAv2 { state })
        }
    }

    /// A copy of the current lattice; the engine is not advanced.
    pub fn state(&self) -> (r: Vec<u64>)
        requires
            self.wf(),
        ensures
            r@ == self@,
    {
        let r = self.state.clone();
        proof {
            assert(r@ =~= self.state@);
        }
        r
    }

    /// Replace the lattice with the supplied one; fails, leaving the engine
    /// untouched, unless the supplied array has exactly the required length.
    pub fn reset(&mut self, state: Vec<u64>) -> (r: Result<(), EngineError>)
        requires
            old(self).wf(),
        ensures
            final(self).wf(),
            r is Ok <==> state@.len() == 80,
            r is Ok ==> final(self)@ == state@,
            r is Err ==> final(self)@ == old(self)@ && r->Err_0 == EngineError::InvalidLength,
    {
        if state.len() != EXT_WORDS {
            Err(EngineError::InvalidLength)
        } else {
            self.state = state;
            Ok(())
        }
    }

    /// Construct the engine from a full seed: the bytes are read as
    /// little-endian 64-bit words and installed as the initial lattice.
    /// The seed encoding is shared with the first extended variant.
    pub fn from_seed(seed: ExtendedRngSeed) -> (r: ExtendedCAv2)
        ensures
            r.wf(),
            r@ == ext_words_of_bytes(seed.0@),
    {
        let mut words: Vec<u64> = Vec::new();
        let mut k: usize = 0;
        while k < 80
            invariant
                k <= 80,
                words@.len() == k,
                forall|j: int| 0 <= j < k ==> words@[j] == ext_words_of_bytes(seed.0@)[j],
            decreases 80 - k,
        {
            let w: u64 = (seed.0[8 * k] as u64) | ((seed.0[8 * k + 1] as u64) << 8) | ((seed.0[8 * k
                + 2] as u64) << 16) | ((seed.0[8 * k + 3] as u64) << 24) | ((seed.0[8 * k
                + 4] as u64) << 32) | ((seed.0[8 * k + 5] as u64) << 40) | ((seed.0[8 * k
                + 6] as u64) << 48) | ((seed.0[8 * k + 7] as u64) << 56);
            words.push(w);
            k = k + 1;
        }
        proof {
            assert(words@ =~= ext_words_of_bytes(seed.0@));
        }
        ExtendedCAv2 { state: words }
    }

    /// Construct the engine from a single 64-bit seed, expanded to the full
    /// lattice by the seed-expansion stream, exactly as for the first
    /// extended variant.
    pub fn seed_from_u64(seed: u64) -> (r: ExtendedCAv2)
        ensures
            r.wf(),
            r@ == ext_seed_words(seed),
    {
        let words = pcg_words64(seed, 80);
        proof {
            assert(words@ =~= ext_seed_words(seed));
        }
        ExtendedCAv2 { state: words }
    }

    /// The lattice extended by two words on each side, copied from the
    /// opposite end, so that every real word sees both toroidal neighbors on
    /// each side at adjacent indices.
    fn extend_state(&self) -> (r: Vec<u64>)
        requires
            self.wf(),
        ensures
            r@.len() == 84,
            r@[0] == self@[78],
            r@[1] == self@[79],
            r@[82] == self@[0],
            r@[83] == self@[1],
            forall|i: int| 0 <= i < 80 ==> r@[i + 2] == self@[i],
    {
        let mut extend: Vec<u64> = Vec::new();
        extend.push(self.state[78]);
        extend.push(self.state[79]);
        let mut i: usize = 0;
        while i < 80
            invariant
                self.wf(),
                i <= 80,
                extend@.len() == i + 2,
                extend@[0] == self@[78],
                extend@[1] == self@[79],
                forall|j: int| 0 <= j < i ==> extend@[j + 2] == self@[j],
            decreases 80 - i,
        {
            extend.push(self.state[i]);
            i = i + 1;
        }
        extend.push(self.state[0]);
        extend.push(self.state[1]);
        extend
    }

    /// One transition of the lattice under the direct five-neighbor rule.
    fn step(&mut self)
        requires
            old(self).wf(),
        ensures
            final(self).wf(),
            final(self)@ == ext2_step_spec(old(self)@),
    {
        let extend = self.extend_state();
        let mut next: Vec<u64> = Vec::new();
        let mut i: usize = 0;
        while i < 80
            invariant
                self.wf(),
                self@ == old(self)@,
                i <= 80,
                next@.len() == i,
                extend@.len() == 84,
                extend@[0] == self@[78],
                extend@[1] == self@[79],
                extend@[82] == self@[0],
                extend@[83] == self@[1],
                forall|j: int| 0 <= j < 80 ==> extend@[j + 2] == self@[j],
                forall|j: int| 0 <= j < i ==> next@[j] == ext2_step_spec(self@)[j],
            decreases 80 - i,
        {
            let l2 = extend[i];
            let l1 = extend[i + 1];
            let c = extend[i + 2];
            let r1 = extend[i + 3];
            let r2 = extend[i + 4];
            let w = ((l2 | l1) ^ c) ^ (r1 | r2);
            proof {
                assert(extend@[i as int] == self@[
                    if i >= 2 {
                        i - 2
                    } else {
                        i + 78
                    }
                ]);
                assert(extend@[i + 1] == self@[
                    if i >= 1 {
                        i - 1
                    } else {
                        i + 79
                    }
                ]);
                assert(extend@[i + 3] == self@[
                    if i < 79 {
                        i + 1
                    } else {
                        i - 79
                    }
                ]);
                assert(extend@[i + 4] == self@[
                    if i < 78 {
                        i + 2
                    } else {
                        i - 78
                    }
                ]);
                assert(w == ext2_step_spec(self@)[i as int]);
            }
            next.push(w);
            i = i + 1;
        }
        self.state = next;
        proof {
            assert(self@ =~= ext2_step_spec(old(self)@));
        }
    }

    /// Produce the next 64-bit output: read the tapped bits of the current
    /// lattice, then advance the lattice by one transition.
    pub fn next_u64(&mut self) -> (r: u64)
        requires
            old(self).wf(),
        ensures
            final(self).wf(),
            r == ext2_output_spec(old(self)@),
            final(self)@ == ext2_step_spec(old(self)@),
    {
        let t0 = self.state[16] & EXT_MASK;
        let t1 = self.state[32] & EXT_MASK;
        let t2 = self.state[48] & EXT_MASK;
        let t3 = self.state[54] & EXT_MASK;
        let num = (((((t0 << 1) | t1) << 1) | t2) << 1 | t3) << 1;
        self.step();
        num
    }

    /// Produce the next 32-bit output: the low half of the next 64-bit
    /// output word.
    pub fn next_u32(&mut self) -> (r: u32)
        requires
            old(self).wf(),
        ensures
            final(self).wf(),
            r == ext2_output_spec(old(self)@) as u32,
            final(self)@ == ext2_step_spec(old(self)@),
    {
        let w = self.next_u64();
        #[verifier::truncate] (w as u32)
    }

    /// Fill the buffer, keeping its length: output words are produced in
    /// order and their little-endian bytes written until the buffer is full,
    /// the final word truncated if the length is not a multiple of eight.
    pub fn fill_bytes(&mut self, dest: &mut Vec<u8>)
        requires
            old(self).wf(),
        ensures
            final(self).wf(),
            final(dest)@.len() == old(dest)@.len(),
            forall|i: int| 0 <= i < old(dest)@.len() ==> final(dest)@[i] == ext2_byte_at(
                old(self)@,
                i,
            ),
            final(self)@ == ext2_state_after(old(self)@, ((old(dest)@.len() + 7) / 8) as nat),
    {
        let n = dest.len();
        dest.clear();
        while 8 <= n && dest.len() <= n - 8
            invariant
                self.wf(),
                dest@.len() <= n,
                dest@.len() % 8 == 0,
                self@ == ext2_state_after(old(self)@, (dest@.len() / 8) as nat),
                forall|i: int| 0 <= i < dest@.len() ==> dest@[i] == ext2_byte_at(old(self)@, i),
            decreases n - dest@.len(),
        {
            let w = self.next_u64();
            let ghost calls = (dest@.len() / 8) as nat;
            proof {
                assert(ext2_state_after(old(self)@, (calls + 1) as nat) == ext2_step_spec(
                    ext2_state_after(old(self)@, calls),
                ));
            }
            let mut j: usize = 0;
            while j < 8
                invariant
                    j <= 8,
                    dest@.len() == 8 * calls + j,
                    w == ext2_out_at(old(self)@, calls),
                    forall|i: int| 0 <= i < dest@.len() ==> dest@[i] == ext2_byte_at(old(self)@, i),
                decreases 8 - j,
            {
                let b = #[verifier::truncate] ((w >> ((8 * j) as u64)) as u8);
                proof {
                    let i = dest@.len() as int;
                    assert(i / 8 == calls && i % 8 == j) by (nonlinear_arith)
                        requires
                            i == 8 * calls + j,
                            0 <= j < 8,
                            calls >= 0,
                    ;
                    assert(b == ext2_byte_at(old(self)@, i));
                }
                dest.push(b);
                j = j + 1;
            }
        }
        if dest.len() < n {
            let w = self.next_u64();
            let ghost calls = (dest@.len() / 8) as nat;
            proof {
                assert(ext2_state_after(old(self)@, (calls + 1) as nat) == ext2_step_spec(
                    ext2_state_after(old(self)@, calls),
                ));
            }
            let mut j: usize = 0;
            while dest.len() < n
                invariant
                    self.wf(),
                    j <= 8,
                    n < 8 * calls + 8,
                    dest@.len() == 8 * calls + j,
                    dest@.len() <= n,
                    w == ext2_out_at(old(self)@, calls),
                    forall|i: int| 0 <= i < dest@.len() ==> dest@[i] == ext2_byte_at(old(self)@, i),
                decreases n - dest@.len(),
            {
                let b = #[verifier::truncate] ((w >> ((8 * j) as u64)) as u8);
                proof {
                    let i = dest@.len() as int;
                    assert(i / 8 == calls && i % 8 == j) by (nonlinear_arith)
                        requires
                            i == 8 * calls + j,
                            0 <= j < 8,
                            calls >= 0,
                    ;
                    assert(b == ext2_byte_at(old(self)@, i));
                }
                dest.push(b);
                j = j + 1;
            }
            proof {
                assert((n + 7) / 8 == calls + 1) by (nonlinear_arith)
                    requires
                        8 * calls < n,
                        n < 8 * calls + 8,
                        calls >= 0,
                ;
            }
        }
        proof {
            if dest@.len() % 8 == 0 {
                assert((n + 7) / 8 == n / 8) by (nonlinear_arith)
                    requires
                        n >= 0,
                        n % 8 == 0,
                ;
            }
        }
    }
}

/// Determinism: every output word and every intermediate lattice is a pure
/// function of the initial lattice; engines started from equal lattices
/// produce equal output streams.
pub proof fn lemma_ext2_deterministic(s1: Seq<u64>, s2: Seq<u64>, k: nat)
    requires
        s1 == s2,
    ensures
        ext2_state_after(s1, k) == ext2_state_after(s2, k),
        ext2_out_at(s1, k) == ext2_out_at(s2, k),
{
}

/// Extraction precedes transition: the first output word depends only on
/// the masked bits of the four tapped words of the initial lattice, never
/// on a transitioned state.
pub proof fn lemma_ext2_first_output_from_taps(s1: Seq<u64>, s2: Seq<u64>)
    requires
        s1.len() == 80,
        s2.len() == 80,
        s1[16] & EXT_MASK == s2[16] & EXT_MASK,
        s1[32] & EXT_MASK == s2[32] & EXT_MASK,
        s1[48] & EXT_MASK == s2[48] & EXT_MASK,
        s1[54] & EXT_MASK == s2[54] & EXT_MASK,
    ensures
        ext2_output_spec(s1) == ext2_output_spec(s2),
{
}

/// Toroidal translation symmetry, uniform case: a lattice whose words are
/// all equal is a fixed point of the step — every index gets the same
/// result, boundary words included, since the two equal neighbor
/// contributions cancel under exclusive or.
pub proof fn lemma_ext2_translation_symmetry(s: Seq<u64>, w: u64)
    requires
        s.len() == 80,
        forall|i: int| 0 <= i < 80 ==> s[i] == w,
    ensures
        forall|i: int| 0 <= i < 80 ==> #[trigger] ext2_step_spec(s)[i] == w,
{
    assert((((w | w) ^ w) ^ (w | w)) == w) by (bit_vector);
}

/// Toroidal translation symmetry, general case: the step commutes with a
/// cyclic rotation of the word array.  If `s2` is `s1` rotated by one
/// position, the stepped `s2` is the stepped `s1` rotated by one position.
pub proof fn lemma_ext2_step_commutes_with_rotation(s1: Seq<u64>, s2: Seq<u64>)
    requires
        s1.len() == 80,
        s2.len() == 80,
        forall|i: int| 0 <= i < 80 ==> s2[i] == s1[if i == 79 {
            0int
        } else {
            i + 1
        }],
    ensures
        forall|i: int|
            0 <= i < 80 ==> #[trigger] ext2_step_spec(s2)[i] == ext2_step_spec(s1)[if i == 79 {
                0int
            } else {
                i + 1
            }],
{
    assert forall|i: int| 0 <= i < 80 implies #[trigger] ext2_step_spec(s2)[i] == ext2_step_spec(
        s1,
    )[if i == 79 {
        0int
    } else {
        i + 1
    }] by {
        let l2 = if i >= 2 {
            i - 2
        } else {
            i + 78
        };
        let l1 = if i >= 1 {
            i - 1
        } else {
            i + 79
        };
        let r1 = if i < 79 {
            i + 1
        } else {
            i - 79
        };
        let r2 = if i < 78 {
            i + 2
        } else {
            i - 78
        };
        assert(s2[l2] == s1[if l2 == 79 {
            0int
        } else {
            l2 + 1
        }]);
        assert(s2[l1] == s1[if l1 == 79 {
            0int
        } else {
            l1 + 1
        }]);
        assert(s2[i] == s1[if i == 79 {
            0int
        } else {
            i + 1
        }]);
        assert(s2[r1] == s1[if r1 == 79 {
            0int
        } else {
            r1 + 1
        }]);
        assert(s2[r2] == s1[if r2 == 79 {
            0int
        } else {
            r2 + 1
        }]);
    }
}

} // verus!
