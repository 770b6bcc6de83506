use rand_core::{RngCore, SeedableRng};
use rule30::{EngineError, ExtendedCA, ExtendedRngSeed, Rule30, Rule30RngSeed};

/// Fill a byte buffer from an engine, as a reseeding consumer would.
fn extended_seed_from(rng: &mut ExtendedCA) -> ExtendedRngSeed {
    let mut buf = vec![0u8; 640];
    rng.fill_bytes(&mut buf);
    let mut arr = [0u8; 640];
    arr.copy_from_slice(&buf);
    ExtendedRngSeed(arr)
}

fn rule30_seed_from(rng: &mut Rule30) -> Rule30RngSeed {
    let mut buf = vec![0u8; 36];
    rng.fill_bytes(&mut buf);
    let mut arr = [0u8; 36];
    arr.copy_from_slice(&buf);
    Rule30RngSeed(arr)
}

#[test]
fn test_extended_ca_construction() {
    let mut rng_u64 = ExtendedCA::seed_from_u64(42);
    assert_eq!(rng_u64.next_u64(), 12588493861803088380);
    assert_eq!(rng_u64.next_u64(), 13092609834719595470);

    let mut rng_u32 = ExtendedCA::seed_from_u64(42);
    assert_eq!(rng_u32.next_u32(), 2046122492);
    assert_eq!(rng_u32.next_u32(), 3980348366);

    let mut rng_gen = ExtendedCA::from_seed(extended_seed_from(&mut rng_u64));
    assert_eq!(rng_gen.next_u64(), 9131884500388100982);

    let seed: [u8; 640] = core::array::from_fn(|x| x as u8);
    let mut rng_seed = ExtendedCA::from_seed(ExtendedRngSeed(seed));
    assert_eq!(rng_seed.next_u64(), 2238323168904224528);

    let mut rng_double_check = ExtendedCA::seed_from_u64(42);
    assert_eq!(rng_double_check.next_u64(), 12588493861803088380);
}

#[test]
fn test_rule30_construction() {
    let mut rng_u32 = Rule30::seed_from_u64(42);
    assert_eq!(rng_u32.next_u32(), 934717802);
    assert_eq!(rng_u32.next_u32(), 4047338106);

    let mut rng_u64 = Rule30::seed_from_u64(42);
    assert_eq!(rng_u64.next_u64(), 17383184802059299178);
    assert_eq!(rng_u64.next_u64(), 11375237496580628621);

    let mut rng_gen = Rule30::from_seed(rule30_seed_from(&mut rng_u32));
    assert_eq!(rng_gen.next_u32(), 1506692364);

    let seed: [u8; 36] = core::array::from_fn(|x| x as u8);
    let mut rng_seed = Rule30::from_seed(Rule30RngSeed(seed));
    assert_eq!(rng_seed.next_u32(), 176394664);

    let mut rng_double_check = Rule30::seed_from_u64(42);
    assert_eq!(rng_double_check.next_u32(), 934717802);
}

/// The integer-seed expansion matches the standard seed-expansion stream:
/// capturing the bytes that `rand_core`'s `seed_from_u64` hands to
/// `from_seed` and feeding them to the library reproduces the library's own
/// `seed_from_u64` lattice, for both engines.
struct SeedCapture640([u8; 640]);

struct Seed640([u8; 640]);

impl Default for Seed640 {
    fn default() -> Self {
        Seed640([0u8; 640])
    }
}

impl AsMut<[u8]> for Seed640 {
    fn as_mut(&mut self) -> &mut [u8] {
        &mut self.0
    }
}

impl AsRef<[u8]> for Seed640 {
    fn as_ref(&self) -> &[u8] {
        &self.0
    }
}

impl SeedableRng for SeedCapture640 {
    type Seed = Seed640;

    fn from_seed(seed: Seed640) -> Self {
        SeedCapture640(seed.0)
    }
}

impl RngCore for SeedCapture640 {
    fn next_u32(&mut self) -> u32 {
        0
    }

    fn next_u64(&mut self) -> u64 {
        0
    }

    fn fill_bytes(&mut self, _dest: &mut [u8]) {}

    fn try_fill_bytes(&mut self, _dest: &mut [u8]) -> Result<(), rand_core::Error> {
        Ok(())
    }
}

struct SeedCapture36([u8; 36]);

struct Seed36([u8; 36]);

impl Default for Seed36 {
    fn default() -> Self {
        Seed36([0u8; 36])
    }
}

impl AsMut<[u8]> for Seed36 {
    fn as_mut(&mut self) -> &mut [u8] {
        &mut self.0
    }
}

impl AsRef<[u8]> for Seed36 {
    fn as_ref(&self) -> &[u8] {
        &self.0
    }
}

impl SeedableRng for SeedCapture36 {
    type Seed = Seed36;

    fn from_seed(seed: Seed36) -> Self {
        SeedCapture36(seed.0)
    }
}

impl RngCore for SeedCapture36 {
    fn next_u32(&mut self) -> u32 {
        0
    }

    fn next_u64(&mut self) -> u64 {
        0
    }

    fn fill_bytes(&mut self, _dest: &mut [u8]) {}

    fn try_fill_bytes(&mut self, _dest: &mut [u8]) -> Result<(), rand_core::Error> {
        Ok(())
    }
}

#[test]
fn test_seed_expansion_matches_rand_core() {
    for seed in [0u64, 1, 42, u64::MAX] {
        let captured = SeedCapture640::seed_from_u64(seed).0;
        let from_bytes = ExtendedCA::from_seed(ExtendedRngSeed(captured));
        let direct = ExtendedCA::seed_from_u64(seed);
        assert_eq!(from_bytes.state(), direct.state());

        let captured = SeedCapture36::seed_from_u64(seed).0;
        let from_bytes = Rule30::from_seed(Rule30RngSeed(captured));
        let direct = Rule30::seed_from_u64(seed);
        assert_eq!(from_bytes.state(), direct.state());
    }
}

#[test]
fn test_determinism_extended() {
    let mut a = ExtendedCA::seed_from_u64(7);
    let mut b = ExtendedCA::seed_from_u64(7);
    assert_eq!(a.next_u64(), b.next_u64());
    assert_eq!(a.next_u32(), b.next_u32());
    let mut ba = vec![0u8; 19];
    let mut bb = vec![0u8; 19];
    a.fill_bytes(&mut ba);
    b.fill_bytes(&mut bb);
    assert_eq!(ba, bb);
    assert_eq!(a.state(), b.state());
}

#[test]
fn test_determinism_rule30() {
    let mut a = Rule30::seed_from_u64(7);
    let mut b = Rule30::seed_from_u64(7);
    assert_eq!(a.next_u32(), b.next_u32());
    assert_eq!(a.next_u64(), b.next_u64());
    let mut ba = vec![0u8; 11];
    let mut bb = vec![0u8; 11];
    a.fill_bytes(&mut ba);
    b.fill_bytes(&mut bb);
    assert_eq!(ba, bb);
    assert_eq!(a.state(), b.state());
}

#[test]
fn test_invalid_length_extended() {
    for len in [0usize, 79, 81] {
        assert_eq!(
            ExtendedCA::new(vec![0u64; len]).err(),
            Some(EngineError::InvalidLength)
        );
    }
    let mut engine = ExtendedCA::seed_from_u64(3);
    let before = engine.state();
    for len in [0usize, 79, 81] {
        assert_eq!(
            engine.reset(vec![0u64; len]),
            Err(EngineError::InvalidLength)
        );
        assert_eq!(engine.state(), before);
    }
    assert!(engine.reset(vec![5u64; 80]).is_ok());
    assert_eq!(engine.state(), vec![5u64; 80]);
}

#[test]
fn test_invalid_length_rule30() {
    for len in [0usize, 8, 10] {
        assert_eq!(
            Rule30::new(vec![0u32; len]).err(),
            Some(EngineError::InvalidLength)
        );
    }
    let mut engine = Rule30::seed_from_u64(3);
    let before = engine.state();
    for len in [0usize, 8, 10] {
        assert_eq!(
            engine.reset(vec![0u32; len]),
            Err(EngineError::InvalidLength)
        );
        assert_eq!(engine.state(), before);
    }
    assert!(engine.reset(vec![0u32; 9]).is_ok());
}

/// Extraction precedes transition: the first output word after direct
/// construction is computed from the tapped words of the supplied lattice
/// alone, here checked against a hand-computed value.
#[test]
fn test_extended_first_output_from_initial_state() {
    let mut state = vec![0u64; 80];
    state[16] = 0x1;
    state[32] = 0x10;
    state[48] = 0x100;
    state[54] = 0x1000;
    // Fill the untapped words arbitrarily; they must not affect the first
    // output.
    state[0] = 0xdead_beef;
    state[79] = 0xffff_ffff_ffff_ffff;
    let mut engine = ExtendedCA::new(state).unwrap();
    // ((((0x1 << 1) | 0x10) << 1 | 0x100) << 1) | 0x1000
    assert_eq!(engine.next_u64(), 0x1248);
}

/// 64-from-32 composition for the 32-bit-native engine: `next_u64` equals
/// the little-endian pairing of two consecutive `next_u32` outputs of an
/// equally seeded instance.
#[test]
fn test_rule30_u64_from_two_u32() {
    for seed in [0u64, 42, 1234567] {
        let mut words = Rule30::seed_from_u64(seed);
        let mut pair = Rule30::seed_from_u64(seed);
        let lo = pair.next_u32() as u64;
        let hi = pair.next_u32() as u64;
        assert_eq!(words.next_u64(), (hi << 32) | lo);
        assert_eq!(words.state(), pair.state());
    }
}


/// Toroidal translation symmetry for the packed engine: a lattice whose
/// words are all equal stays uniform across alignment and transitions,
/// the outermost words included.
#[test]
fn test_rule30_translation_symmetry() {
    let mut engine = Rule30::new(vec![0x7fff_ffff_u32; 9]).unwrap();
    let aligned = engine.state();
    assert!(aligned.iter().all(|&w| w == aligned[0]));
    engine.next_u32();
    let stepped = engine.state();
    assert!(stepped.iter().all(|&w| w == stepped[0]));
}

/// Toroidal translation symmetry: a lattice whose words are all equal steps
/// to itself under the five-neighbor rule, since the two equal neighbor
/// contributions cancel under exclusive or.
#[test]
fn test_extended_translation_symmetry() {
    let w = 0x0123_4567_89ab_cdefu64;
    let mut engine = ExtendedCA::new(vec![w; 80]).unwrap();
    let mask = 0x1111_1111_1111_1111u64;
    let tap = w & mask;
    let expected = ((((tap << 1) | tap) << 1 | tap) << 1) | tap;
    assert_eq!(engine.next_u64(), expected);
    assert_eq!(engine.state(), vec![w; 80]);
    // Every subsequent output is therefore identical as well.
    assert_eq!(engine.next_u64(), expected);
}

/// The byte stream equals the little-endian bytes of the output words, the
/// final word truncated.
#[test]
fn test_fill_bytes_matches_words_extended() {
    let mut words = ExtendedCA::seed_from_u64(42);
    let mut expected = Vec::new();
    expected.extend_from_slice(&words.next_u64().to_le_bytes());
    expected.extend_from_slice(&words.next_u64().to_le_bytes()[..4]);
    let mut bytes = ExtendedCA::seed_from_u64(42);
    let mut buf = vec![0u8; 12];
    bytes.fill_bytes(&mut buf);
    assert_eq!(buf, expected);
    assert_eq!(bytes.state(), words.state());
}

#[test]
fn test_fill_bytes_matches_words_rule30() {
    let mut words = Rule30::seed_from_u64(42);
    let mut expected = Vec::new();
    expected.extend_from_slice(&words.next_u32().to_le_bytes());
    expected.extend_from_slice(&words.next_u32().to_le_bytes()[..3]);
    let mut bytes = Rule30::seed_from_u64(42);
    let mut buf = vec![0u8; 7];
    bytes.fill_bytes(&mut buf);
    assert_eq!(buf, expected);
    assert_eq!(bytes.state(), words.state());
    // An empty buffer consumes nothing.
    let mut untouched = Rule30::seed_from_u64(42);
    let mut empty: Vec<u8> = Vec::new();
    untouched.fill_bytes(&mut empty);
    assert_eq!(empty.len(), 0);
    assert_eq!(untouched.state(), Rule30::seed_from_u64(42).state());
}

/// Direct construction installs the supplied lattice unchanged for the
/// extended engine, and `state` reads it back without advancing.
#[test]
fn test_state_snapshot_roundtrip() {
    let lattice: Vec<u64> = (0..80u64).collect();
    let engine = ExtendedCA::new(lattice.clone()).unwrap();
    assert_eq!(engine.state(), lattice);
    assert_eq!(engine.state(), lattice);

    // The packed Rule 30 engine aligns the staging bits on installation;
    // re-aligning an aligned lattice changes nothing.
    let words: Vec<u32> = (0..9u32).map(|x| x.wrapping_mul(0x9e3779b9)).collect();
    let first = Rule30::new(words).unwrap();
    let aligned = first.state();
    let second = Rule30::new(aligned.clone()).unwrap();
    assert_eq!(second.state(), aligned);
}

/// The all-zero seed types are their defaults.
#[test]
fn test_seed_defaults_are_zero() {
    assert!(ExtendedRngSeed::default().0.iter().all(|&b| b == 0));
    assert!(Rule30RngSeed::default().0.iter().all(|&b| b == 0));
}
