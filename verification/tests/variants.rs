use rule30::{EngineError, ExtendedCAv2, ExtendedRngSeed, Rule30Compact, Rule30CompactSeed};

#[test]
fn test_extended_v2_construction() {
    let mut rng_u64 = ExtendedCAv2::seed_from_u64(42);
    assert_eq!(rng_u64.next_u64(), 6730243649896625144);
    assert_eq!(rng_u64.next_u64(), 7809676787656198888);

    let mut rng_u32 = ExtendedCAv2::seed_from_u64(42);
    assert_eq!(rng_u32.next_u32(), 4092244984);
    assert_eq!(rng_u32.next_u32(), 853314280);

    let seed: [u8; 640] = core::array::from_fn(|x| x as u8);
    let mut rng_seed = ExtendedCAv2::from_seed(ExtendedRngSeed(seed));
    assert_eq!(rng_seed.next_u64(), 4476646337808449056);

    let mut rng_double_check = ExtendedCAv2::seed_from_u64(42);
    assert_eq!(rng_double_check.next_u64(), 6730243649896625144);
}

/// The two extended variants share the seed encoding but not the output
/// stream: both the step rule and the extraction accumulation differ.
#[test]
fn test_extended_v2_differs_from_v1() {
    let mut v1 = rule30::ExtendedCA::seed_from_u64(42);
    let mut v2 = ExtendedCAv2::seed_from_u64(42);
    assert_eq!(v1.state(), v2.state());
    assert_ne!(v1.next_u64(), v2.next_u64());
}

#[test]
fn test_compact_construction() {
    let mut rng_u32 = Rule30Compact::seed_from_u64(42);
    assert_eq!(rng_u32.next_u32(), 2147483644);
    assert_eq!(rng_u32.next_u32(), 2147483644);

    let mut rng_u64 = Rule30Compact::seed_from_u64(42);
    assert_eq!(rng_u64.next_u64(), 9223372021822390268);

    let mut rng_seed = Rule30Compact::from_seed(Rule30CompactSeed([1, 2, 3, 4]));
    assert_eq!(rng_seed.next_u32(), 851860940);
    assert_eq!(rng_seed.next_u32(), 488011928);

    let mut direct = Rule30Compact::new(vec![1u32]).unwrap();
    assert_eq!(direct.next_u32(), 851130460);
}

#[test]
fn test_invalid_length_extended_v2() {
    for len in [0usize, 79, 81] {
        assert_eq!(
            ExtendedCAv2::new(vec![0u64; len]).err(),
            Some(EngineError::InvalidLength)
        );
    }
    let mut engine = ExtendedCAv2::new(vec![3u64; 80]).unwrap();
    let before = engine.state();
    for len in [0usize, 79, 81] {
        assert_eq!(
            engine.reset(vec![0u64; len]),
            Err(EngineError::InvalidLength)
        );
        assert_eq!(engine.state(), before);
    }
    assert!(engine.reset(vec![7u64; 80]).is_ok());
    assert_eq!(engine.state(), vec![7u64; 80]);
}

#[test]
fn test_invalid_length_compact() {
    for len in [0usize, 2] {
        assert_eq!(
            Rule30Compact::new(vec![0u32; len]).err(),
            Some(EngineError::InvalidLength)
        );
    }
    let mut engine = Rule30Compact::new(vec![9u32]).unwrap();
    for len in [0usize, 2] {
        assert_eq!(
            engine.reset(vec![0u32; len]),
            Err(EngineError::InvalidLength)
        );
        assert_eq!(engine.state(), vec![9u32]);
    }
    assert!(engine.reset(vec![4u32]).is_ok());
    assert_eq!(engine.state(), vec![4u32]);
}

#[test]
fn test_determinism_variants() {
    let mut a = ExtendedCAv2::seed_from_u64(9);
    let mut b = ExtendedCAv2::seed_from_u64(9);
    assert_eq!(a.next_u64(), b.next_u64());
    let mut ba = vec![0u8; 13];
    let mut bb = vec![0u8; 13];
    a.fill_bytes(&mut ba);
    b.fill_bytes(&mut bb);
    assert_eq!(ba, bb);
    assert_eq!(a.state(), b.state());

    let mut c = Rule30Compact::from_seed(Rule30CompactSeed([7, 7, 7, 7]));
    let mut d = Rule30Compact::from_seed(Rule30CompactSeed([7, 7, 7, 7]));
    assert_eq!(c.next_u64(), d.next_u64());
    let mut bc = vec![0u8; 5];
    let mut bd = vec![0u8; 5];
    c.fill_bytes(&mut bc);
    d.fill_bytes(&mut bd);
    assert_eq!(bc, bd);
    assert_eq!(c.state(), d.state());
}

/// Toroidal translation symmetry for the direct five-neighbor rule: the two
/// equal neighbor contributions cancel under exclusive or, so an all-equal
/// lattice steps to itself.
#[test]
fn test_extended_v2_translation_symmetry() {
    let w = 0xfedc_ba98_7654_3210u64;
    let mut engine = ExtendedCAv2::new(vec![w; 80]).unwrap();
    let mask = 0x1111_1111_1111_1111u64;
    let tap = w & mask;
    let expected = (((((tap << 1) | tap) << 1 | tap) << 1) | tap) << 1;
    assert_eq!(engine.next_u64(), expected);
    assert_eq!(engine.state(), vec![w; 80]);
}

/// The byte streams of the variant engines equal the little-endian bytes of
/// their output words, the final word truncated.
#[test]
fn test_fill_bytes_matches_words_variants() {
    let mut words = ExtendedCAv2::seed_from_u64(5);
    let mut expected = Vec::new();
    expected.extend_from_slice(&words.next_u64().to_le_bytes());
    expected.extend_from_slice(&words.next_u64().to_le_bytes()[..5]);
    let mut bytes = ExtendedCAv2::seed_from_u64(5);
    let mut buf = vec![0u8; 13];
    bytes.fill_bytes(&mut buf);
    assert_eq!(buf, expected);
    assert_eq!(bytes.state(), words.state());

    let mut words = Rule30Compact::new(vec![0x12345678]).unwrap();
    let mut expected = Vec::new();
    expected.extend_from_slice(&words.next_u32().to_le_bytes());
    expected.extend_from_slice(&words.next_u32().to_le_bytes()[..1]);
    let mut bytes = Rule30Compact::new(vec![0x12345678]).unwrap();
    let mut buf = vec![0u8; 5];
    bytes.fill_bytes(&mut buf);
    assert_eq!(buf, expected);
    assert_eq!(bytes.state(), words.state());
}

/// The all-zero compact seed is its default, and a zero lattice is legal
/// even though degenerate.
#[test]
fn test_compact_zero_state_is_legal() {
    assert!(Rule30CompactSeed::default().0.iter().all(|&b| b == 0));
    let mut engine = Rule30Compact::from_seed(Rule30CompactSeed::default());
    assert_eq!(engine.next_u32(), 0);
    assert_eq!(engine.state(), vec![0u32]);
}
