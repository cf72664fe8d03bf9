use xr_projection::binary32::{le, negate, INFINITY, NEG_ONE, ONE, SIGN_BIT, TWO, ZERO};

fn sample_values() -> Vec<f32> {
    let mut values = vec![
        0.0,
        -0.0,
        f32::MIN_POSITIVE,
        -f32::MIN_POSITIVE,
        f32::from_bits(1),
        f32::from_bits(0x8000_0001),
        f32::from_bits(0x007f_ffff),
        f32::from_bits(0x807f_ffff),
        f32::EPSILON,
        0.1,
        -0.1,
        0.5,
        1.0,
        -1.0,
        1.0 + f32::EPSILON,
        2.0,
        -2.0,
        3.5,
        1000.0,
        -1000.0,
        16_777_216.0,
        f32::MAX,
        f32::MIN,
        f32::INFINITY,
        f32::NEG_INFINITY,
        f32::NAN,
        -f32::NAN,
        f32::from_bits(0x7f80_0001),
        f32::from_bits(0xffff_ffff),
    ];
    let mut word: u32 = 0x1234_5678;
    for _ in 0..200 {
        word = word.wrapping_mul(1_664_525).wrapping_add(1_013_904_223);
        values.push(f32::from_bits(word));
    }
    values
}

#[test]
fn le_agrees_with_the_hardware_on_every_pair() {
    let values = sample_values();
    for a in &values {
        for b in &values {
            assert_eq!(
                le(a.to_bits(), b.to_bits()),
                a <= b,
                "{:#010x} <= {:#010x}",
                a.to_bits(),
                b.to_bits()
            );
        }
    }
}

#[test]
fn le_orders_neighbouring_encodings() {
    for exponent in 0u32..255 {
        for fraction in [0u32, 1, 0x40_0000, 0x7f_fffe] {
            let word = (exponent << 23) | fraction;
            let next = word + 1;
            assert!(le(word, next));
            assert!(!le(next, word));
            assert!(le(next | SIGN_BIT, word | SIGN_BIT));
            assert!(!le(word | SIGN_BIT, next | SIGN_BIT));
        }
    }
}

#[test]
fn le_treats_both_zeros_as_equal() {
    assert!(le(ZERO, SIGN_BIT));
    assert!(le(SIGN_BIT, ZERO));
    assert!(le(ZERO, ZERO));
    assert!(le(SIGN_BIT, SIGN_BIT));
}

#[test]
fn le_is_false_with_a_nan_on_either_side() {
    let nan = f32::NAN.to_bits();
    assert!(!le(nan, ONE));
    assert!(!le(ONE, nan));
    assert!(!le(nan, nan));
    assert!(!le(INFINITY + 1, INFINITY));
    assert!(!le(NEG_ONE, 0xffc0_0000));
}

#[test]
fn le_places_the_infinities_at_the_ends() {
    let negative_infinity = INFINITY | SIGN_BIT;
    assert!(le(f32::MAX.to_bits(), INFINITY));
    assert!(!le(INFINITY, f32::MAX.to_bits()));
    assert!(le(negative_infinity, f32::MIN.to_bits()));
    assert!(!le(f32::MIN.to_bits(), negative_infinity));
    assert!(le(INFINITY, INFINITY));
    assert!(le(negative_infinity, INFINITY));
    assert!(!le(INFINITY, negative_infinity));
}

#[test]
fn literals_encode_the_numbers_they_are_named_after() {
    assert_eq!(f32::from_bits(ZERO), 0.0);
    assert!(f32::from_bits(ZERO).is_sign_positive());
    assert_eq!(f32::from_bits(ONE), 1.0);
    assert_eq!(f32::from_bits(TWO), 2.0);
    assert_eq!(f32::from_bits(NEG_ONE), -1.0);
    assert_eq!(f32::from_bits(INFINITY), f32::INFINITY);
    assert_eq!(SIGN_BIT, (-0.0f32).to_bits());
}

#[test]
fn negate_agrees_with_the_hardware_on_every_word() {
    for value in sample_values() {
        assert_eq!(negate(value.to_bits()), (-value).to_bits());
    }
    assert_eq!(negate(ONE), NEG_ONE);
    assert_eq!(negate(NEG_ONE), ONE);
    assert_eq!(negate(ZERO), SIGN_BIT);
    assert_eq!(negate(SIGN_BIT), ZERO);
    assert_eq!(negate(INFINITY), f32::NEG_INFINITY.to_bits());
    assert_eq!(negate(0x7fc0_0001), 0xffc0_0001);
}
