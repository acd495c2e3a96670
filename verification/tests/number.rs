use phosphorus::rtr::number::Number;

fn n(x: f32) -> Number {
    Number { bits: x.to_bits() }
}

#[test]
fn from_u32_matches_the_machine_on_small_numbers() {
    for v in 0u32..5000 {
        assert_eq!(Number::from_u32(v).bits, (v as f32).to_bits(), "{}", v);
    }
}

#[test]
fn from_u32_exact_values() {
    assert_eq!(Number::from_u32(0).bits, 0);
    assert_eq!(Number::from_u32(1).bits, 0x3f80_0000);
    assert_eq!(Number::from_u32(2).bits, 0x4000_0000);
    assert_eq!(Number::from_u32(3).bits, 0x4040_0000);
    assert_eq!(Number::from_u32(16_777_216).bits, 0x4b80_0000);
}

#[test]
fn from_u32_rounds_to_nearest_with_ties_to_even() {
    assert_eq!(Number::from_u32(16_777_217).bits, (16_777_216f32).to_bits());
    assert_eq!(Number::from_u32(16_777_218).bits, (16_777_218f32).to_bits());
    assert_eq!(Number::from_u32(16_777_219).bits, (16_777_220f32).to_bits());
    assert_eq!(Number::from_u32(2_147_483_647).bits, (2_147_483_648f32).to_bits());
    assert_eq!(Number::from_u32(u32::MAX).bits, (4_294_967_296f32).to_bits());
}

#[test]
fn from_u32_matches_the_machine_on_scattered_numbers() {
    let mut v: u32 = 12345;
    for _ in 0..20000 {
        v = v.wrapping_mul(1_664_525).wrapping_add(1_013_904_223);
        assert_eq!(Number::from_u32(v).bits, (v as f32).to_bits(), "{}", v);
        let w = v >> (v % 32);
        assert_eq!(Number::from_u32(w).bits, (w as f32).to_bits(), "{}", w);
    }
    for k in 0..32 {
        let p: u32 = 1 << k;
        for d in [-2i64, -1, 0, 1, 2] {
            let w = (p as i64 + d).clamp(0, u32::MAX as i64) as u32;
            assert_eq!(Number::from_u32(w).bits, (w as f32).to_bits(), "{}", w);
        }
    }
}

#[test]
fn nan_is_not_a_number() {
    assert!(f32::from_bits(Number::nan().bits).is_nan());
    assert!(Number::nan().is_nan());
    assert!(n(f32::NAN).is_nan());
    assert!(n(-f32::NAN).is_nan());
    assert!(!n(f32::INFINITY).is_nan());
    assert!(!n(f32::NEG_INFINITY).is_nan());
    assert!(!n(0.0).is_nan());
    assert!(!n(-1.5).is_nan());
}

#[test]
fn from_bool_is_one_or_zero() {
    assert_eq!(f32::from_bits(Number::from_bool(true).bits), 1.0);
    assert_eq!(Number::from_bool(false).bits, (0.0f32).to_bits());
}

#[test]
fn negate_flips_the_sign() {
    for x in [0.0f32, -0.0, 1.0, -2.5, f32::INFINITY, f32::MIN_POSITIVE, 3.0e38] {
        assert_eq!(n(x).negate().bits, (-x).to_bits());
    }
    assert!(n(f32::NAN).negate().is_nan());
}

#[test]
fn is_positive_matches_greater_than_zero() {
    for x in [0.0f32, -0.0, 1.0, -2.5, f32::INFINITY, f32::NEG_INFINITY, f32::NAN, 1.0e-40] {
        assert_eq!(n(x).is_positive(), x > 0.0, "{}", x);
    }
}

#[test]
fn order_and_equality_match_the_machine() {
    let values = [
        0.0f32, -0.0, 1.0, -1.0, 2.5, -2.5, f32::INFINITY, f32::NEG_INFINITY, f32::NAN, 1.0e-40,
        -1.0e-40, 3.0e38,
    ];
    for a in values {
        for b in values {
            assert_eq!(n(a).equals(n(b)), a == b, "{} == {}", a, b);
            assert_eq!(n(a).less(n(b)), a < b, "{} < {}", a, b);
        }
    }
}
