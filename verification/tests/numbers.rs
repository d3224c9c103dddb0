use quil_ir::double::Double;

fn double(x: f64) -> Double {
    Double { bits: x.to_bits() }
}

fn whole_i64(x: f64) -> Option<i64> {
    if x.is_finite() && x.fract() == 0.0 && x >= -9223372036854775808.0 && x < 9223372036854775808.0
    {
        Some(x as i64)
    } else {
        None
    }
}

fn whole_u64(x: f64) -> Option<u64> {
    if x.is_finite() && x.fract() == 0.0 && x >= 0.0 && x < 18446744073709551616.0 {
        Some(x as u64)
    } else {
        None
    }
}

/// A small generator of bit patterns, the same on every run.
fn next(state: &mut u64) -> u64 {
    *state = state
        .wrapping_mul(6364136223846793005)
        .wrapping_add(1442695040888963407);
    let mut x = *state;
    x ^= x >> 33;
    x = x.wrapping_mul(0xff51afd7ed558ccd);
    x ^= x >> 33;
    x
}

#[test]
fn zero_is_positive_zero() {
    assert_eq!(Double::zero().bits, 0);
    assert_eq!(Double::zero(), double(0.0));
}

#[test]
fn both_zeros_are_zero() {
    assert!(double(0.0).is_zero());
    assert!(double(-0.0).is_zero());
    assert!(!double(1.0).is_zero());
    assert!(!double(f64::NAN).is_zero());
    assert!(!double(f64::MIN_POSITIVE).is_zero());
    assert!(!Double { bits: 1 }.is_zero());
}

#[test]
fn whole_numbers_come_back_as_signed_integers() {
    assert_eq!(double(5.0).to_i64(), Some(5));
    assert_eq!(double(-5.0).to_i64(), Some(-5));
    assert_eq!(double(0.0).to_i64(), Some(0));
    assert_eq!(double(-0.0).to_i64(), Some(0));
    assert_eq!(double(1.0).to_i64(), Some(1));
    assert_eq!(double(9007199254740992.0).to_i64(), Some(9007199254740992));
    assert_eq!(double(-9223372036854775808.0).to_i64(), Some(i64::MIN));
    assert_eq!(double(9223372036854774784.0).to_i64(), Some(9223372036854774784));
}

#[test]
fn other_numbers_are_no_signed_integers() {
    assert_eq!(double(2.5).to_i64(), None);
    assert_eq!(double(0.5).to_i64(), None);
    assert_eq!(double(-0.75).to_i64(), None);
    assert_eq!(double(9223372036854775808.0).to_i64(), None);
    assert_eq!(double(-9223372036854777856.0).to_i64(), None);
    assert_eq!(double(1e300).to_i64(), None);
    assert_eq!(double(f64::NAN).to_i64(), None);
    assert_eq!(double(f64::INFINITY).to_i64(), None);
    assert_eq!(double(f64::NEG_INFINITY).to_i64(), None);
    assert_eq!(double(f64::MIN_POSITIVE).to_i64(), None);
    assert_eq!(Double { bits: 1 }.to_i64(), None);
}

#[test]
fn whole_numbers_come_back_as_unsigned_integers() {
    assert_eq!(double(5.0).to_u64(), Some(5));
    assert_eq!(double(0.0).to_u64(), Some(0));
    assert_eq!(double(-0.0).to_u64(), Some(0));
    assert_eq!(double(9223372036854775808.0).to_u64(), Some(1 << 63));
    assert_eq!(double(18446744073709549568.0).to_u64(), Some(18446744073709549568));
}

#[test]
fn other_numbers_are_no_unsigned_integers() {
    assert_eq!(double(-1.0).to_u64(), None);
    assert_eq!(double(2.5).to_u64(), None);
    assert_eq!(double(18446744073709551616.0).to_u64(), None);
    assert_eq!(double(f64::NAN).to_u64(), None);
    assert_eq!(double(f64::INFINITY).to_u64(), None);
}

#[test]
fn small_integers_are_held_exactly() {
    assert_eq!(Double::from_u64(0), double(0.0));
    assert_eq!(Double::from_u64(1), double(1.0));
    assert_eq!(Double::from_u64(5), double(5.0));
    assert_eq!(Double::from_u64(9007199254740991), double(9007199254740991.0));
    assert_eq!(Double::from_u64(9007199254740992), double(9007199254740992.0));
    assert_eq!(Double::from_i64(0), double(0.0));
    assert_eq!(Double::from_i64(-1), double(-1.0));
    assert_eq!(Double::from_i64(-5), double(-5.0));
    assert_eq!(Double::from_i64(i64::MIN), double(-9223372036854775808.0));
}

#[test]
fn large_integers_round_to_the_nearest_even() {
    // Two to the 53 plus one lies half way: the even neighbour is below.
    assert_eq!(Double::from_u64(9007199254740993), double(9007199254740992.0));
    // Two to the 53 plus three lies half way: the even neighbour is above.
    assert_eq!(Double::from_u64(9007199254740995), double(9007199254740996.0));
    assert_eq!(Double::from_u64(9007199254740994), double(9007199254740994.0));
    assert_eq!(Double::from_u64(u64::MAX), double(18446744073709551616.0));
    assert_eq!(Double::from_u64(1 << 63), double(9223372036854775808.0));
    assert_eq!(Double::from_i64(i64::MAX), double(9223372036854775808.0));
    assert_eq!(Double::from_i64(-9007199254740993), double(-9007199254740992.0));
}

#[test]
fn integers_become_what_the_machine_makes_of_them() {
    let mut state: u64 = 42;
    for round in 0..20000 {
        let raw = next(&mut state);
        let n = raw >> (round % 64);
        assert_eq!(Double::from_u64(n).bits, (n as f64).to_bits(), "{n}");
        let signed = n as i64;
        assert_eq!(Double::from_i64(signed).bits, (signed as f64).to_bits(), "{signed}");
    }
    for shift in 0..64 {
        for delta in 0..4u64 {
            let n = (1u64 << shift).wrapping_add(delta);
            assert_eq!(Double::from_u64(n).bits, (n as f64).to_bits(), "{n}");
            let m = (1u64 << shift).wrapping_sub(delta);
            assert_eq!(Double::from_u64(m).bits, (m as f64).to_bits(), "{m}");
            let half = (3u64 << shift) >> 1;
            assert_eq!(Double::from_u64(half + delta).bits, ((half + delta) as f64).to_bits());
        }
    }
}

#[test]
fn numbers_become_the_integers_that_they_are() {
    let mut state: u64 = 7;
    for round in 0..20000u64 {
        let raw = next(&mut state);
        // Spread the exponents around the range in which whole numbers lie.
        let exponent = 1023 - 4 + (round % 76);
        let bits = (raw & 0x800f_ffff_ffff_ffff) | (exponent << 52);
        let x = f64::from_bits(bits);
        assert_eq!(Double { bits }.to_i64(), whole_i64(x), "{x}");
        assert_eq!(Double { bits }.to_u64(), whole_u64(x), "{x}");
        let any = f64::from_bits(raw);
        assert_eq!(Double { bits: raw }.to_i64(), whole_i64(any), "{any}");
        assert_eq!(Double { bits: raw }.to_u64(), whole_u64(any), "{any}");
        let whole = (raw >> (round % 64)) as f64;
        assert_eq!(double(whole).to_u64(), whole_u64(whole), "{whole}");
        assert_eq!(double(-whole).to_i64(), whole_i64(-whole), "{whole}");
    }
}

#[test]
fn an_integer_that_is_held_exactly_comes_back() {
    for n in [0u64, 1, 2, 3, 1000, 1 << 52, (1 << 53) - 1, 1 << 53, 1 << 62, 1 << 63, 3 << 62] {
        assert_eq!(Double::from_u64(n).to_u64(), Some(n));
    }
    for n in [0i64, 1, -1, 5, -5, 1 << 53, -(1 << 53), 1 << 62, i64::MIN] {
        assert_eq!(Double::from_i64(n).to_i64(), Some(n));
    }
}
