use std::cmp::Ordering;
use xan::float::{power_of_two, Float64};

fn float(x: f64) -> Float64 {
    Float64::from_bits(x.to_bits())
}

fn samples() -> Vec<f64> {
    vec![
        0.0,
        -0.0,
        1.0,
        -1.0,
        0.5,
        -0.5,
        1.5,
        -1.5,
        2.5,
        -2.5,
        3.0,
        1e-320,
        -1e-320,
        f64::MIN_POSITIVE,
        0.999_999_999_999_999_9,
        4503599627370496.0,
        4503599627370496.5,
        9007199254740992.0,
        9007199254740993.0,
        -9007199254740992.0,
        9223372036854775807.0,
        9223372036854774784.0,
        -9223372036854775808.0,
        -9223372036854777856.0,
        1e19,
        -1e19,
        1e300,
        -1e300,
        f64::MAX,
        f64::MIN,
        f64::INFINITY,
        f64::NEG_INFINITY,
        f64::NAN,
        -f64::NAN,
    ]
}

fn integers() -> Vec<i64> {
    let mut all = vec![0i64, 1, -1, 2, 3, -3, 7, 1023, 1024, -4096, i64::MAX, i64::MIN, i64::MIN + 1];
    for shift in 50..63 {
        let base = 1i64 << shift;
        for delta in [-3i64, -2, -1, 0, 1, 2, 3] {
            all.push(base + delta);
            all.push(-(base + delta));
        }
    }
    for n in [
        9007199254740993i64,
        9007199254740995,
        9007199254740997,
        18014398509481985,
        18014398509481986,
        18014398509481987,
        36028797018963970,
        36028797018963974,
        9223372036854775295,
        9223372036854775296,
        9223372036854775297,
    ] {
        all.push(n);
        all.push(-n);
    }
    all
}

#[test]
fn from_i64_is_the_nearest_float() {
    for n in integers() {
        assert_eq!(Float64::from_i64(n).to_bits(), (n as f64).to_bits(), "{}", n);
    }
}

#[test]
fn from_i64_rounds_ties_to_even() {
    // 2^53 + 1 lies halfway between 2^53 and 2^53 + 2: the even significand wins.
    assert_eq!(Float64::from_i64(9007199254740993).to_bits(), 9007199254740992.0f64.to_bits());
    // 2^53 + 3 lies halfway between 2^53 + 2 and 2^53 + 4.
    assert_eq!(Float64::from_i64(9007199254740995).to_bits(), 9007199254740996.0f64.to_bits());
    assert_eq!(Float64::from_i64(i64::MAX).to_bits(), 9223372036854775808.0f64.to_bits());
}

#[test]
fn to_i64_keeps_whole_numbers_only() {
    assert_eq!(float(3.0).to_i64(), Some(3));
    assert_eq!(float(-3.0).to_i64(), Some(-3));
    assert_eq!(float(0.0).to_i64(), Some(0));
    assert_eq!(float(-0.0).to_i64(), Some(0));
    assert_eq!(float(3.5).to_i64(), None);
    assert_eq!(float(-3.5).to_i64(), None);
    assert_eq!(float(1e-320).to_i64(), None);
    assert_eq!(float(f64::NAN).to_i64(), None);
    assert_eq!(float(f64::INFINITY).to_i64(), None);
    assert_eq!(float(-9223372036854775808.0).to_i64(), Some(i64::MIN));
    assert_eq!(float(9223372036854775808.0).to_i64(), None);
    assert_eq!(float(9223372036854774784.0).to_i64(), Some(9223372036854774784));
    assert_eq!(float(1e300).to_i64(), None);
}

#[test]
fn to_i64_agrees_with_native_arithmetic() {
    for x in samples() {
        let expected = if x.is_finite()
            && x.fract() == 0.0
            && x >= -9223372036854775808.0
            && x < 9223372036854775808.0
        {
            Some(x as i64)
        } else {
            None
        };
        assert_eq!(float(x).to_i64(), expected, "{}", x);
    }
}

#[test]
fn whole_numbers_survive_a_round_trip() {
    for n in [0i64, 1, -1, 255, -4096, 9007199254740992, -9007199254740992] {
        assert_eq!(Float64::from_i64(n).to_i64(), Some(n));
    }
}

#[test]
fn floor_to_i64_agrees_with_native_arithmetic() {
    for x in samples() {
        assert_eq!(float(x).floor_to_i64(), x.floor() as i64, "{}", x);
    }
    assert_eq!(float(3.5).floor_to_i64(), 3);
    assert_eq!(float(-3.5).floor_to_i64(), -4);
    assert_eq!(float(-1e-320).floor_to_i64(), -1);
    assert_eq!(float(f64::NAN).floor_to_i64(), 0);
    assert_eq!(float(f64::INFINITY).floor_to_i64(), i64::MAX);
    assert_eq!(float(f64::NEG_INFINITY).floor_to_i64(), i64::MIN);
}

#[test]
fn comparison_agrees_with_native_arithmetic() {
    for x in samples() {
        for y in samples() {
            assert_eq!(float(x).equals(float(y)), x == y, "{} == {}", x, y);
            assert_eq!(float(x).less_than(float(y)), x < y, "{} < {}", x, y);
            assert_eq!(float(x).compare(float(y)), x.partial_cmp(&y), "{} ? {}", x, y);
        }
    }
}

#[test]
fn zeros_are_equal_and_nan_is_not() {
    assert!(float(0.0).equals(float(-0.0)));
    assert_eq!(float(0.0).compare(float(-0.0)), Some(Ordering::Equal));
    assert!(!float(f64::NAN).equals(float(f64::NAN)));
    assert_eq!(float(f64::NAN).compare(float(1.0)), None);
}

#[test]
fn predicates_agree_with_native_arithmetic() {
    for x in samples() {
        assert_eq!(float(x).is_not_a_number(), x.is_nan(), "{}", x);
        assert_eq!(float(x).equals_zero(), x == 0.0, "{}", x);
        assert_eq!(float(x).negated().to_bits(), (-x).to_bits(), "{}", x);
        assert_eq!(float(x).magnitude().to_bits(), x.abs().to_bits(), "{}", x);
    }
}

#[test]
fn constants_are_what_they_say() {
    assert_eq!(Float64::zero().to_bits(), 0.0f64.to_bits());
    assert_eq!(Float64::one().to_bits(), 1.0f64.to_bits());
    assert_eq!(power_of_two(0), 1);
    assert_eq!(power_of_two(10), 1024);
    assert_eq!(power_of_two(63), 1u64 << 63);
}

fn scrambled(seed: &mut u64) -> u64 {
    *seed ^= *seed << 13;
    *seed ^= *seed >> 7;
    *seed ^= *seed << 17;
    *seed
}

#[test]
fn many_integers_convert_as_the_machine_converts_them() {
    let mut seed = 0x9e3779b97f4a7c15u64;
    for _ in 0..20000 {
        let bits = scrambled(&mut seed);
        let shift = scrambled(&mut seed) % 64;
        let n = (bits >> shift) as i64;
        for n in [n, n.wrapping_neg()] {
            assert_eq!(Float64::from_i64(n).to_bits(), (n as f64).to_bits(), "{}", n);
        }
    }
}

#[test]
fn many_bit_patterns_are_read_as_the_machine_reads_them() {
    let mut seed = 0x2545f4914f6cdd1du64;
    for round in 0..20000 {
        let mut bits = scrambled(&mut seed);
        if round % 2 == 0 {
            // Exponents near the one at which a significand counts units.
            let exponent = 1000 + scrambled(&mut seed) % 100;
            bits = (bits & 0x800f_ffff_ffff_ffff) | (exponent << 52);
        }
        if round % 5 == 0 {
            bits &= !((1u64 << (scrambled(&mut seed) % 53)) - 1);
        }
        let x = f64::from_bits(bits);
        let whole = if x.is_finite()
            && x.fract() == 0.0
            && x >= -9223372036854775808.0
            && x < 9223372036854775808.0
        {
            Some(x as i64)
        } else {
            None
        };
        assert_eq!(float(x).to_i64(), whole, "{:e}", x);
        assert_eq!(float(x).floor_to_i64(), x.floor() as i64, "{:e}", x);
        let other = f64::from_bits(scrambled(&mut seed));
        assert_eq!(float(x).compare(float(other)), x.partial_cmp(&other), "{:e} {:e}", x, other);
        assert_eq!(float(x).equals(float(other)), x == other);
        assert_eq!(float(x).less_than(float(other)), x < other);
    }
}
