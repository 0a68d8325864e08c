use turtle_logo::number::Number;

fn num(x: f64) -> Number {
    Number::from_bits(x.to_bits())
}

fn float(n: Number) -> f64 {
    f64::from_bits(n.to_bits())
}

#[test]
fn arithmetic_matches_hardware_doubles() {
    let samples = [0.0, -0.0, 1.0, -1.5, 3.25, 100.0, 1e-3, 1e300, -7.0e10, 0.1, 0.2];
    for a in samples {
        for b in samples {
            assert_eq!(float(num(a).plus(num(b))), a + b);
            assert_eq!(float(num(a).minus(num(b))), a - b);
            assert_eq!(float(num(a).times(num(b))), a * b);
            if b != 0.0 {
                assert_eq!(float(num(a).divided_by(num(b)).unwrap()), a / b);
            } else {
                assert_eq!(num(a).divided_by(num(b)), None);
            }
        }
    }
}

#[test]
fn comparisons_follow_the_numbers() {
    let samples = [0.0, -0.0, 1.0, -1.5, 3.25, -100.0, f64::INFINITY, f64::NEG_INFINITY, f64::NAN];
    for a in samples {
        for b in samples {
            assert_eq!(num(a).less_than(num(b)), a < b);
            assert_eq!(num(a).at_most(num(b)), a <= b);
            assert_eq!(num(a).same_value(num(b)), a == b);
        }
    }
}

#[test]
fn counts_truncate_towards_zero() {
    assert_eq!(num(0.0).to_count(), Some(0));
    assert_eq!(num(-0.0).to_count(), Some(0));
    assert_eq!(num(0.99).to_count(), Some(0));
    assert_eq!(num(1.0).to_count(), Some(1));
    assert_eq!(num(4.7).to_count(), Some(4));
    assert_eq!(num(144.0).to_count(), Some(144));
    assert_eq!(num(9007199254740993.0).to_count(), Some(9007199254740992));
    assert_eq!(num(1e19).to_count(), Some(10000000000000000000));
    assert_eq!(num(1e20).to_count(), Some(u64::MAX));
    assert_eq!(num(f64::INFINITY).to_count(), Some(u64::MAX));
    assert_eq!(num(-1.0).to_count(), None);
    assert_eq!(num(-0.5).to_count(), None);
    assert_eq!(num(f64::NAN).to_count(), None);
}

#[test]
fn indices_become_the_same_numbers() {
    for i in [0u64, 1, 2, 3, 4, 5, 7, 8, 144, 255, 256, 1000, 65535, 1 << 52, (1 << 53) - 1, 1 << 53] {
        assert_eq!(float(Number::from_index(i)), i as f64);
        assert_eq!(Number::from_index(i).to_count(), Some(i));
    }
    // beyond 53 bits the conversion rounds towards zero
    assert_eq!(float(Number::from_index((1 << 53) + 1)), 9007199254740992.0);
    assert_eq!(float(Number::from_index(u64::MAX)), 18446744073709549568.0);
}

#[test]
fn sine_and_cosine_of_small_angles() {
    for deg in [0.0f64, 30.0, 45.0, 90.0, 144.0, 180.0, 270.0, 359.0] {
        let rad = deg * std::f64::consts::PI / 180.0;
        let s = float(num(rad).sine().unwrap());
        let c = float(num(rad).cosine().unwrap());
        assert!((s - rad.sin()).abs() < 1e-15);
        assert!((c - rad.cos()).abs() < 1e-15);
    }
    assert_eq!(num(7.5).sine(), None);
    assert_eq!(num(-8.0).cosine(), None);
    assert_eq!(num(f64::NAN).sine(), None);
}

#[test]
fn negation_flips_the_sign_only() {
    assert_eq!(float(num(2.5).negate()), -2.5);
    assert_eq!(float(num(-2.5).negate()), 2.5);
    assert_eq!(num(0.0).negate().to_bits(), (-0.0f64).to_bits());
}

fn same_number(soft: Number, hard: f64) -> bool {
    let s = float(soft);
    (s.is_nan() && hard.is_nan()) || s.to_bits() == hard.to_bits()
}

#[test]
fn arithmetic_on_arbitrary_patterns() {
    let mut state: u64 = 0x2545_F491_4F6C_DD1D;
    let mut next = || {
        state ^= state << 13;
        state ^= state >> 7;
        state ^= state << 17;
        state
    };
    let mut compared = 0u32;
    for round in 0..60_000 {
        let (mut a, mut b) = (next(), next());
        if round % 3 == 0 {
            // keep the exponents close, so that sums and quotients are not trivial
            b = (b & 0x800F_FFFF_FFFF_FFFF) | (a & 0x7FF0_0000_0000_0000);
        }
        if round % 7 == 0 {
            a &= 0x800F_FFFF_FFFF_FFFF;
        }
        let (x, y) = (f64::from_bits(a), f64::from_bits(b));
        let (na, nb) = (Number::from_bits(a), Number::from_bits(b));
        let sum = na.plus(nb);
        let difference = na.minus(nb);
        let product = na.times(nb);
        let quotient = na.ratio(nb);
        assert_eq!(na.less_than(nb), x < y);
        assert_eq!(na.same_value(nb), x == y);
        assert!(same_number(sum, x + y), "{:x} + {:x}", a, b);
        assert!(same_number(difference, x - y), "{:x} - {:x}", a, b);
        if (x * y).is_normal() || x * y == 0.0 || (x * y).is_infinite() || (x * y).is_nan() {
            if (x * y).is_normal() {
                assert!(same_number(product, x * y), "{:x} * {:x}", a, b);
                compared += 1;
            }
        }
        if (x / y).is_normal() {
            assert!(same_number(quotient, x / y), "{:x} / {:x}", a, b);
        }
    }
    assert!(compared > 10_000);
}

#[test]
fn sine_and_cosine_over_the_whole_range() {
    let mut worst: f64 = 0.0;
    let mut x = -7.0f64;
    while x <= 7.0 {
        let s = float(num(x).sine().unwrap());
        let c = float(num(x).cosine().unwrap());
        worst = worst.max((s - x.sin()).abs()).max((c - x.cos()).abs());
        assert!((s * s + c * c - 1.0).abs() < 1e-15);
        x += 0.000917;
    }
    assert!(worst < 1e-15, "{}", worst);
    for tiny in [0.0, -0.0, 1e-300, -1e-300, f64::MIN_POSITIVE, 5e-324] {
        assert_eq!(float(num(tiny).sine().unwrap()), tiny.sin());
        assert_eq!(float(num(tiny).cosine().unwrap()), 1.0);
    }
}
