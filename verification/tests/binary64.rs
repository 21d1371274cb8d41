//! Floating point on integers against the floating point of the machine.

use cocapn_fleet::binary64::Binary64;
use cocapn_fleet::time::Duration;

fn number(x: f64) -> Binary64 {
    Binary64::from_bits(x.to_bits())
}

fn same(ours: Binary64, theirs: f64) -> bool {
    let x = f64::from_bits(ours.to_bits());
    if theirs.is_nan() {
        x.is_nan()
    } else {
        x.to_bits() == theirs.to_bits()
    }
}

fn samples() -> Vec<f64> {
    let mut all = vec![
        0.0,
        1.0,
        2.0,
        3.0,
        0.1,
        0.2,
        0.3,
        0.5,
        0.85,
        0.9,
        1.5,
        10.0,
        100.0,
        1000.0,
        1.0 / 3.0,
        2.0 / 3.0,
        1e-9,
        1e9,
        1e300,
        1e-300,
        f64::MAX,
        f64::MIN_POSITIVE,
        f64::EPSILON,
        f64::INFINITY,
        f64::NAN,
        f64::from_bits(1),
        f64::from_bits(2),
        f64::from_bits(0x000f_ffff_ffff_ffff),
        f64::from_bits(0x0010_0000_0000_0001),
        9_007_199_254_740_991.0,
        9_007_199_254_740_992.0,
        9_007_199_254_740_994.0,
        18_446_744_073_709_551_615.0,
    ];
    let mut state: u64 = 0x9e37_79b9_7f4a_7c15;
    for _ in 0..60 {
        state = state.wrapping_mul(6_364_136_223_846_793_005).wrapping_add(1_442_695_040_888_963_407);
        all.push(f64::from_bits(state ^ (state >> 29)));
    }
    let negatives: Vec<f64> = all.iter().map(|x| -x).collect();
    all.extend(negatives);
    all
}

#[test]
fn sums_are_those_of_the_machine() {
    for a in samples() {
        for b in samples() {
            assert!(same(number(a).plus(number(b)), a + b), "{a:e} + {b:e}");
            assert!(same(number(a).minus(number(b)), a - b), "{a:e} - {b:e}");
        }
    }
}

#[test]
fn products_are_those_of_the_machine() {
    for a in samples() {
        for b in samples() {
            assert!(same(number(a).times(number(b)), a * b), "{a:e} * {b:e}");
        }
    }
}

#[test]
fn quotients_are_those_of_the_machine() {
    for a in samples() {
        for b in samples() {
            assert!(same(number(a).over(number(b)), a / b), "{a:e} / {b:e}");
        }
    }
}

#[test]
fn comparisons_are_those_of_the_machine() {
    for a in samples() {
        for b in samples() {
            assert_eq!(number(a).le(number(b)), a <= b, "{a:e} <= {b:e}");
            assert_eq!(number(a).lt(number(b)), a < b, "{a:e} < {b:e}");
            if a != b {
                assert!(same(number(a).max(number(b)), a.max(b)), "{a:e} max {b:e}");
                assert!(same(number(a).min(number(b)), a.min(b)), "{a:e} min {b:e}");
            }
        }
    }
}

#[test]
fn signs_clamps_and_whole_parts_are_those_of_the_machine() {
    for a in samples() {
        assert!(same(number(a).negated(), -a), "-{a:e}");
        assert!(same(number(a).abs(), a.abs()), "|{a:e}|");
        assert!(same(number(a).clamp_to_unit(), a.clamp(0.0, 1.0)), "clamp {a:e}");
        assert_eq!(number(a).to_u64(), a as u64, "{a:e} as u64");
    }
}

#[test]
fn integers_are_rounded_like_the_machine_does() {
    let mut n: u64 = 1;
    for _ in 0..64 {
        for m in [n.wrapping_sub(3), n.wrapping_sub(1), n, n.wrapping_add(1), n.wrapping_mul(3)] {
            assert!(same(Binary64::from_u64(m), m as f64), "{m}");
        }
        n = n.wrapping_shl(1);
    }
    assert!(same(Binary64::from_u64(0), 0.0));
    assert!(same(Binary64::from_u64(u64::MAX), u64::MAX as f64));
}

#[test]
fn decimals_are_those_of_the_compiler() {
    assert!(same(Binary64::ratio(85, 100), 0.85));
    assert!(same(Binary64::ratio(33, 100), 0.33));
    assert!(same(Binary64::ratio(66, 100), 0.66));
    assert!(same(Binary64::ratio(1, 1000), 0.001));
    assert!(same(Binary64::ratio(3, 2), 1.5));
    assert!(same(Binary64::ratio(1, 0x10_0000_0000_0000), f64::EPSILON));
    assert!(same(Binary64::ratio(0, 7), 0.0));
}

#[test]
fn one_is_1023_times_the_exponent_step() {
    assert_eq!(Binary64::from_u64(1).to_bits(), 0x3ff0_0000_0000_0000);
    assert_eq!(Binary64::from_u64(100).to_bits(), 0x4059_0000_0000_0000);
}

#[test]
fn large_numbers_absorb_fractions() {
    let large = Binary64::from_u64(1 << 53);
    assert_eq!(large.plus(Binary64::ratio(999_999_999, 1_000_000_000)).to_bits(), large.to_bits());
}

#[test]
fn seconds_are_those_of_the_standard_library() {
    for (secs, nanos) in [
        (0, 0),
        (0, 1),
        (0, 1_000_000),
        (0, 999_999_999),
        (1, 500_000_000),
        (300, 0),
        (86_400, 123_456_789),
        ((1 << 53) - 1, 999_999_999),
        ((1 << 53) + 3, 999_999_999),
        (u64::MAX, 999_999_999),
    ] {
        let theirs = std::time::Duration::new(secs, nanos).as_secs_f64();
        assert!(same(Duration { secs, nanos }.as_seconds(), theirs), "{secs} s {nanos} ns");
    }
}

#[test]
fn longer_spans_are_not_fewer_seconds() {
    let spans = [
        Duration { secs: 0, nanos: 0 },
        Duration { secs: 0, nanos: 999_999_999 },
        Duration { secs: 1, nanos: 0 },
        Duration { secs: (1 << 53) - 1, nanos: 999_999_999 },
        Duration { secs: 1 << 53, nanos: 0 },
        Duration { secs: (1 << 53) + 2, nanos: 999_999_999 },
        Duration { secs: (1 << 53) + 3, nanos: 0 },
        Duration { secs: u64::MAX, nanos: 999_999_999 },
    ];
    for pair in spans.windows(2) {
        assert!(pair[0].as_seconds().le(pair[1].as_seconds()));
        assert!(pair[0].shorter_than(pair[1]));
        assert!(!pair[1].shorter_than(pair[0]));
    }
}
