use modelardb_evaluator::bits::float_abs;
use modelardb_evaluator::bits::float_exact_u64;
use modelardb_evaluator::bits::float_gt;
use modelardb_evaluator::bits::float_is_finite;
use modelardb_evaluator::bits::float_is_nan;
use modelardb_evaluator::bits::float_lt;

const INTERESTING: [f32; 18] = [
    0.0,
    -0.0,
    1.0,
    -1.0,
    1.5,
    100.0,
    -100.0,
    0.05,
    1.0e-40,
    -1.0e-40,
    16777216.0,
    3.4e38,
    f32::MAX,
    f32::MIN_POSITIVE,
    f32::INFINITY,
    f32::NEG_INFINITY,
    f32::NAN,
    -5.25,
];

#[test]
fn ordering_matches_hardware_comparisons() {
    for &a in &INTERESTING {
        for &b in &INTERESTING {
            assert_eq!(
                float_lt(a.to_bits(), b.to_bits()),
                a < b,
                "lt disagreed on {a} and {b}"
            );
            assert_eq!(
                float_gt(a.to_bits(), b.to_bits()),
                a > b,
                "gt disagreed on {a} and {b}"
            );
        }
    }
}

#[test]
fn classification_matches_hardware() {
    for &a in &INTERESTING {
        assert_eq!(float_is_nan(a.to_bits()), a.is_nan(), "NaN test disagreed on {a}");
        assert_eq!(float_is_finite(a.to_bits()), a.is_finite(), "finite test disagreed on {a}");
        assert_eq!(float_abs(a.to_bits()), a.abs().to_bits(), "abs disagreed on {a}");
    }
}

#[test]
fn exact_integer_conversion_matches_the_round_trip_check() {
    // A finite value has an exact non-negative u64 value exactly when
    // truncating to u64 and converting back reproduces it — the round
    // trip the defensive invariant relies on.
    let cases: [f32; 12] = [
        0.0, -0.0, 1.0, 5.0, 2.5, -3.0, 0.5, 16777216.0, 16777215.0, 1.0e10, 3.0e38, 123456.0,
    ];
    for &c in &cases {
        let round_trips = c == ((c as u64) as f32) && (c >= 0.0 || c == -0.0);
        match float_exact_u64(c.to_bits()) {
            Some(v) => {
                assert!(round_trips, "conversion accepted {c} which does not round trip");
                assert_eq!(v, c as u64, "conversion disagreed on {c}");
            }
            None => {
                assert!(!round_trips, "conversion rejected {c} which round trips");
            }
        }
    }
}

#[test]
fn non_integral_and_nonfinite_values_have_no_exact_integer() {
    assert_eq!(float_exact_u64(2.5f32.to_bits()), None);
    assert_eq!(float_exact_u64((-1.0f32).to_bits()), None);
    assert_eq!(float_exact_u64(f32::INFINITY.to_bits()), None);
    assert_eq!(float_exact_u64(f32::NAN.to_bits()), None);
    assert_eq!(float_exact_u64(1.0e-40f32.to_bits()), None);
    // Finite, integral, but beyond the u64 range.
    assert_eq!(float_exact_u64(3.0e38f32.to_bits()), None);
}
