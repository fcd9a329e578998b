use modelardb_evaluator::metrics::validate_and_compare;
use modelardb_evaluator::metrics::AccuracyReport;
use modelardb_evaluator::metrics::INTEGER_NAN;
use modelardb_evaluator::metrics::INTEGER_NEGATIVE_INFINITY;
use modelardb_evaluator::metrics::INTEGER_POSITIVE_INFINITY;
use modelardb_evaluator::series::ComparisonError;
use modelardb_evaluator::series::Sample;
use modelardb_evaluator::series::Series;
use modelardb_evaluator::series::validate;

fn series(points: &[(i64, f32)]) -> Series {
    Series {
        samples: points
            .iter()
            .map(|&(timestamp, value)| Sample { timestamp, value: value.to_bits() })
            .collect(),
    }
}

fn histogram_sum(report: &AccuracyReport) -> u64 {
    report.histogram.entries.iter().map(|&(_, count)| count).sum()
}

#[test]
fn length_mismatch_is_reported_with_both_lengths() {
    let original = series(&[(0, 1.0), (1, 2.0)]);
    let reconstructed = series(&[(0, 1.0)]);
    let result = validate_and_compare(&original, &reconstructed, 10.0f32.to_bits());
    match result {
        Err(ComparisonError::LengthMismatch { original_len, reconstructed_len }) => {
            assert_eq!(original_len, 2);
            assert_eq!(reconstructed_len, 1);
        }
        other => panic!("expected a length mismatch, got {other:?}"),
    }
}

#[test]
fn length_mismatch_wins_even_when_values_diverge() {
    // The lengths differ and so do timestamps and values: the length
    // mismatch must be reported, nothing else.
    let original = series(&[(0, 1.0), (5, 2.0), (9, 3.0)]);
    let reconstructed = series(&[(7, 8.0)]);
    let result = validate(&original, &reconstructed);
    assert!(matches!(result, Err(ComparisonError::LengthMismatch { .. })));
}

#[test]
fn timestamp_mismatch_reports_first_divergence() {
    // Index 2 realigns; the first divergence at index 1 must be reported.
    let original = series(&[(0, 1.0), (1, 2.0), (2, 3.0)]);
    let reconstructed = series(&[(0, 1.0), (9, 2.0), (2, 3.0)]);
    let result = validate_and_compare(&original, &reconstructed, 10.0f32.to_bits());
    match result {
        Err(ComparisonError::TimestampMismatch { index, original_ts, reconstructed_ts }) => {
            assert_eq!(index, 1);
            assert_eq!(original_ts, 1);
            assert_eq!(reconstructed_ts, 9);
        }
        other => panic!("expected a timestamp mismatch, got {other:?}"),
    }
}

#[test]
fn identical_series_are_fully_exact() {
    let points = [(0, 1.5f32), (1, -2.25), (2, 0.0), (3, 123.456)];
    let original = series(&points);
    let reconstructed = series(&points);
    let report = validate_and_compare(&original, &reconstructed, 1.0f32.to_bits()).unwrap();
    assert_eq!(report.total, 4);
    assert_eq!(report.exact, 4);
    assert_eq!(report.max_error, 0.0f32.to_bits());
    assert_eq!(report.without_error_percentage(), 100.0f64.to_bits());
    assert_eq!(report.histogram.entries, vec![(0, 4)]);
    assert!(report.exceeded_indices.is_empty());
    assert!(report.undefined_indices.is_empty());
}

#[test]
fn zero_original_gives_positive_infinity_ratio() {
    let original = series(&[(0, 0.0)]);
    let reconstructed = series(&[(0, 1.0)]);
    let report = validate_and_compare(&original, &reconstructed, 10.0f32.to_bits()).unwrap();
    assert_eq!(report.total, 1);
    assert_eq!(report.exact, 0);
    // The undefined error also exceeds every finite bound.
    assert_eq!(report.undefined_indices, vec![0]);
    assert_eq!(report.exceeded_indices, vec![0]);
    assert_eq!(report.histogram.count(INTEGER_POSITIVE_INFINITY), 1);
    assert_eq!(report.max_error, f32::INFINITY.to_bits());
    assert_eq!(report.sum_ratio, f32::INFINITY.to_bits());
}

#[test]
fn negative_zero_original_gives_negative_infinity_sentinel() {
    // difference = -0.0 - 1.0 = -1.0, ratio = |-1.0 / -0.0| is positive
    // infinity after the absolute value, so the percentage ceiling is
    // positive infinity; a negative-infinity ceiling instead needs the
    // percentage itself to be negative infinity, which the absolute value
    // rules out. Check the actual classification against hardware floats.
    let o = -0.0f32;
    let r = 1.0f32;
    let expected_ratio = ((o - r) / o).abs();
    assert!(expected_ratio.is_infinite() && expected_ratio > 0.0);
    let original = series(&[(0, -0.0)]);
    let reconstructed = series(&[(0, 1.0)]);
    let report = validate_and_compare(&original, &reconstructed, 10.0f32.to_bits()).unwrap();
    assert_eq!(report.histogram.count(INTEGER_POSITIVE_INFINITY), 1);
    assert_eq!(report.histogram.count(INTEGER_NEGATIVE_INFINITY), 0);
}

#[test]
fn nan_pair_counts_as_exact() {
    let original = series(&[(0, f32::NAN), (1, 2.0)]);
    let reconstructed = series(&[(0, f32::NAN), (1, 2.0)]);
    let report = validate_and_compare(&original, &reconstructed, 1.0f32.to_bits()).unwrap();
    assert_eq!(report.exact, 2);
    assert!(report.undefined_indices.is_empty());
}

#[test]
fn nan_against_number_is_undefined() {
    let original = series(&[(0, f32::NAN)]);
    let reconstructed = series(&[(0, 2.0)]);
    let report = validate_and_compare(&original, &reconstructed, 1.0f32.to_bits()).unwrap();
    assert_eq!(report.exact, 0);
    assert_eq!(report.undefined_indices, vec![0]);
    assert_eq!(report.histogram.count(INTEGER_NAN), 1);
    // A NaN percentage does not exceed any bound: comparisons with NaN
    // are false.
    assert!(report.exceeded_indices.is_empty());
    assert!(f32::from_bits(report.sum_ratio).is_nan());
}

#[test]
fn scenario_two_points_one_within_bound() {
    let original = series(&[(0, 10.0), (1, 20.0)]);
    let reconstructed = series(&[(0, 10.0), (1, 19.0)]);
    let report = validate_and_compare(&original, &reconstructed, 10.0f32.to_bits()).unwrap();
    assert_eq!(report.total, 2);
    assert_eq!(report.exact, 1);
    assert_eq!(report.without_error_percentage(), 50.0f64.to_bits());
    let expected_average = 100.0f32 * (1.0f32 / 30.0f32);
    assert_eq!(report.average_relative_error_percentage(), expected_average.to_bits());
    let expected_ratio = ((20.0f32 - 19.0f32) / 20.0f32).abs();
    let expected_percent = 100.0f32 * expected_ratio;
    assert_eq!(expected_percent, 5.0f32);
    assert_eq!(report.max_error, 5.0f32.to_bits());
    assert_eq!(report.max_error_original, 20.0f32.to_bits());
    assert_eq!(report.max_error_reconstructed, 19.0f32.to_bits());
    let expected_mape = 100.0f64 * (expected_ratio as f64 / 2.0f64);
    assert_eq!(report.mean_absolute_percentage_error(), expected_mape.to_bits());
    assert_eq!(report.histogram.entries, vec![(0, 1), (5, 1)]);
    assert!(report.exceeded_indices.is_empty());
    assert!(report.undefined_indices.is_empty());
}

#[test]
fn point_exceeding_bound_is_recorded() {
    // 25% error against a 10% bound.
    let original = series(&[(0, 4.0), (1, 8.0)]);
    let reconstructed = series(&[(0, 3.0), (1, 8.0)]);
    let report = validate_and_compare(&original, &reconstructed, 10.0f32.to_bits()).unwrap();
    assert_eq!(report.exceeded_indices, vec![0]);
    assert!(report.undefined_indices.is_empty());
    assert_eq!(report.max_error, 25.0f32.to_bits());
    assert_eq!(report.histogram.count(25), 1);
}

#[test]
fn tie_keeps_the_first_maximum() {
    // Both points have a 50% error; the first pair must stay recorded.
    let original = series(&[(0, 2.0), (1, 8.0)]);
    let reconstructed = series(&[(0, 1.0), (1, 4.0)]);
    let report = validate_and_compare(&original, &reconstructed, 80.0f32.to_bits()).unwrap();
    assert_eq!(report.max_error, 50.0f32.to_bits());
    assert_eq!(report.max_error_original, 2.0f32.to_bits());
    assert_eq!(report.max_error_reconstructed, 1.0f32.to_bits());
}

#[test]
fn histogram_counts_sum_to_total() {
    let original = series(&[(0, 1.0), (1, 0.0), (2, 3.0), (3, f32::NAN), (4, 5.0), (5, 5.0)]);
    let reconstructed = series(&[(0, 1.5), (1, 2.0), (2, 3.0), (3, 1.0), (4, 4.0), (5, 5.0)]);
    let report = validate_and_compare(&original, &reconstructed, 10.0f32.to_bits()).unwrap();
    assert_eq!(report.total, 6);
    assert_eq!(histogram_sum(&report), 6);
}

#[test]
fn huge_finite_error_is_a_non_integral_bucket_key() {
    // The ceiling is finite but far beyond the histogram's integer range:
    // the defensive invariant must fire with the offending bits.
    let o = 1.0e-10f32;
    let r = 1.0e10f32;
    let expected_ceiling = (100.0f32 * ((o - r) / o).abs()).ceil();
    assert!(expected_ceiling.is_finite());
    let original = series(&[(0, o)]);
    let reconstructed = series(&[(0, r)]);
    let result = validate_and_compare(&original, &reconstructed, 10.0f32.to_bits());
    match result {
        Err(ComparisonError::NonIntegralBucketKey { index, value_bits }) => {
            assert_eq!(index, 0);
            assert_eq!(value_bits, expected_ceiling.to_bits());
        }
        other => panic!("expected the defensive failure, got {other:?}"),
    }
}

#[test]
fn empty_series_give_an_empty_report() {
    let original = series(&[]);
    let reconstructed = series(&[]);
    let report = validate_and_compare(&original, &reconstructed, 10.0f32.to_bits()).unwrap();
    assert_eq!(report.total, 0);
    assert_eq!(report.exact, 0);
    assert!(report.histogram.entries.is_empty());
    assert!(report.exceeded_indices.is_empty());
    assert!(report.undefined_indices.is_empty());
    // 0 / 0 yields a NaN percentage rather than a number.
    assert!(f64::from_bits(report.without_error_percentage()).is_nan());
}

#[test]
fn reordering_both_series_identically_keeps_the_sums() {
    let original_a = series(&[(0, 1.0), (1, 3.0)]);
    let reconstructed_a = series(&[(0, 2.0), (1, 5.0)]);
    let original_b = series(&[(1, 3.0), (0, 1.0)]);
    let reconstructed_b = series(&[(1, 5.0), (0, 2.0)]);
    let bound = 10.0f32.to_bits();
    let report_a = validate_and_compare(&original_a, &reconstructed_a, bound).unwrap();
    let report_b = validate_and_compare(&original_b, &reconstructed_b, bound).unwrap();
    assert_eq!(report_a.total, report_b.total);
    assert_eq!(report_a.exact, report_b.exact);
    assert_eq!(
        report_a.mean_absolute_percentage_error(),
        report_b.mean_absolute_percentage_error()
    );
    assert_eq!(report_a.sum_ratio, report_b.sum_ratio);
    assert_eq!(report_a.max_error, report_b.max_error);
}

#[test]
fn reordering_only_one_series_fails_validation() {
    let original = series(&[(0, 1.0), (1, 3.0)]);
    let reconstructed = series(&[(1, 5.0), (0, 2.0)]);
    let result = validate_and_compare(&original, &reconstructed, 10.0f32.to_bits());
    assert!(matches!(result, Err(ComparisonError::TimestampMismatch { index: 0, .. })));
}

#[test]
fn sums_follow_hardware_float_accumulation() {
    // The running sums must match an f32 left-to-right accumulation.
    let points_o = [(0i64, 1.25f32), (1, -7.5), (2, 0.1)];
    let points_r = [(0i64, 1.0f32), (1, -7.0), (2, 0.3)];
    let original = series(&points_o);
    let reconstructed = series(&points_r);
    let report = validate_and_compare(&original, &reconstructed, 500.0f32.to_bits()).unwrap();
    let mut sum_diff = 0.0f32;
    let mut sum_orig = 0.0f32;
    let mut sum_ratio = 0.0f32;
    for i in 0..3 {
        let o = points_o[i].1;
        let r = points_r[i].1;
        let difference = o - r;
        let ratio = (difference / o).abs();
        sum_diff += difference.abs();
        sum_orig += o.abs();
        sum_ratio += ratio;
    }
    assert_eq!(report.sum_abs_difference, sum_diff.to_bits());
    assert_eq!(report.sum_abs_original, sum_orig.to_bits());
    assert_eq!(report.sum_ratio, sum_ratio.to_bits());
}
