use modelardb_evaluator::metrics::validate_and_compare;
use modelardb_evaluator::render::render;
use modelardb_evaluator::series::Sample;
use modelardb_evaluator::series::Series;

fn series(points: &[(i64, f32)]) -> Series {
    Series {
        samples: points
            .iter()
            .map(|&(timestamp, value)| Sample { timestamp, value: value.to_bits() })
            .collect(),
    }
}

#[test]
fn clean_report_renders_six_lines() {
    let original = series(&[(0, 10.0), (1, 20.0)]);
    let reconstructed = series(&[(0, 10.0), (1, 19.0)]);
    let report = validate_and_compare(&original, &reconstructed, 10.0f32.to_bits()).unwrap();
    let lines = render(&report, &original, &reconstructed);
    assert_eq!(lines.len(), 6);
    assert_eq!(lines[0], "- Total Number of Values: 2");
    assert!(lines[1].starts_with("- Without Error: "));
    assert!(lines[1].ends_with('%'));
    assert!(lines[2].starts_with("- Average Relative Error: "));
    assert!(lines[2].ends_with('%'));
    assert!(lines[3].starts_with("- Mean Absolute Percentage Error: "));
    assert!(lines[3].ends_with('%'));
    assert!(lines[4].starts_with("- Maximum Error: "));
    assert!(lines[4].contains("% due to "));
    assert!(lines[4].contains(" (test data) and "));
    assert!(lines[4].ends_with(" (decompressed)"));
    assert!(lines[5].starts_with("- Error Ceil Histogram:"));
    // Two buckets, each with one point.
    assert_eq!(lines[5].matches("% 1").count(), 2);
}

#[test]
fn without_error_line_shows_a_hundred_for_identical_series() {
    let original = series(&[(0, 4.5), (1, -1.0)]);
    let report = validate_and_compare(&original, &original.clone(), 1.0f32.to_bits()).unwrap();
    let lines = render(&report, &original, &original);
    assert_eq!(lines[1], "- Without Error: 100%");
    assert_eq!(lines[0], "- Total Number of Values: 2");
}

#[test]
fn exceeded_section_lists_the_offending_points() {
    // 25% error at index 0 against a 10% bound.
    let original = series(&[(7, 4.0), (9, 8.0)]);
    let reconstructed = series(&[(7, 3.0), (9, 8.0)]);
    let report = validate_and_compare(&original, &reconstructed, 10.0f32.to_bits()).unwrap();
    let lines = render(&report, &original, &reconstructed);
    assert_eq!(lines.len(), 8);
    assert_eq!(
        lines[6],
        "- Exceeded Error Bound (Timestamp, Test Data Value, Decompressed Value):"
    );
    assert!(lines[7].starts_with("  7 "));
}

#[test]
fn undefined_section_appears_after_the_exceeded_section() {
    // Index 0 exceeds the bound with an undefined (infinite) error.
    let original = series(&[(3, 0.0)]);
    let reconstructed = series(&[(3, 1.0)]);
    let report = validate_and_compare(&original, &reconstructed, 10.0f32.to_bits()).unwrap();
    let lines = render(&report, &original, &reconstructed);
    assert_eq!(lines.len(), 10);
    assert_eq!(
        lines[6],
        "- Exceeded Error Bound (Timestamp, Test Data Value, Decompressed Value):"
    );
    assert_eq!(
        lines[8],
        "- Undefined Actual Error (Timestamp, Test Data Value, Decompressed Value):"
    );
    assert_eq!(lines[7], lines[9]);
    assert!(lines[7].starts_with("  3 "));
    // The histogram line shows the positive-infinity sentinel bucket.
    assert!(lines[5].contains("+Inf% 1"));
}

#[test]
fn empty_report_renders_without_sections() {
    let original = series(&[]);
    let report = validate_and_compare(&original, &original.clone(), 1.0f32.to_bits()).unwrap();
    let lines = render(&report, &original, &original);
    assert_eq!(lines.len(), 6);
    assert_eq!(lines[0], "- Total Number of Values: 0");
    assert_eq!(lines[5], "- Error Ceil Histogram:");
}

#[test]
fn negative_timestamps_render_signed() {
    let original = series(&[(-5, 1.0)]);
    let reconstructed = series(&[(-5, 3.0)]);
    let report = validate_and_compare(&original, &reconstructed, 10.0f32.to_bits()).unwrap();
    let lines = render(&report, &original, &reconstructed);
    // 200% error: the point is listed with its signed timestamp.
    assert_eq!(lines.len(), 8);
    assert!(lines[7].starts_with("  -5 "));
}
