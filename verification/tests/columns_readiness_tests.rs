use modelardb_evaluator::columns::index_of_timestamp_column;
use modelardb_evaluator::columns::normalize_column;
use modelardb_evaluator::columns::ColumnDecision;
use modelardb_evaluator::columns::NormalizedColumnType;
use modelardb_evaluator::columns::RawColumnType;
use modelardb_evaluator::readiness::ends_with;

#[test]
fn columns_with_nulls_are_skipped() {
    assert_eq!(normalize_column(true, RawColumnType::Float64), ColumnDecision::Skip);
    assert_eq!(
        normalize_column(true, RawColumnType::Timestamp { zoned: false }),
        ColumnDecision::Skip
    );
}

#[test]
fn supported_types_are_cast() {
    assert_eq!(
        normalize_column(false, RawColumnType::Timestamp { zoned: false }),
        ColumnDecision::Cast(NormalizedColumnType::TimestampMillis)
    );
    assert_eq!(
        normalize_column(false, RawColumnType::Float16),
        ColumnDecision::Cast(NormalizedColumnType::Float32)
    );
    assert_eq!(
        normalize_column(false, RawColumnType::Float32),
        ColumnDecision::Cast(NormalizedColumnType::Float32)
    );
    assert_eq!(
        normalize_column(false, RawColumnType::Float64),
        ColumnDecision::Cast(NormalizedColumnType::Float32)
    );
    assert_eq!(
        normalize_column(false, RawColumnType::Utf8),
        ColumnDecision::Cast(NormalizedColumnType::Utf8)
    );
    assert_eq!(
        normalize_column(false, RawColumnType::LargeUtf8),
        ColumnDecision::Cast(NormalizedColumnType::Utf8)
    );
}

#[test]
fn unsupported_types_abort() {
    assert_eq!(normalize_column(false, RawColumnType::Other), ColumnDecision::Unsupported);
    assert_eq!(
        normalize_column(false, RawColumnType::Timestamp { zoned: true }),
        ColumnDecision::Unsupported
    );
}

#[test]
fn first_timestamp_column_is_found() {
    let columns = vec![
        NormalizedColumnType::Float32,
        NormalizedColumnType::TimestampMillis,
        NormalizedColumnType::TimestampMillis,
    ];
    assert_eq!(index_of_timestamp_column(&columns), Some(1));
}

#[test]
fn schema_without_timestamp_column_yields_none() {
    let columns = vec![NormalizedColumnType::Float32, NormalizedColumnType::Utf8];
    assert_eq!(index_of_timestamp_column(&columns), None);
    assert_eq!(index_of_timestamp_column(&vec![]), None);
}

#[test]
fn readiness_phrase_detection() {
    let phrase: Vec<u8> = b"ready to serve".to_vec();
    let mut buffer: Vec<u8> = b"starting up... ready to serv".to_vec();
    assert!(!ends_with(&buffer, &phrase));
    buffer.push(b'e');
    assert!(ends_with(&buffer, &phrase));
    buffer.push(b'!');
    assert!(!ends_with(&buffer, &phrase));
    assert!(!ends_with(&vec![], &phrase));
    assert!(ends_with(&buffer, &vec![]));
}
