//! Column normalization decisions.
//!
//! Input datasets arrive as tables whose columns carry a timestamp, a
//! floating-point or a string type, possibly with null values. Which
//! columns are kept, to which supported type each is cast, and which
//! column serves as the timestamp column are decisions on the columns'
//! shapes alone; the casting itself is left to the caller.

use vstd::prelude::*;

verus! {

/// The shape of an incoming column, as far as the decisions read it.
#[derive(Clone, Copy, PartialEq, Eq, Structural, Debug)]
pub enum RawColumnType {
    /// A timestamp of any unit; `zoned` says whether it carries a time
    /// zone.
    Timestamp { zoned: bool },
    Float16,
    Float32,
    Float64,
    Utf8,
    LargeUtf8,
    /// Any other type.
    Other,
}

/// The column types the evaluated store supports.
#[derive(Clone, Copy, PartialEq, Eq, Structural, Debug)]
pub enum NormalizedColumnType {
    TimestampMillis,
    Float32,
    Utf8,
}

/// What to do with one incoming column.
#[derive(Clone, Copy, PartialEq, Eq, Structural, Debug)]
pub enum ColumnDecision {
    /// Drop the column: it contains null values.
    Skip,
    /// Keep the column, cast to the given supported type.
    Cast(NormalizedColumnType),
    /// Abort: the type cannot be normalized.
    Unsupported,
}

/// The decision for one column: a column with nulls is skipped; a
/// zone-free timestamp becomes a millisecond timestamp; every float
/// width becomes single precision; both string types become `Utf8`;
/// everything else — a zoned timestamp included — is unsupported.
pub open spec fn column_decision(has_nulls: bool, raw: RawColumnType) -> ColumnDecision {
    if has_nulls {
        ColumnDecision::Skip
    } else {
        match raw {
            RawColumnType::Timestamp { zoned: false } => ColumnDecision::Cast(
                NormalizedColumnType::TimestampMillis,
            ),
            RawColumnType::Timestamp { zoned: true } => ColumnDecision::Unsupported,
            RawColumnType::Float16 => ColumnDecision::Cast(NormalizedColumnType::Float32),
            RawColumnType::Float32 => ColumnDecision::Cast(NormalizedColumnType::Float32),
            RawColumnType::Float64 => ColumnDecision::Cast(NormalizedColumnType::Float32),
            RawColumnType::Utf8 => ColumnDecision::Cast(NormalizedColumnType::Utf8),
            RawColumnType::LargeUtf8 => ColumnDecision::Cast(NormalizedColumnType::Utf8),
            RawColumnType::Other => ColumnDecision::Unsupported,
        }
    }
}

/// Decide what to do with one incoming column, exactly as
/// `column_decision` specifies it.
pub fn normalize_column(has_nulls: bool, raw: RawColumnType) -> (decision: ColumnDecision)
    ensures
        decision == column_decision(has_nulls, raw),
{
    if has_nulls {
        ColumnDecision::Skip
    } else {
        match raw {
            RawColumnType::Timestamp { zoned } => {
                if zoned {
                    ColumnDecision::Unsupported
                } else {
                    ColumnDecision::Cast(NormalizedColumnType::TimestampMillis)
                }
            },
            RawColumnType::Float16 | RawColumnType::Float32 | RawColumnType::Float64 => {
                ColumnDecision::Cast(NormalizedColumnType::Float32)
            },
            RawColumnType::Utf8 | RawColumnType::LargeUtf8 => {
                ColumnDecision::Cast(NormalizedColumnType::Utf8)
            },
            RawColumnType::Other => ColumnDecision::Unsupported,
        }
    }
}

/// The index of the first millisecond-timestamp column of a normalized
/// schema, or `None` when the schema has none.
pub fn index_of_timestamp_column(columns: &Vec<NormalizedColumnType>) -> (result: Option<usize>)
    ensures
        match result {
            Some(i) => {
                &&& 0 <= i < columns@.len()
                &&& columns@[i as int] == NormalizedColumnType::TimestampMillis
                &&& forall|j: int|
                    0 <= j < i ==> columns@[j] != NormalizedColumnType::TimestampMillis
            },
            None => forall|j: int|
                0 <= j < columns@.len() ==> columns@[j] != NormalizedColumnType::TimestampMillis,
        },
{
    let n = columns.len();
    for i in 0..n
        invariant
            n == columns@.len(),
            forall|j: int| 0 <= j < i ==> columns@[j] != NormalizedColumnType::TimestampMillis,
    {
        if matches!(columns[i], NormalizedColumnType::TimestampMillis) {
            return Some(i);
        }
    }
    None
}

} // verus!
