//! Time series and the aligned-pair validator.
//!
//! A series is an ordered sequence of samples, each a timestamp in
//! milliseconds and a single-precision value carried as its bit pattern.
//! Before two series are compared point by point, the validator confirms
//! that they have the same length and identical timestamps at every index;
//! any mismatch aborts the whole comparison.

use vstd::prelude::*;

verus! {

/// One point of a time series: a timestamp in milliseconds since the epoch
/// and the bit pattern of a single-precision value.
#[derive(Clone, Copy, PartialEq, Eq, Structural, Debug)]
pub struct Sample {
    pub timestamp: i64,
    pub value: u32,
}

/// An ordered sequence of samples.
#[derive(Clone, Debug)]
pub struct Series {
    pub samples: Vec<Sample>,
}

impl View for Series {
    type V = Seq<Sample>;

    open spec fn view(&self) -> Seq<Sample> {
        self.samples@
    }
}

/// Why a comparison of two series was aborted.
#[derive(Clone, Copy, PartialEq, Eq, Structural, Debug)]
pub enum ComparisonError {
    /// The two series do not have the same number of samples.
    LengthMismatch { original_len: usize, reconstructed_len: usize },
    /// The two series diverge in their timestamps; the index is the first
    /// position at which they do.
    TimestampMismatch { index: usize, original_ts: i64, reconstructed_ts: i64 },
    /// A finite error ceiling was not exactly a non-negative integer that
    /// fits the histogram's key type. Unreachable under IEEE 754
    /// arithmetic; kept as a defensive invariant.
    NonIntegralBucketKey { index: usize, value_bits: u32 },
}

/// The two series have equal length and identical timestamps everywhere.
pub open spec fn timestamps_aligned(o: Seq<Sample>, r: Seq<Sample>) -> bool {
    &&& o.len() == r.len()
    &&& forall|i: int| 0 <= i < o.len() ==> o[i].timestamp == r[i].timestamp
}

/// Confirm that `original` and `reconstructed` are aligned: equal lengths,
/// and identical timestamps at every index. A length mismatch is reported
/// before any timestamp is read; a timestamp mismatch is reported at the
/// first diverging index.
pub fn validate(original: &Series, reconstructed: &Series) -> (result: Result<
    (),
    ComparisonError,
>)
    ensures
        match result {
            Ok(()) => timestamps_aligned(original@, reconstructed@),
            Err(ComparisonError::LengthMismatch { original_len, reconstructed_len }) => {
                &&& original@.len() != reconstructed@.len()
                &&& original_len == original@.len()
                &&& reconstructed_len == reconstructed@.len()
            },
            Err(ComparisonError::TimestampMismatch { index, original_ts, reconstructed_ts }) => {
                &&& original@.len() == reconstructed@.len()
                &&& 0 <= index < original@.len()
                &&& original@[index as int].timestamp != reconstructed@[index as int].timestamp
                &&& original_ts == original@[index as int].timestamp
                &&& reconstructed_ts == reconstructed@[index as int].timestamp
                &&& forall|j: int|
                    0 <= j < index ==> original@[j].timestamp == reconstructed@[j].timestamp
            },
            Err(ComparisonError::NonIntegralBucketKey { .. }) => false,
        },
{
    let n = original.samples.len();
    if n != reconstructed.samples.len() {
        return Err(
            ComparisonError::LengthMismatch {
                original_len: n,
                reconstructed_len: reconstructed.samples.len(),
            },
        );
    }
    for i in 0..n
        invariant
            n == original@.len() == reconstructed@.len(),
            forall|j: int| 0 <= j < i ==> original@[j].timestamp == reconstructed@[j].timestamp,
    {
        let a = original.samples[i].timestamp;
        let b = reconstructed.samples[i].timestamp;
        if a != b {
            return Err(
                ComparisonError::TimestampMismatch {
                    index: i,
                    original_ts: a,
                    reconstructed_ts: b,
                },
            );
        }
    }
    Ok(())
}

} // verus!
