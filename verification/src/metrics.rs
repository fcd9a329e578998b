//! Per-point error classification and streaming aggregation.
//!
//! For every aligned pair of an original and a reconstructed value the
//! classifier decides whether the pair is exact, derives a signed
//! difference, a relative error ratio and an error percentage, and maps
//! the ceiling of the percentage to an integer histogram key — one of
//! three reserved sentinel keys when the ceiling is an infinity or a NaN.
//! The aggregator folds one classification after another into an
//! [`AccuracyReport`]. The whole fold is specified by the recursive
//! [`run_model`], and the executable code is proved to implement it.

use vstd::prelude::*;

use crate::arith::add_bits;
use crate::arith::ceil_bits;
use crate::arith::div_bits;
use crate::arith::div_bits_64;
use crate::arith::f32_add;
use crate::arith::f32_ceil;
use crate::arith::f32_div;
use crate::arith::f32_mul;
use crate::arith::f32_sub;
use crate::arith::f32_widen;
use crate::arith::f64_div;
use crate::arith::f64_from_u64;
use crate::arith::f64_mul;
use crate::arith::from_u64_bits;
use crate::arith::mul_bits;
use crate::arith::mul_bits_64;
use crate::arith::sub_bits;
use crate::arith::widen_bits;
use crate::bits::HUNDRED_32;
use crate::bits::HUNDRED_64;
use crate::bits::NEG_INF_32;
use crate::bits::ONE_32;
use crate::bits::POS_INF_32;
use crate::bits::abs_32;
use crate::bits::exact_u64_of_32;
use crate::bits::float_abs;
use crate::bits::float_exact_u64;
use crate::bits::float_gt;
use crate::bits::float_is_nan;
use crate::bits::float_lt;
use crate::bits::gt_32;
use crate::bits::is_finite_32;
use crate::bits::is_nan_32;
use crate::bits::is_negative_32;
use crate::bits::lemma_abs_constants;
use crate::bits::lt_32;
use crate::histogram::Histogram;
use crate::histogram::bump;
use crate::histogram::count_in;
use crate::histogram::hist_wf;
use crate::histogram::lemma_bump_count;
use crate::histogram::lemma_bump_total;
use crate::histogram::lemma_count_le_total;
use crate::histogram::total_count;
use crate::series::ComparisonError;
use crate::series::Sample;
use crate::series::Series;
use crate::series::timestamps_aligned;
use crate::series::validate;

verus! {

/// Histogram key reserved for a ceiling of negative infinity.
pub const INTEGER_NEGATIVE_INFINITY: u64 = u64::MAX - 2;

/// Histogram key reserved for a ceiling of positive infinity.
pub const INTEGER_POSITIVE_INFINITY: u64 = u64::MAX - 1;

/// Histogram key reserved for a ceiling that is a NaN.
pub const INTEGER_NAN: u64 = u64::MAX;

/// The pair counts as exact: the bit patterns are equal, or both are NaN.
pub open spec fn exact_pair(o: u32, r: u32) -> bool {
    o == r || (is_nan_32(o) && is_nan_32(r))
}

/// The signed difference of a pair: zero for an exact pair, otherwise the
/// single-precision difference `o - r`.
pub open spec fn point_diff(o: u32, r: u32) -> u32 {
    if exact_pair(o, r) {
        0
    } else {
        sub_bits(o, r)
    }
}

/// The relative error ratio of a pair: zero for an exact pair, otherwise
/// `|(o - r) / o|`, the denominator being the original value — a zero
/// original with a non-zero difference yields an infinity by design.
pub open spec fn point_ratio(o: u32, r: u32) -> u32 {
    if exact_pair(o, r) {
        0
    } else {
        abs_32(div_bits(sub_bits(o, r), o))
    }
}

/// The error percentage of a pair: `100 * ratio`. An exact pair's
/// percentage is a positive zero, the product of `100.0` with the zero
/// ratio.
pub open spec fn point_percent(o: u32, r: u32) -> u32 {
    if exact_pair(o, r) {
        0
    } else {
        mul_bits(HUNDRED_32, point_ratio(o, r))
    }
}

/// The ceiling of the error percentage; the ceiling of an exact pair's
/// zero percentage is zero.
pub open spec fn point_ceiling(o: u32, r: u32) -> u32 {
    if exact_pair(o, r) {
        0
    } else {
        ceil_bits(point_percent(o, r))
    }
}

/// The ceiling cannot serve as a number: the point's error is undefined
/// and the point is recorded in the undefined-error index list.
pub open spec fn undefined_ceiling(c: u32) -> bool {
    c == NEG_INF_32 || c == POS_INF_32 || is_nan_32(c)
}

/// The histogram key of a ceiling: one of the three sentinel keys for the
/// infinities and NaN, otherwise the ceiling's exact value as a
/// non-negative integer — and `None` where it has no such value, which is
/// the fatal defensive failure.
pub open spec fn bucket_key_of(c: u32) -> Option<u64> {
    if c == NEG_INF_32 {
        Some(INTEGER_NEGATIVE_INFINITY)
    } else if c == POS_INF_32 {
        Some(INTEGER_POSITIVE_INFINITY)
    } else if is_nan_32(c) {
        Some(INTEGER_NAN)
    } else {
        exact_u64_of_32(c)
    }
}

/// The aggregate state after some prefix of the pairs, in mathematical
/// form: counts as integers, index lists as sequences, the histogram as a
/// key/count sequence, and every floating-point accumulation by its bits.
#[verifier::ext_equal]
pub ghost struct ReportModel {
    pub total: int,
    pub exact: int,
    pub sum_abs_difference: u32,
    pub sum_abs_original: u32,
    pub sum_ratio: u32,
    pub max_error: u32,
    pub max_error_original: u32,
    pub max_error_reconstructed: u32,
    pub hist: Seq<(u64, u64)>,
    pub exceeded: Seq<int>,
    pub undefined: Seq<int>,
}

/// The fatal defensive failure: at this index the finite ceiling with
/// these bits was not exactly a non-negative integer fitting a `u64`.
pub ghost struct BucketFailure {
    pub index: int,
    pub value_bits: u32,
}

/// The aggregate state before any pair: every count, sum and maximum is
/// zero — the zero maximum mirrors that tracking starts from `0.0`.
pub open spec fn empty_model() -> ReportModel {
    ReportModel {
        total: 0,
        exact: 0,
        sum_abs_difference: 0,
        sum_abs_original: 0,
        sum_ratio: 0,
        max_error: 0,
        max_error_original: 0,
        max_error_reconstructed: 0,
        hist: Seq::empty(),
        exceeded: Seq::empty(),
        undefined: Seq::empty(),
    }
}

/// Fold one pair into the aggregate state: bump every sum by the point's
/// contribution, keep the largest error percentage with the first pair
/// that reached it, record the histogram key, and append the point's
/// index — the running total — to the index lists its classification
/// calls for. Fails where the ceiling has no histogram key.
pub open spec fn step_model(m: ReportModel, o: u32, r: u32, bound: u32) -> Result<
    ReportModel,
    BucketFailure,
> {
    let percent = point_percent(o, r);
    let c = point_ceiling(o, r);
    match bucket_key_of(c) {
        None => Err(BucketFailure { index: m.total, value_bits: c }),
        Some(key) => Ok(
            ReportModel {
                total: m.total + 1,
                exact: m.exact + if exact_pair(o, r) {
                    1int
                } else {
                    0int
                },
                sum_abs_difference: add_bits(m.sum_abs_difference, abs_32(point_diff(o, r))),
                sum_abs_original: add_bits(m.sum_abs_original, abs_32(o)),
                sum_ratio: add_bits(m.sum_ratio, point_ratio(o, r)),
                max_error: if lt_32(m.max_error, percent) {
                    percent
                } else {
                    m.max_error
                },
                max_error_original: if lt_32(m.max_error, percent) {
                    o
                } else {
                    m.max_error_original
                },
                max_error_reconstructed: if lt_32(m.max_error, percent) {
                    r
                } else {
                    m.max_error_reconstructed
                },
                hist: bump(m.hist, key),
                exceeded: if gt_32(percent, bound) {
                    m.exceeded.push(m.total)
                } else {
                    m.exceeded
                },
                undefined: if undefined_ceiling(c) {
                    m.undefined.push(m.total)
                } else {
                    m.undefined
                },
            },
        ),
    }
}

/// The aggregate state after all pairs, folded left to right from the
/// empty state; the first pair whose ceiling has no histogram key fails
/// the whole fold.
pub open spec fn run_model(pairs: Seq<(u32, u32)>, bound: u32) -> Result<
    ReportModel,
    BucketFailure,
>
    decreases pairs.len(),
{
    if pairs.len() == 0 {
        Ok(empty_model())
    } else {
        match run_model(pairs.drop_last(), bound) {
            Err(f) => Err(f),
            Ok(m) => step_model(m, pairs.last().0, pairs.last().1, bound),
        }
    }
}

/// The value pairs of two aligned series, index by index.
pub open spec fn pairs_of(o: Seq<Sample>, r: Seq<Sample>) -> Seq<(u32, u32)> {
    Seq::new(o.len(), |i: int| (o[i].value, r[i].value))
}

/// A sequence of indices as mathematical integers.
pub open spec fn indices_view(s: Seq<usize>) -> Seq<int> {
    s.map_values(|x: usize| x as int)
}

proof fn lemma_indices_view_push(s: Seq<usize>, x: usize)
    ensures
        indices_view(s.push(x)) =~= indices_view(s).push(x as int),
{
}

/// The aggregate result of one comparison: global counts and sums, the
/// maximum error with the pair that produced it, the bucket histogram,
/// and the ordered lists of bound-exceeding and undefined-error indices.
/// Floating-point quantities are carried as their bit patterns.
#[derive(Clone, Debug)]
pub struct AccuracyReport {
    pub total: usize,
    pub exact: usize,
    pub sum_abs_difference: u32,
    pub sum_abs_original: u32,
    pub sum_ratio: u32,
    pub max_error: u32,
    pub max_error_original: u32,
    pub max_error_reconstructed: u32,
    pub histogram: Histogram,
    pub exceeded_indices: Vec<usize>,
    pub undefined_indices: Vec<usize>,
}

impl View for AccuracyReport {
    type V = ReportModel;

    open spec fn view(&self) -> ReportModel {
        ReportModel {
            total: self.total as int,
            exact: self.exact as int,
            sum_abs_difference: self.sum_abs_difference,
            sum_abs_original: self.sum_abs_original,
            sum_ratio: self.sum_ratio,
            max_error: self.max_error,
            max_error_original: self.max_error_original,
            max_error_reconstructed: self.max_error_reconstructed,
            hist: self.histogram@,
            exceeded: indices_view(self.exceeded_indices@),
            undefined: indices_view(self.undefined_indices@),
        }
    }
}

impl AccuracyReport {
    /// The report's internal invariant: the histogram is well formed, its
    /// counts sum to the running total, and at most every point was
    /// exact.
    pub open spec fn wf(self) -> bool {
        &&& hist_wf(self.histogram@)
        &&& total_count(self.histogram@) == self.total as int
        &&& self.exact <= self.total
    }

    /// The empty report, the aggregate of no points.
    pub fn new() -> (report: AccuracyReport)
        ensures
            report@ =~= empty_model(),
            report.wf(),
    {
        let report = AccuracyReport {
            total: 0,
            exact: 0,
            sum_abs_difference: 0,
            sum_abs_original: 0,
            sum_ratio: 0,
            max_error: 0,
            max_error_original: 0,
            max_error_reconstructed: 0,
            histogram: Histogram::new(),
            exceeded_indices: Vec::new(),
            undefined_indices: Vec::new(),
        };
        report
    }

    /// Fold one aligned value pair into the report, exactly as
    /// `step_model` describes; on the defensive bucket-key failure the
    /// report is left unchanged and the error carries the point's index
    /// and the offending ceiling bits.
    ///
    /// A pair of a zero original and a one reconstructed value has a
    /// relative error ratio of positive infinity; under any finite error
    /// bound its index is appended to both the undefined-error and the
    /// bound-exceeding lists, and the positive-infinity sentinel bucket
    /// grows by one.
    pub fn record_point(&mut self, o: u32, r: u32, bound: u32) -> (result: Result<
        (),
        ComparisonError,
    >)
        requires
            old(self).wf(),
            old(self).total < usize::MAX,
        ensures
            final(self).wf(),
            match step_model(old(self)@, o, r, bound) {
                Ok(m) => result is Ok && final(self)@ == m,
                Err(f) => {
                    &&& result == Err::<(), ComparisonError>(
                        ComparisonError::NonIntegralBucketKey {
                            index: old(self).total,
                            value_bits: f.value_bits,
                        },
                    )
                    &&& f.index == old(self)@.total
                    &&& *final(self) == *old(self)
                },
            },
            o == 0 && r == ONE_32 && is_finite_32(bound) ==> {
                &&& result is Ok
                &&& point_ratio(o, r) == POS_INF_32
                &&& final(self)@.undefined =~= old(self)@.undefined.push(old(self)@.total)
                &&& final(self)@.exceeded =~= old(self)@.exceeded.push(old(self)@.total)
                &&& count_in(final(self)@.hist, INTEGER_POSITIVE_INFINITY) == count_in(
                    old(self)@.hist,
                    INTEGER_POSITIVE_INFINITY,
                ) + 1
            },
    {
        proof {
            lemma_abs_constants();
        }
        let ghost m0 = self@;
        let is_exact = o == r || (float_is_nan(o) && float_is_nan(r));
        let (diff, ratio): (u32, u32) = if is_exact {
            (0, 0)
        } else {
            let d = f32_sub(o, r);
            (d, float_abs(f32_div(d, o)))
        };
        let percent = f32_mul(HUNDRED_32, ratio);
        let ceiling = f32_ceil(percent);
        assert(diff == point_diff(o, r));
        assert(ratio == point_ratio(o, r));
        assert(percent == point_percent(o, r));
        assert(ceiling == point_ceiling(o, r));
        let index = self.total;
        let key: u64 = if ceiling == NEG_INF_32 {
            INTEGER_NEGATIVE_INFINITY
        } else if ceiling == POS_INF_32 {
            INTEGER_POSITIVE_INFINITY
        } else if float_is_nan(ceiling) {
            INTEGER_NAN
        } else {
            match float_exact_u64(ceiling) {
                Some(k) => k,
                None => {
                    return Err(
                        ComparisonError::NonIntegralBucketKey {
                            index,
                            value_bits: ceiling,
                        },
                    );
                },
            }
        };
        assert(bucket_key_of(point_ceiling(o, r)) == Some(key));
        self.sum_abs_difference = f32_add(self.sum_abs_difference, float_abs(diff));
        self.sum_abs_original = f32_add(self.sum_abs_original, float_abs(o));
        self.sum_ratio = f32_add(self.sum_ratio, ratio);
        if float_lt(self.max_error, percent) {
            self.max_error = percent;
            self.max_error_original = o;
            self.max_error_reconstructed = r;
        }
        proof {
            lemma_count_le_total(self.histogram@, key);
        }
        self.histogram.increment(key);
        if ceiling == NEG_INF_32 || ceiling == POS_INF_32 || float_is_nan(ceiling) {
            self.undefined_indices.push(index);
            proof {
                lemma_indices_view_push(old(self).undefined_indices@, index);
            }
        }
        if float_gt(percent, bound) {
            self.exceeded_indices.push(index);
            proof {
                lemma_indices_view_push(old(self).exceeded_indices@, index);
            }
        }
        if is_exact {
            self.exact = self.exact + 1;
        }
        self.total = self.total + 1;
        proof {
            lemma_bump_total(m0.hist, key);
            let stepped = step_model(m0, o, r, bound);
            assert(stepped is Ok);
            assert(self@ =~= stepped->Ok_0);
            if o == 0 && r == ONE_32 && is_finite_32(bound) {
                assert(point_ratio(o, r) == POS_INF_32);
                assert(key == INTEGER_POSITIVE_INFINITY);
                lemma_bump_count(m0.hist, key, INTEGER_POSITIVE_INFINITY);
            }
        }
        Ok(())
    }

    /// The percentage of points without error: `100 * exact / total`, in
    /// double precision as bits. When every point was exact and there was
    /// at least one, the result is exactly `100.0`.
    pub fn without_error_percentage(&self) -> (r: u64)
        ensures
            r == mul_bits_64(
                HUNDRED_64,
                div_bits_64(from_u64_bits(self.exact as u64), from_u64_bits(self.total as u64)),
            ),
            self.exact == self.total && self.total > 0 ==> r == HUNDRED_64,
    {
        let e = f64_from_u64(self.exact as u64);
        let t = f64_from_u64(self.total as u64);
        f64_mul(HUNDRED_64, f64_div(e, t))
    }

    /// The average relative error percentage: `100` times the quotient of
    /// the two absolute sums, in single precision as bits.
    pub fn average_relative_error_percentage(&self) -> (r: u32)
        ensures
            r == mul_bits(HUNDRED_32, div_bits(self.sum_abs_difference, self.sum_abs_original)),
    {
        f32_mul(HUNDRED_32, f32_div(self.sum_abs_difference, self.sum_abs_original))
    }

    /// The mean absolute percentage error: `100` times the ratio sum over
    /// the total, computed in double precision as bits.
    pub fn mean_absolute_percentage_error(&self) -> (r: u64)
        ensures
            r == mul_bits_64(
                HUNDRED_64,
                div_bits_64(widen_bits(self.sum_ratio), from_u64_bits(self.total as u64)),
            ),
    {
        f64_mul(HUNDRED_64, f64_div(f32_widen(self.sum_ratio), f64_from_u64(self.total as u64)))
    }
}

/// Validate that the two series are aligned and fold every value pair
/// into an accuracy report. The result is pinned completely: a length
/// mismatch is reported before anything else, a timestamp divergence is
/// reported at its first index, and otherwise the report is exactly the
/// fold `run_model` describes, the defensive bucket-key failure carrying
/// the first offending index.
pub fn validate_and_compare(original: &Series, reconstructed: &Series, error_bound: u32) -> (result:
    Result<AccuracyReport, ComparisonError>)
    ensures
        match result {
            Ok(report) => {
                &&& timestamps_aligned(original@, reconstructed@)
                &&& run_model(pairs_of(original@, reconstructed@), error_bound) == Ok::<
                    ReportModel,
                    BucketFailure,
                >(report@)
                &&& report.wf()
                &&& report.total == original@.len()
                &&& forall|k: int|
                    0 <= k < report.exceeded_indices@.len()
                        ==> #[trigger] report.exceeded_indices@[k] < report.total
                &&& forall|k: int|
                    0 <= k < report.undefined_indices@.len()
                        ==> #[trigger] report.undefined_indices@[k] < report.total
            },
            Err(ComparisonError::LengthMismatch { original_len, reconstructed_len }) => {
                &&& original@.len() != reconstructed@.len()
                &&& original_len == original@.len()
                &&& reconstructed_len == reconstructed@.len()
            },
            Err(ComparisonError::TimestampMismatch { index, original_ts, reconstructed_ts }) => {
                &&& original@.len() == reconstructed@.len()
                &&& 0 <= index < original@.len()
                &&& original@[index as int].timestamp != reconstructed@[index as int].timestamp
                &&& original_ts == original@[index as int].timestamp
                &&& reconstructed_ts == reconstructed@[index as int].timestamp
                &&& forall|j: int|
                    0 <= j < index ==> original@[j].timestamp == reconstructed@[j].timestamp
            },
            Err(ComparisonError::NonIntegralBucketKey { index, value_bits }) => {
                &&& timestamps_aligned(original@, reconstructed@)
                &&& run_model(pairs_of(original@, reconstructed@), error_bound) == Err::<
                    ReportModel,
                    BucketFailure,
                >(BucketFailure { index: index as int, value_bits })
            },
        },
{
    match validate(original, reconstructed) {
        Err(e) => {
            return Err(e);
        },
        Ok(()) => {},
    }
    let ghost pairs = pairs_of(original@, reconstructed@);
    let mut report = AccuracyReport::new();
    let n = original.samples.len();
    for i in 0..n
        invariant
            n == original@.len(),
            n == reconstructed@.len(),
            timestamps_aligned(original@, reconstructed@),
            pairs == pairs_of(original@, reconstructed@),
            report.wf(),
            report.total == i,
            run_model(pairs.take(i as int), error_bound) == Ok::<ReportModel, BucketFailure>(
                report@,
            ),
    {
        let o = original.samples[i].value;
        let r = reconstructed.samples[i].value;
        let ghost before = report@;
        let step = report.record_point(o, r, error_bound);
        proof {
            assert(pairs.take(i as int + 1).drop_last() =~= pairs.take(i as int));
            assert(pairs.take(i as int + 1).last() == (o, r));
        }
        match step {
            Ok(()) => {},
            Err(e) => {
                proof {
                    assert(run_model(pairs.take(i as int + 1), error_bound) is Err);
                    lemma_run_model_err_extends(pairs, error_bound, i as int + 1);
                }
                return Err(e);
            },
        }
    }
    proof {
        assert(pairs.take(n as int) =~= pairs);
        lemma_run_model_index_range(pairs, error_bound);
        assert forall|k: int|
            0 <= k < report.exceeded_indices@.len() implies #[trigger] report.exceeded_indices@[k]
            < report.total by {
            assert(report@.exceeded[k] == report.exceeded_indices@[k] as int);
        }
        assert forall|k: int|
            0 <= k < report.undefined_indices@.len() implies #[trigger] report.undefined_indices@[k]
            < report.total by {
            assert(report@.undefined[k] == report.undefined_indices@[k] as int);
        }
    }
    Ok(report)
}

/// An errored prefix decides the whole fold: once some prefix of the
/// pairs fails, the fold of the full sequence fails with the same
/// failure.
pub proof fn lemma_run_model_err_extends(pairs: Seq<(u32, u32)>, bound: u32, k: int)
    requires
        0 <= k <= pairs.len(),
        run_model(pairs.take(k), bound) is Err,
    ensures
        run_model(pairs, bound) == run_model(pairs.take(k), bound),
    decreases pairs.len() - k,
{
    if k == pairs.len() {
        assert(pairs.take(k) =~= pairs);
    } else {
        assert(pairs.take(k + 1).drop_last() =~= pairs.take(k));
        lemma_run_model_err_extends(pairs, bound, k + 1);
    }
}

/// The histogram's bucket counts sum exactly to the total count: a
/// successful fold yields a well-formed histogram whose counts add up to
/// the number of pairs folded, and an exact count no larger than it.
pub proof fn lemma_histogram_total(pairs: Seq<(u32, u32)>, bound: u32)
    requires
        pairs.len() <= u64::MAX,
    ensures
        run_model(pairs, bound) matches Ok(m) ==> {
            &&& m.total == pairs.len()
            &&& hist_wf(m.hist)
            &&& total_count(m.hist) == m.total
            &&& 0 <= m.exact <= m.total
        },
    decreases pairs.len(),
{
    if pairs.len() > 0 && run_model(pairs, bound) is Ok {
        lemma_histogram_total(pairs.drop_last(), bound);
        let m = run_model(pairs.drop_last(), bound)->Ok_0;
        let key = bucket_key_of(point_ceiling(pairs.last().0, pairs.last().1)).unwrap();
        lemma_count_le_total(m.hist, key);
        lemma_bump_total(m.hist, key);
        crate::histogram::lemma_bump_wf(m.hist, key);
    }
}

/// A series compared against a bitwise identical reconstruction: every
/// point is exact, the maximum error stays zero, no index is recorded in
/// either list, and the histogram holds the single key zero with the
/// full total — provided the error bound is not negative.
pub proof fn lemma_identical_series(pairs: Seq<(u32, u32)>, bound: u32)
    requires
        pairs.len() <= u64::MAX,
        !is_negative_32(bound),
        forall|i: int| 0 <= i < pairs.len() ==> (#[trigger] pairs[i]).0 == pairs[i].1,
    ensures
        run_model(pairs, bound) is Ok,
        run_model(pairs, bound) matches Ok(m) ==> {
            &&& m.total == pairs.len()
            &&& m.exact == pairs.len()
            &&& m.max_error == 0
            &&& m.exceeded =~= Seq::<int>::empty()
            &&& m.undefined =~= Seq::<int>::empty()
            &&& pairs.len() == 0 ==> m.hist =~= Seq::<(u64, u64)>::empty()
            &&& pairs.len() > 0 ==> m.hist =~= seq![(0u64, pairs.len() as u64)]
        },
    decreases pairs.len(),
{
    lemma_abs_constants();
    if pairs.len() > 0 {
        lemma_identical_series(pairs.drop_last(), bound);
        let m = run_model(pairs.drop_last(), bound)->Ok_0;
        let o = pairs.last().0;
        let r = pairs.last().1;
        assert(exact_pair(o, r));
        assert(point_ceiling(o, r) == 0);
        assert(!is_nan_32(0));
        assert(bucket_key_of(0) == Some(0u64));
        assert(!gt_32(point_percent(o, r), bound));
        assert(!lt_32(m.max_error, point_percent(o, r)));
        if pairs.len() == 1 {
            assert(bump(m.hist, 0u64) =~= seq![(0u64, 1u64)]);
        } else {
            assert(m.hist =~= seq![(0u64, (pairs.len() - 1) as u64)]);
            assert(m.hist[0].0 == 0u64);
            assert(crate::histogram::has_key(m.hist, 0u64));
            assert(bump(m.hist, 0u64) =~= seq![(0u64, pairs.len() as u64)]);
        }
    }
}

/// The three sentinel keys cannot collide with a real bucket key: a
/// finite ceiling's exact integer value is at most `0xFFFFFF * 2^40`,
/// far below the sentinel range at the top of `u64`.
pub proof fn lemma_sentinels_never_collide(c: u32)
    ensures
        is_finite_32(c) ==> (bucket_key_of(c) matches Some(key) ==> key
            < INTEGER_NEGATIVE_INFINITY),
{
    lemma_abs_constants();
    crate::bits::lemma_exact_u64_below_sentinels(c);
}

/// Every index recorded in either list lies below the running total, and
/// both lists are strictly increasing — each point is recorded at most
/// once, in traversal order.
pub proof fn lemma_run_model_index_range(pairs: Seq<(u32, u32)>, bound: u32)
    ensures
        run_model(pairs, bound) matches Ok(m) ==> {
            &&& forall|k: int| 0 <= k < m.exceeded.len() ==> 0 <= #[trigger] m.exceeded[k] < m.total
            &&& forall|k: int|
                0 <= k < m.undefined.len() ==> 0 <= #[trigger] m.undefined[k] < m.total
            &&& forall|k: int|
                0 <= k < m.exceeded.len() - 1 ==> #[trigger] m.exceeded[k] < m.exceeded[k + 1]
            &&& forall|k: int|
                0 <= k < m.undefined.len() - 1 ==> #[trigger] m.undefined[k] < m.undefined[k + 1]
            &&& m.total == pairs.len()
        },
    decreases pairs.len(),
{
    if pairs.len() > 0 && run_model(pairs, bound) is Ok {
        lemma_run_model_index_range(pairs.drop_last(), bound);
    }
}

/// The recorded maximum error is a true maximum: it is never a NaN, no
/// point's percentage is above it, and unless it is the starting zero it
/// is the percentage of some pair, whose values are the recorded
/// witnesses.
pub proof fn lemma_run_model_max(pairs: Seq<(u32, u32)>, bound: u32)
    ensures
        run_model(pairs, bound) matches Ok(m) ==> {
            &&& !is_nan_32(m.max_error)
            &&& forall|i: int|
                0 <= i < pairs.len() ==> !lt_32(
                    m.max_error,
                    point_percent(#[trigger] pairs[i].0, pairs[i].1),
                )
            &&& m.max_error == 0 || exists|i: int|
                0 <= i < pairs.len() && m.max_error == point_percent(
                    #[trigger] pairs[i].0,
                    pairs[i].1,
                ) && m.max_error_original == pairs[i].0 && m.max_error_reconstructed == pairs[i].1
        },
    decreases pairs.len(),
{
    lemma_abs_constants();
    if pairs.len() > 0 && run_model(pairs, bound) is Ok {
        lemma_run_model_max(pairs.drop_last(), bound);
        let m = run_model(pairs.drop_last(), bound)->Ok_0;
        let m1 = run_model(pairs, bound)->Ok_0;
        let o = pairs.last().0;
        let r = pairs.last().1;
        let last = pairs.len() - 1;
        assert(pairs.last() == pairs[last]);
        assert forall|i: int|
            0 <= i < pairs.len() implies !lt_32(
            m1.max_error,
            point_percent(#[trigger] pairs[i].0, pairs[i].1),
        ) by {
            if i < last {
                assert(pairs.drop_last()[i] == pairs[i]);
                assert(!lt_32(
                    m.max_error,
                    point_percent(pairs.drop_last()[i].0, pairs.drop_last()[i].1),
                ));
            }
        }
        if lt_32(m.max_error, point_percent(o, r)) {
            assert(m1.max_error == point_percent(pairs[last].0, pairs[last].1)
                && m1.max_error_original == pairs[last].0 && m1.max_error_reconstructed
                == pairs[last].1);
        } else {
            if m.max_error != 0 {
                let w = choose|i: int|
                    0 <= i < pairs.drop_last().len() && m.max_error == point_percent(
                        #[trigger] pairs.drop_last()[i].0,
                        pairs.drop_last()[i].1,
                    ) && m.max_error_original == pairs.drop_last()[i].0
                    && m.max_error_reconstructed == pairs.drop_last()[i].1;
                assert(pairs[w] == pairs.drop_last()[w]);
                assert(m1.max_error == point_percent(pairs[w].0, pairs[w].1)
                    && m1.max_error_original == pairs[w].0 && m1.max_error_reconstructed
                    == pairs[w].1);
            }
        }
    }
}

/// The index lists record exactly the qualifying points: an index is in
/// the bound-exceeding list precisely when its point's percentage
/// exceeds the bound, and in the undefined-error list precisely when its
/// point's ceiling is an infinity or a NaN.
#[verifier::rlimit(50)]
pub proof fn lemma_run_model_membership(pairs: Seq<(u32, u32)>, bound: u32)
    ensures
        run_model(pairs, bound) matches Ok(m) ==> {
            &&& forall|idx: int|
                m.exceeded.contains(idx) <==> 0 <= idx < pairs.len() && gt_32(
                    point_percent(#[trigger] pairs[idx].0, pairs[idx].1),
                    bound,
                )
            &&& forall|idx: int|
                m.undefined.contains(idx) <==> 0 <= idx < pairs.len() && undefined_ceiling(
                    point_ceiling(#[trigger] pairs[idx].0, pairs[idx].1),
                )
        },
    decreases pairs.len(),
{
    broadcast use vstd::seq_lib::lemma_seq_contains_after_push;

    if pairs.len() > 0 && run_model(pairs, bound) is Ok {
        lemma_run_model_membership(pairs.drop_last(), bound);
        lemma_run_model_index_range(pairs.drop_last(), bound);
        lemma_run_model_index_range(pairs, bound);
        let m = run_model(pairs.drop_last(), bound)->Ok_0;
        let m1 = run_model(pairs, bound)->Ok_0;
        let last = pairs.len() - 1;
        assert(forall|i: int| 0 <= i < last ==> #[trigger] pairs.drop_last()[i] == pairs[i]);
        assert(pairs.last() == pairs[last]);
        assert forall|idx: int|
            m1.exceeded.contains(idx) <==> 0 <= idx < pairs.len() && gt_32(
                point_percent(#[trigger] pairs[idx].0, pairs[idx].1),
                bound,
            ) by {
            if 0 <= idx < last {
                assert(pairs.drop_last()[idx] == pairs[idx]);
                assert(point_percent(pairs.drop_last()[idx].0, pairs.drop_last()[idx].1)
                    == point_percent(pairs[idx].0, pairs[idx].1));
            }
            if m1.exceeded == m.exceeded.push(m.total) {
                assert(m.exceeded.push(m.total).contains(idx) <==> m.exceeded.contains(idx)
                    || idx == m.total);
            }
        }
        assert forall|idx: int|
            m1.undefined.contains(idx) <==> 0 <= idx < pairs.len() && undefined_ceiling(
                point_ceiling(#[trigger] pairs[idx].0, pairs[idx].1),
            ) by {
            if 0 <= idx < last {
                assert(pairs.drop_last()[idx] == pairs[idx]);
                assert(point_ceiling(pairs.drop_last()[idx].0, pairs.drop_last()[idx].1)
                    == point_ceiling(pairs[idx].0, pairs[idx].1));
            }
            if m1.undefined == m.undefined.push(m.total) {
                assert(m.undefined.push(m.total).contains(idx) <==> m.undefined.contains(idx)
                    || idx == m.total);
            }
        }
    }
}

/// How many pairs satisfy a predicate.
pub open spec fn count_where(pairs: Seq<(u32, u32)>, pred: spec_fn((u32, u32)) -> bool) -> int
    decreases pairs.len(),
{
    if pairs.len() == 0 {
        0
    } else {
        count_where(pairs.drop_last(), pred) + if pred(pairs.last()) {
            1int
        } else {
            0int
        }
    }
}

/// The pair is exact.
pub open spec fn exact_pred() -> spec_fn((u32, u32)) -> bool {
    |p: (u32, u32)| exact_pair(p.0, p.1)
}

/// The pair's ceiling maps to this histogram key.
pub open spec fn bucket_pred(key: u64) -> spec_fn((u32, u32)) -> bool {
    |p: (u32, u32)| bucket_key_of(point_ceiling(p.0, p.1)) == Some(key)
}

/// The pair's error percentage exceeds the bound.
pub open spec fn exceeded_pred(bound: u32) -> spec_fn((u32, u32)) -> bool {
    |p: (u32, u32)| gt_32(point_percent(p.0, p.1), bound)
}

/// The pair's error is undefined.
pub open spec fn undefined_pred() -> spec_fn((u32, u32)) -> bool {
    |p: (u32, u32)| undefined_ceiling(point_ceiling(p.0, p.1))
}

/// Removing one pair removes exactly its own contribution to a count.
proof fn lemma_count_where_remove(
    pairs: Seq<(u32, u32)>,
    pred: spec_fn((u32, u32)) -> bool,
    i: int,
)
    requires
        0 <= i < pairs.len(),
    ensures
        count_where(pairs.remove(i), pred) == count_where(pairs, pred) - if pred(pairs[i]) {
            1int
        } else {
            0int
        },
    decreases pairs.len(),
{
    if i == pairs.len() - 1 {
        assert(pairs.remove(i) =~= pairs.drop_last());
    } else {
        assert(pairs.remove(i).drop_last() =~= pairs.drop_last().remove(i));
        assert(pairs.remove(i).last() == pairs.last());
        lemma_count_where_remove(pairs.drop_last(), pred, i);
        assert(pairs.drop_last()[i] == pairs[i]);
    }
}

/// A count over the pairs depends only on their multiset: any two
/// sequences holding the same pairs, in whatever order, agree on it.
pub proof fn lemma_count_where_permutation(
    pairs1: Seq<(u32, u32)>,
    pairs2: Seq<(u32, u32)>,
    pred: spec_fn((u32, u32)) -> bool,
)
    requires
        pairs1.to_multiset() == pairs2.to_multiset(),
    ensures
        count_where(pairs1, pred) == count_where(pairs2, pred),
    decreases pairs1.len(),
{
    pairs1.to_multiset_ensures();
    pairs2.to_multiset_ensures();
    if pairs1.len() == 0 {
        assert(pairs2.len() == 0);
    } else {
        let x = pairs1.last();
        assert(pairs1.contains(x));
        assert(pairs2.to_multiset().count(x) > 0);
        assert(pairs2.contains(x));
        let i = choose|i: int| 0 <= i < pairs2.len() && pairs2[i] == x;
        let reduced2 = pairs2.remove(i);
        assert(pairs1.drop_last() =~= pairs1.remove(pairs1.len() - 1));
        assert(pairs1.remove(pairs1.len() - 1).to_multiset() =~= pairs1.to_multiset().remove(x));
        assert(reduced2.to_multiset() =~= pairs2.to_multiset().remove(x));
        lemma_count_where_permutation(pairs1.drop_last(), reduced2, pred);
        lemma_count_where_remove(pairs2, pred, i);
    }
}

/// A successful fold's counting components are exactly the predicate
/// counts over the pairs: the exact count, each histogram bucket's count,
/// and the lengths of the two index lists.
pub proof fn lemma_run_model_counts(pairs: Seq<(u32, u32)>, bound: u32)
    requires
        pairs.len() <= u64::MAX,
    ensures
        run_model(pairs, bound) matches Ok(m) ==> {
            &&& m.exact == count_where(pairs, exact_pred())
            &&& m.exceeded.len() == count_where(pairs, exceeded_pred(bound))
            &&& m.undefined.len() == count_where(pairs, undefined_pred())
            &&& forall|key: u64| #[trigger]
                count_in(m.hist, key) == count_where(pairs, bucket_pred(key))
        },
    decreases pairs.len(),
{
    if pairs.len() > 0 && run_model(pairs, bound) is Ok {
        lemma_run_model_counts(pairs.drop_last(), bound);
        lemma_histogram_total(pairs.drop_last(), bound);
        let m = run_model(pairs.drop_last(), bound)->Ok_0;
        let o = pairs.last().0;
        let r = pairs.last().1;
        let key0 = bucket_key_of(point_ceiling(o, r))->Some_0;
        lemma_count_le_total(m.hist, key0);
        assert forall|key: u64| #[trigger] count_in(bump(m.hist, key0), key) == count_where(
            pairs,
            bucket_pred(key),
        ) by {
            lemma_bump_count(m.hist, key0, key);
        }
    }
}

/// Reordering the input pairs — both series identically, so that
/// validation still passes — leaves every counting component of the
/// result unchanged: the total, the exact count, every histogram bucket
/// count, and the number of bound-exceeding and undefined points. The
/// floating-point sums and the maximum-error witness follow the
/// traversal order instead: IEEE rounding makes a sum depend on the
/// order of its addends, and a tie keeps the first pair that reached the
/// maximum.
pub proof fn lemma_reordering_keeps_counts(
    pairs1: Seq<(u32, u32)>,
    pairs2: Seq<(u32, u32)>,
    bound: u32,
)
    requires
        pairs1.len() <= u64::MAX,
        pairs1.to_multiset() == pairs2.to_multiset(),
        run_model(pairs1, bound) is Ok,
        run_model(pairs2, bound) is Ok,
    ensures
        ({
            let m1 = run_model(pairs1, bound)->Ok_0;
            let m2 = run_model(pairs2, bound)->Ok_0;
            &&& m1.total == m2.total
            &&& m1.exact == m2.exact
            &&& m1.exceeded.len() == m2.exceeded.len()
            &&& m1.undefined.len() == m2.undefined.len()
            &&& forall|key: u64| #[trigger] count_in(m1.hist, key) == count_in(m2.hist, key)
        }),
{
    pairs1.to_multiset_ensures();
    pairs2.to_multiset_ensures();
    assert(pairs2.len() == pairs1.len());
    lemma_histogram_total(pairs1, bound);
    lemma_histogram_total(pairs2, bound);
    lemma_run_model_counts(pairs1, bound);
    lemma_run_model_counts(pairs2, bound);
    lemma_count_where_permutation(pairs1, pairs2, exact_pred());
    lemma_count_where_permutation(pairs1, pairs2, exceeded_pred(bound));
    lemma_count_where_permutation(pairs1, pairs2, undefined_pred());
    assert forall|key: u64| #[trigger] count_in(
        run_model(pairs1, bound)->Ok_0.hist,
        key,
    ) == count_in(run_model(pairs2, bound)->Ok_0.hist, key) by {
        lemma_count_where_permutation(pairs1, pairs2, bucket_pred(key));
    }
}

} // verus!
