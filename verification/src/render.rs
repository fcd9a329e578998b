//! Rendering an accuracy report as printable lines.
//!
//! Pure formatting: six summary lines — totals, the three derived
//! percentages, the maximum error with its triggering values, and the
//! histogram — followed by one labelled section for each non-empty index
//! list, giving the timestamp, original value and reconstructed value of
//! every recorded point. An empty list produces no lines at all, not a
//! header with zero rows. The numeric text comes from the trusted
//! formatting wrappers; which lines appear, in which order, with which
//! pieces, is verified.

use vstd::prelude::*;
use vstd::string::StringExecFns;

use crate::arith::decimal_i64;
use crate::arith::decimal_u64;
use crate::arith::div_bits;
use crate::arith::div_bits_64;
use crate::arith::f32_from_u64;
use crate::arith::f32_text;
use crate::arith::f64_text;
use crate::arith::from_u64_bits;
use crate::arith::from_u64_bits_32;
use crate::arith::i64_text;
use crate::arith::mul_bits;
use crate::arith::mul_bits_64;
use crate::arith::text_of_32;
use crate::arith::text_of_64;
use crate::arith::u64_text;
use crate::arith::widen_bits;
use crate::bits::HUNDRED_32;
use crate::bits::HUNDRED_64;
use crate::bits::NEG_INF_32;
use crate::bits::POS_INF_32;
use crate::bits::QUIET_NAN_32;
use crate::metrics::AccuracyReport;
use crate::metrics::INTEGER_NAN;
use crate::metrics::INTEGER_NEGATIVE_INFINITY;
use crate::metrics::INTEGER_POSITIVE_INFINITY;
use crate::series::Sample;
use crate::series::Series;

verus! {

/// The text of one histogram key: a sentinel key is shown as the value it
/// stands for — an infinity or a NaN — and a real key as the nearest
/// single-precision value.
pub open spec fn key_text(key: u64) -> Seq<char> {
    if key == INTEGER_NEGATIVE_INFINITY {
        text_of_32(NEG_INF_32)
    } else if key == INTEGER_POSITIVE_INFINITY {
        text_of_32(POS_INF_32)
    } else if key == INTEGER_NAN {
        text_of_32(QUIET_NAN_32)
    } else {
        text_of_32(from_u64_bits_32(key))
    }
}

/// The histogram tail of the histogram line: one ` key% count` piece per
/// entry, in the histogram's first-occurrence order.
pub open spec fn histogram_tail(entries: Seq<(u64, u64)>) -> Seq<char>
    decreases entries.len(),
{
    if entries.len() == 0 {
        Seq::empty()
    } else {
        histogram_tail(entries.drop_last()) + " "@ + key_text(entries.last().0) + "% "@
            + decimal_u64(entries.last().1)
    }
}

/// One data-point line of a labelled section: two leading spaces, then
/// the timestamp, the original value and the reconstructed value.
pub open spec fn point_line(o: Seq<Sample>, r: Seq<Sample>, i: int) -> Seq<char> {
    "  "@ + decimal_i64(o[i].timestamp) + " "@ + text_of_32(o[i].value) + " "@ + text_of_32(
        r[i].value,
    )
}

/// The number of lines a section of `n` recorded points produces: its
/// header plus one line per point, and nothing at all for an empty list.
pub open spec fn section_len(n: int) -> int {
    if n > 0 {
        1 + n
    } else {
        0
    }
}

/// Render the report as printable lines: the six summary lines, then the
/// bound-exceeding section, then the undefined-error section, each
/// section present exactly when its index list is non-empty.
pub fn render(report: &AccuracyReport, original: &Series, reconstructed: &Series) -> (lines: Vec<
    String,
>)
    requires
        original@.len() == reconstructed@.len(),
        forall|k: int|
            0 <= k < report.exceeded_indices@.len() ==> report.exceeded_indices@[k]
                < original@.len(),
        forall|k: int|
            0 <= k < report.undefined_indices@.len() ==> report.undefined_indices@[k]
                < original@.len(),
    ensures
        lines@.len() == 6 + section_len(report.exceeded_indices@.len() as int) + section_len(
            report.undefined_indices@.len() as int,
        ),
        lines@[0]@ == "- Total Number of Values: "@ + decimal_u64(report.total as u64),
        lines@[1]@ == "- Without Error: "@ + text_of_64(
            mul_bits_64(
                HUNDRED_64,
                div_bits_64(from_u64_bits(report.exact as u64), from_u64_bits(report.total as u64)),
            ),
        ) + "%"@,
        lines@[2]@ == "- Average Relative Error: "@ + text_of_32(
            mul_bits(HUNDRED_32, div_bits(report.sum_abs_difference, report.sum_abs_original)),
        ) + "%"@,
        lines@[3]@ == "- Mean Absolute Percentage Error: "@ + text_of_64(
            mul_bits_64(
                HUNDRED_64,
                div_bits_64(widen_bits(report.sum_ratio), from_u64_bits(report.total as u64)),
            ),
        ) + "%"@,
        lines@[4]@ == "- Maximum Error: "@ + text_of_32(report.max_error) + "% due to "@
            + text_of_32(report.max_error_original) + " (test data) and "@ + text_of_32(
            report.max_error_reconstructed,
        ) + " (decompressed)"@,
        lines@[5]@ == "- Error Ceil Histogram:"@ + histogram_tail(report.histogram@),
        report.exceeded_indices@.len() > 0 ==> lines@[6]@
            == "- Exceeded Error Bound (Timestamp, Test Data Value, Decompressed Value):"@,
        forall|k: int|
            0 <= k < report.exceeded_indices@.len() ==> lines@[7 + k]@ == point_line(
                original@,
                reconstructed@,
                report.exceeded_indices@[k] as int,
            ),
        report.undefined_indices@.len() > 0 ==> lines@[6 + section_len(
            report.exceeded_indices@.len() as int,
        )]@ == "- Undefined Actual Error (Timestamp, Test Data Value, Decompressed Value):"@,
        forall|k: int|
            0 <= k < report.undefined_indices@.len() ==> lines@[7 + section_len(
                report.exceeded_indices@.len() as int,
            ) + k]@ == point_line(
                original@,
                reconstructed@,
                report.undefined_indices@[k] as int,
            ),
{
    let mut lines: Vec<String> = Vec::new();

    let mut total_line = String::from_str("- Total Number of Values: ");
    total_line.append(u64_text(report.total as u64).as_str());
    lines.push(total_line);

    let mut without_line = String::from_str("- Without Error: ");
    without_line.append(f64_text(report.without_error_percentage()).as_str());
    without_line.append("%");
    lines.push(without_line);

    let mut average_line = String::from_str("- Average Relative Error: ");
    average_line.append(f32_text(report.average_relative_error_percentage()).as_str());
    average_line.append("%");
    lines.push(average_line);

    let mut mape_line = String::from_str("- Mean Absolute Percentage Error: ");
    mape_line.append(f64_text(report.mean_absolute_percentage_error()).as_str());
    mape_line.append("%");
    lines.push(mape_line);

    let mut max_line = String::from_str("- Maximum Error: ");
    max_line.append(f32_text(report.max_error).as_str());
    max_line.append("% due to ");
    max_line.append(f32_text(report.max_error_original).as_str());
    max_line.append(" (test data) and ");
    max_line.append(f32_text(report.max_error_reconstructed).as_str());
    max_line.append(" (decompressed)");
    lines.push(max_line);

    let mut histogram_line = String::from_str("- Error Ceil Histogram:");
    let n_entries = report.histogram.entries.len();
    for e in 0..n_entries
        invariant
            n_entries == report.histogram@.len(),
            histogram_line@ == "- Error Ceil Histogram:"@ + histogram_tail(
                report.histogram@.take(e as int),
            ),
    {
        let (key, count) = report.histogram.entries[e];
        histogram_line.append(" ");
        histogram_line.append(key_piece(key).as_str());
        histogram_line.append("% ");
        histogram_line.append(u64_text(count).as_str());
        proof {
            assert(report.histogram@.take(e as int + 1).drop_last() =~= report.histogram@.take(
                e as int,
            ));
        }
    }
    proof {
        assert(report.histogram@.take(n_entries as int) =~= report.histogram@);
    }
    lines.push(histogram_line);

    push_section(
        &mut lines,
        "- Exceeded Error Bound (Timestamp, Test Data Value, Decompressed Value):",
        &report.exceeded_indices,
        original,
        reconstructed,
    );
    push_section(
        &mut lines,
        "- Undefined Actual Error (Timestamp, Test Data Value, Decompressed Value):",
        &report.undefined_indices,
        original,
        reconstructed,
    );
    lines
}

/// The text of one histogram key, as `key_text` specifies it.
fn key_piece(key: u64) -> (piece: String)
    ensures
        piece@ == key_text(key),
{
    if key == INTEGER_NEGATIVE_INFINITY {
        f32_text(NEG_INF_32)
    } else if key == INTEGER_POSITIVE_INFINITY {
        f32_text(POS_INF_32)
    } else if key == INTEGER_NAN {
        f32_text(QUIET_NAN_32)
    } else {
        f32_text(f32_from_u64(key))
    }
}

/// Append one labelled section: nothing for an empty index list, else the
/// header and one `point_line` per recorded index.
fn push_section(
    lines: &mut Vec<String>,
    header: &str,
    indices: &Vec<usize>,
    original: &Series,
    reconstructed: &Series,
)
    requires
        original@.len() == reconstructed@.len(),
        forall|k: int| 0 <= k < indices@.len() ==> indices@[k] < original@.len(),
    ensures
        final(lines)@.len() == old(lines)@.len() + section_len(indices@.len() as int),
        forall|j: int| 0 <= j < old(lines)@.len() ==> final(lines)@[j] == old(lines)@[j],
        indices@.len() > 0 ==> final(lines)@[old(lines)@.len() as int]@ == header@,
        forall|k: int|
            0 <= k < indices@.len() ==> final(lines)@[old(lines)@.len() + 1 + k]@ == point_line(
                original@,
                reconstructed@,
                indices@[k] as int,
            ),
{
    if indices.len() == 0 {
        return ;
    }
    lines.push(String::from_str(header));
    let n = indices.len();
    for k in 0..n
        invariant
            n == indices@.len(),
            original@.len() == reconstructed@.len(),
            forall|j: int| 0 <= j < indices@.len() ==> indices@[j] < original@.len(),
            lines@.len() == old(lines)@.len() + 1 + k,
            forall|j: int| 0 <= j < old(lines)@.len() ==> lines@[j] == old(lines)@[j],
            lines@[old(lines)@.len() as int]@ == header@,
            forall|j: int|
                0 <= j < k ==> lines@[old(lines)@.len() + 1 + j]@ == point_line(
                    original@,
                    reconstructed@,
                    indices@[j] as int,
                ),
    {
        let idx = indices[k];
        let sample_o = original.samples[idx];
        let sample_r = reconstructed.samples[idx];
        let mut line = String::from_str("  ");
        line.append(i64_text(sample_o.timestamp).as_str());
        line.append(" ");
        line.append(f32_text(sample_o.value).as_str());
        line.append(" ");
        line.append(f32_text(sample_r.value).as_str());
        lines.push(line);
    }
}

} // verus!
