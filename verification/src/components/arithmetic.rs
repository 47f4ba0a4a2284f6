//! The formulas of bounds and sensitivities, each as a relation between its
//! operands and a result that the arithmetic supplied may give, and as a
//! function that computes such a result.

use crate::array::{NdArray, NdArrayView};
use crate::base::{Array, ArrayView, Value, ValueView};
use crate::components::bounds::shorter;
use crate::float::{computes, total, Float, Operation, FOUR_BITS, ONE_BITS};
use crate::proto::Neighboring;
use vstd::prelude::*;

verus! {

/// The number 2.
pub const TWO_BITS: u64 = 0x4000_0000_0000_0000;

/// `result` is `upper - lower`.
pub open spec fn is_range<A: Fn(Operation) -> Float>(
    arithmetic: A,
    lower: Float,
    upper: Float,
    result: Float,
) -> bool {
    computes(arithmetic, Operation::Subtract(upper, lower), result)
}

/// `result` is `(upper - lower)` times itself.
pub open spec fn is_squared_range<A: Fn(Operation) -> Float>(
    arithmetic: A,
    lower: Float,
    upper: Float,
    result: Float,
) -> bool {
    exists|range: Float|
        is_range(arithmetic, lower, upper, range) && computes(
            arithmetic,
            Operation::Multiply(range, range),
            result,
        )
}

/// `result` is `(left_upper - left_lower) * (right_upper - right_lower)`.
pub open spec fn is_range_product<A: Fn(Operation) -> Float>(
    arithmetic: A,
    left_lower: Float,
    left_upper: Float,
    right_lower: Float,
    right_upper: Float,
    result: Float,
) -> bool {
    exists|left: Float, right: Float|
        is_range(arithmetic, left_lower, left_upper, left) && is_range(
            arithmetic,
            right_lower,
            right_upper,
            right,
        ) && computes(arithmetic, Operation::Multiply(left, right), result)
}

/// `result` is a quarter of `value`.
pub open spec fn is_quarter<A: Fn(Operation) -> Float>(
    arithmetic: A,
    value: Float,
    result: Float,
) -> bool {
    computes(arithmetic, Operation::Divide(value, Float { bits: FOUR_BITS }), result)
}

/// `result` is the larger of the squares of the two bounds.
pub open spec fn is_larger_square<A: Fn(Operation) -> Float>(
    arithmetic: A,
    lower: Float,
    upper: Float,
    result: Float,
) -> bool {
    exists|low: Float, high: Float|
        computes(arithmetic, Operation::Multiply(lower, lower), low) && computes(
            arithmetic,
            Operation::Multiply(upper, upper),
            high,
        ) && result == low.max_spec(high)
}

/// The number of records less the degrees of freedom that the correction for
/// finite samples takes: `n - 1` with the correction, `n - 0` without.
pub open spec fn is_normalization<A: Fn(Operation) -> Float>(
    arithmetic: A,
    records: Float,
    finite_sample_correction: bool,
    result: Float,
) -> bool {
    computes(
        arithmetic,
        Operation::Subtract(
            records,
            if finite_sample_correction {
                Float { bits: ONE_BITS }
            } else {
                Float { bits: 0 }
            },
        ),
        result,
    )
}

/// The factor by which a squared range becomes the sensitivity of a variance:
/// with `n` the number of records and `m` the normalization, `n / (n + 1) / m`
/// where a record is added or removed, and `(n - 1) / n / m` where one is
/// substituted. For a covariance the latter is doubled: `2 * (n - 1) / n / m`.
pub open spec fn is_scaling<A: Fn(Operation) -> Float>(
    arithmetic: A,
    neighboring: Neighboring,
    doubled: bool,
    num_records: i64,
    finite_sample_correction: bool,
    result: Float,
) -> bool {
    match neighboring {
        Neighboring::AddRemove => exists|
            records: Float,
            normalization: Float,
            more: Float,
            ratio: Float,
        |
            {
                &&& computes(arithmetic, Operation::FromInteger(num_records), records)
                &&& is_normalization(arithmetic, records, finite_sample_correction, normalization)
                &&& computes(arithmetic, Operation::Add(records, Float { bits: ONE_BITS }), more)
                &&& computes(arithmetic, Operation::Divide(records, more), ratio)
                &&& computes(arithmetic, Operation::Divide(ratio, normalization), result)
            },
        Neighboring::Substitute => exists|
            records: Float,
            normalization: Float,
            fewer: Float,
            numerator: Float,
            ratio: Float,
        |
            {
                &&& computes(arithmetic, Operation::FromInteger(num_records), records)
                &&& is_normalization(arithmetic, records, finite_sample_correction, normalization)
                &&& computes(
                    arithmetic,
                    Operation::Subtract(records, Float { bits: ONE_BITS }),
                    fewer,
                )
                &&& if doubled {
                    computes(arithmetic, Operation::Multiply(Float { bits: TWO_BITS }, fewer), numerator)
                } else {
                    numerator == fewer
                }
                &&& computes(arithmetic, Operation::Divide(numerator, records), ratio)
                &&& computes(arithmetic, Operation::Divide(ratio, normalization), result)
            },
    }
}

/// `result` is `value * factor`.
pub open spec fn is_scaled<A: Fn(Operation) -> Float>(
    arithmetic: A,
    value: Float,
    factor: Float,
    result: Float,
) -> bool {
    computes(arithmetic, Operation::Multiply(value, factor), result)
}

/// `upper - lower`.
pub fn range<A: Fn(Operation) -> Float>(arithmetic: &A, lower: Float, upper: Float) -> (r: Float)
    requires
        total(*arithmetic),
    ensures
        is_range(*arithmetic, lower, upper, r),
{
    arithmetic(Operation::Subtract(upper, lower))
}

/// `(upper - lower)` times itself.
pub fn squared_range<A: Fn(Operation) -> Float>(arithmetic: &A, lower: Float, upper: Float) -> (r:
    Float)
    requires
        total(*arithmetic),
    ensures
        is_squared_range(*arithmetic, lower, upper, r),
{
    let difference = range(arithmetic, lower, upper);
    let r = arithmetic(Operation::Multiply(difference, difference));
    assert(is_range(*arithmetic, lower, upper, difference) && computes(
        *arithmetic,
        Operation::Multiply(difference, difference),
        r,
    ));
    r
}

/// `(left_upper - left_lower) * (right_upper - right_lower)`.
pub fn range_product<A: Fn(Operation) -> Float>(
    arithmetic: &A,
    left_lower: Float,
    left_upper: Float,
    right_lower: Float,
    right_upper: Float,
) -> (r: Float)
    requires
        total(*arithmetic),
    ensures
        is_range_product(*arithmetic, left_lower, left_upper, right_lower, right_upper, r),
{
    let left = range(arithmetic, left_lower, left_upper);
    let right = range(arithmetic, right_lower, right_upper);
    let r = arithmetic(Operation::Multiply(left, right));
    assert(is_range(*arithmetic, left_lower, left_upper, left) && is_range(
        *arithmetic,
        right_lower,
        right_upper,
        right,
    ) && computes(*arithmetic, Operation::Multiply(left, right), r));
    r
}

/// A quarter of `value`.
pub fn quarter<A: Fn(Operation) -> Float>(arithmetic: &A, value: Float) -> (r: Float)
    requires
        total(*arithmetic),
    ensures
        is_quarter(*arithmetic, value, r),
{
    arithmetic(Operation::Divide(value, Float::four()))
}

/// The larger of the squares of the two bounds.
pub fn larger_square<A: Fn(Operation) -> Float>(arithmetic: &A, lower: Float, upper: Float) -> (r:
    Float)
    requires
        total(*arithmetic),
    ensures
        is_larger_square(*arithmetic, lower, upper, r),
{
    let low = arithmetic(Operation::Multiply(lower, lower));
    let high = arithmetic(Operation::Multiply(upper, upper));
    let r = low.max(high);
    assert(computes(*arithmetic, Operation::Multiply(lower, lower), low) && computes(
        *arithmetic,
        Operation::Multiply(upper, upper),
        high,
    ) && r == low.max_spec(high));
    r
}

/// The factor by which a squared range becomes the sensitivity of a variance
/// or, doubled under substitution, a range product that of a covariance.
pub fn scaling<A: Fn(Operation) -> Float>(
    arithmetic: &A,
    neighboring: Neighboring,
    doubled: bool,
    num_records: i64,
    finite_sample_correction: bool,
) -> (r: Float)
    requires
        total(*arithmetic),
    ensures
        is_scaling(*arithmetic, neighboring, doubled, num_records, finite_sample_correction, r),
{
    let records = arithmetic(Operation::FromInteger(num_records));
    let delta_degrees_of_freedom = if finite_sample_correction {
        Float::one()
    } else {
        Float::zero()
    };
    let normalization = arithmetic(Operation::Subtract(records, delta_degrees_of_freedom));
    assert(computes(*arithmetic, Operation::FromInteger(num_records), records));
    assert(is_normalization(*arithmetic, records, finite_sample_correction, normalization));
    match neighboring {
        Neighboring::AddRemove => {
            let more = arithmetic(Operation::Add(records, Float::one()));
            let ratio = arithmetic(Operation::Divide(records, more));
            let r = arithmetic(Operation::Divide(ratio, normalization));
            assert(computes(*arithmetic, Operation::Add(records, Float { bits: ONE_BITS }), more)
                && computes(*arithmetic, Operation::Divide(records, more), ratio) && computes(
                *arithmetic,
                Operation::Divide(ratio, normalization),
                r,
            ));
            r
        },
        Neighboring::Substitute => {
            let fewer = arithmetic(Operation::Subtract(records, Float::one()));
            let numerator = if doubled {
                arithmetic(Operation::Multiply(Float { bits: TWO_BITS }, fewer))
            } else {
                fewer
            };
            let ratio = arithmetic(Operation::Divide(numerator, records));
            let r = arithmetic(Operation::Divide(ratio, normalization));
            assert(computes(
                *arithmetic,
                Operation::Subtract(records, Float { bits: ONE_BITS }),
                fewer,
            ) && (if doubled {
                computes(*arithmetic, Operation::Multiply(Float { bits: TWO_BITS }, fewer), numerator)
            } else {
                numerator == fewer
            }) && computes(*arithmetic, Operation::Divide(numerator, records), ratio) && computes(
                *arithmetic,
                Operation::Divide(ratio, normalization),
                r,
            ));
            r
        },
    }
}

/// `value * factor`.
pub fn scaled<A: Fn(Operation) -> Float>(arithmetic: &A, value: Float, factor: Float) -> (r: Float)
    requires
        total(*arithmetic),
    ensures
        is_scaled(*arithmetic, value, factor, r),
{
    arithmetic(Operation::Multiply(value, factor))
}

/// What a cell of a sensitivity is computed as, from the bounds of its column.
#[derive(Clone, Copy, Debug, PartialEq, Eq, Structural)]
pub enum Formula {
    /// The larger of the magnitudes of the two bounds.
    LargerMagnitude,
    /// The upper bound less the lower.
    Range,
    /// The larger of the squares of the two bounds.
    LargerSquare,
    /// The range times itself.
    SquaredRange,
    /// The range times itself, times the factor.
    ScaledSquaredRange(Float),
}

/// `result` is what the formula gives for the bounds.
pub open spec fn holds<A: Fn(Operation) -> Float>(
    arithmetic: A,
    formula: Formula,
    lower: Float,
    upper: Float,
    result: Float,
) -> bool {
    match formula {
        Formula::LargerMagnitude => result == lower.abs_spec().max_spec(upper.abs_spec()),
        Formula::Range => is_range(arithmetic, lower, upper, result),
        Formula::LargerSquare => is_larger_square(arithmetic, lower, upper, result),
        Formula::SquaredRange => is_squared_range(arithmetic, lower, upper, result),
        Formula::ScaledSquaredRange(factor) => exists|square: Float|
            is_squared_range(arithmetic, lower, upper, square) && is_scaled(
                arithmetic,
                square,
                factor,
                result,
            ),
    }
}

/// What the formula gives for the bounds.
pub fn evaluate<A: Fn(Operation) -> Float>(
    arithmetic: &A,
    formula: Formula,
    lower: Float,
    upper: Float,
) -> (r: Float)
    requires
        total(*arithmetic),
    ensures
        holds(*arithmetic, formula, lower, upper, r),
{
    match formula {
        Formula::LargerMagnitude => lower.abs().max(upper.abs()),
        Formula::Range => range(arithmetic, lower, upper),
        Formula::LargerSquare => larger_square(arithmetic, lower, upper),
        Formula::SquaredRange => squared_range(arithmetic, lower, upper),
        Formula::ScaledSquaredRange(factor) => {
            let square = squared_range(arithmetic, lower, upper);
            let r = scaled(arithmetic, square, factor);
            assert(is_squared_range(*arithmetic, lower, upper, square) && is_scaled(
                *arithmetic,
                square,
                factor,
                r,
            ));
            r
        },
    }
}

/// `results` holds, for each column that both vectors of bounds reach, what
/// the formula gives for the bounds of that column.
pub open spec fn hold_by_column<A: Fn(Operation) -> Float>(
    arithmetic: A,
    formula: Formula,
    lower: Seq<Float>,
    upper: Seq<Float>,
    results: Seq<Float>,
) -> bool {
    &&& results.len() == shorter(lower.len(), upper.len())
    &&& forall|i: int|
        0 <= i < results.len() ==> holds(arithmetic, formula, lower[i], upper[i], #[trigger] results[i])
}

/// For each column, what the formula gives for the bounds of that column.
pub fn evaluate_by_column<A: Fn(Operation) -> Float>(
    arithmetic: &A,
    formula: Formula,
    lower: &Vec<Float>,
    upper: &Vec<Float>,
) -> (r: Vec<Float>)
    requires
        total(*arithmetic),
    ensures
        hold_by_column(*arithmetic, formula, lower@, upper@, r@),
{
    let mut out: Vec<Float> = Vec::new();
    let mut i: usize = 0;
    while i < lower.len() && i < upper.len()
        invariant
            total(*arithmetic),
            i <= lower.len(),
            i <= upper.len(),
            out@.len() == i,
            forall|j: int|
                0 <= j < i ==> holds(*arithmetic, formula, lower@[j], upper@[j], #[trigger] out@[j]),
        decreases lower.len() - i,
    {
        out.push(evaluate(arithmetic, formula, lower[i], upper[i]));
        i += 1;
    }
    out
}

/// One record that holds the items, one to a column.
pub open spec fn row_of(items: Seq<Float>) -> ValueView {
    ValueView::Array(
        ArrayView::F64(NdArrayView { shape: seq![1usize, items.len() as usize], items }),
    )
}

/// One record that holds the items, one to a column.
pub fn row_value(items: Vec<Float>) -> (r: Value)
    ensures
        r@ == row_of(items@),
{
    let row = NdArray::row(items);
    assert(row@.items =~= items@);
    Value::Array(Array::F64(row))
}

/// One column that holds the items, one to a record.
pub open spec fn vector_of(items: Seq<Float>) -> ValueView {
    ValueView::Array(ArrayView::F64(NdArrayView { shape: seq![items.len() as usize], items }))
}

/// One column that holds the items, one to a record.
pub fn vector_value(items: Vec<Float>) -> (r: Value)
    ensures
        r@ == vector_of(items@),
{
    let column = NdArray::vector(items);
    assert(column@.items =~= items@);
    Value::Array(Array::F64(column))
}

} // verus!
