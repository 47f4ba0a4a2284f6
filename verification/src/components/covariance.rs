//! The covariance of the columns of one data set, or between the columns of
//! two.

use crate::base::{
    AggregatorProperties, AggregatorPropertiesView, Arguments, ArrayProperties, ArrayPropertiesView,
    DataType, Nature, NatureContinuous, NatureView, NodeProperties, SensitivitySpace, Value,
    ValueProperties, ValuePropertiesView, ValueView, Vector1DNull, Vector1DNullView,
};
use crate::components::arithmetic::{
    is_quarter, is_range_product, is_scaled, is_scaling, quarter, range_product, row_of, row_value,
    scaled, scaling,
};
use crate::components::bounds::{shorter, within};
use crate::components::{Component, Sensitivity, Warnable};
use crate::errors::{Argument, Bound, Error};
use crate::float::{total, Float, Operation};
use crate::proto::{Covariance, Neighboring, PrivacyDefinition, Variant, VariantKind, VariantView};
use vstd::prelude::*;

verus! {

/// The pairs of one row of a matrix with `columns` columns, in the order of
/// the columns; of a triangular matrix only those on and to the right of the
/// diagonal.
pub open spec fn pair_row(row: int, columns: int, triangular: bool) -> Seq<(int, int)> {
    if triangular {
        Seq::new(
            if columns > row {
                (columns - row) as nat
            } else {
                0nat
            },
            |k: int| (row, row + k),
        )
    } else {
        Seq::new(
            if columns > 0 {
                columns as nat
            } else {
                0nat
            },
            |k: int| (row, k),
        )
    }
}

/// The pairs of the first `rows` rows, row by row.
pub open spec fn pairs(rows: int, columns: int, triangular: bool) -> Seq<(int, int)>
    decreases rows,
{
    if rows <= 0 {
        Seq::empty()
    } else {
        pairs(rows - 1, columns, triangular) + pair_row(rows - 1, columns, triangular)
    }
}

/// What a cell is computed as from the range of a left and a right column.
#[derive(Clone, Copy, Debug, PartialEq, Eq, Structural)]
pub enum PairFormula {
    /// A quarter of the product of the ranges: no covariance of data within
    /// the bounds is larger in magnitude.
    QuarterProduct,
    /// The product of the ranges, times the factor.
    ScaledProduct(Float),
}

/// `result` is what the formula gives for the bounds of the two columns.
pub open spec fn pair_holds<A: Fn(Operation) -> Float>(
    arithmetic: A,
    formula: PairFormula,
    left_lower: Float,
    left_upper: Float,
    right_lower: Float,
    right_upper: Float,
    result: Float,
) -> bool {
    exists|product: Float|
        is_range_product(arithmetic, left_lower, left_upper, right_lower, right_upper, product)
            && match formula {
            PairFormula::QuarterProduct => is_quarter(arithmetic, product, result),
            PairFormula::ScaledProduct(factor) => is_scaled(arithmetic, product, factor, result),
        }
}

/// The bounds of the left and of the right columns.
pub ghost struct PairBounds {
    pub left_lower: Seq<Float>,
    pub left_upper: Seq<Float>,
    pub right_lower: Seq<Float>,
    pub right_upper: Seq<Float>,
}

impl PairBounds {
    /// The number of left columns that both bounds reach.
    pub open spec fn rows(self) -> int {
        shorter(self.left_lower.len(), self.left_upper.len()) as int
    }

    /// The number of right columns that both bounds reach.
    pub open spec fn columns(self) -> int {
        shorter(self.right_lower.len(), self.right_upper.len()) as int
    }
}

/// `cells` holds, for each pair of a left and a right column, row by row, what
/// the formula gives for the bounds of the two.
pub open spec fn pairs_hold<A: Fn(Operation) -> Float>(
    arithmetic: A,
    formula: PairFormula,
    bounds: PairBounds,
    triangular: bool,
    cells: Seq<Float>,
) -> bool {
    let all = pairs(bounds.rows(), bounds.columns(), triangular);
    &&& cells.len() == all.len()
    &&& forall|k: int|
        0 <= k < cells.len() ==> pair_holds(
            arithmetic,
            formula,
            bounds.left_lower[all[k].0],
            bounds.left_upper[all[k].0],
            bounds.right_lower[all[k].1],
            bounds.right_upper[all[k].1],
            #[trigger] cells[k],
        )
}

fn evaluate_pair<A: Fn(Operation) -> Float>(
    arithmetic: &A,
    formula: PairFormula,
    left_lower: Float,
    left_upper: Float,
    right_lower: Float,
    right_upper: Float,
) -> (r: Float)
    requires
        total(*arithmetic),
    ensures
        pair_holds(*arithmetic, formula, left_lower, left_upper, right_lower, right_upper, r),
{
    let product = range_product(arithmetic, left_lower, left_upper, right_lower, right_upper);
    let r = match formula {
        PairFormula::QuarterProduct => quarter(arithmetic, product),
        PairFormula::ScaledProduct(factor) => scaled(arithmetic, product, factor),
    };
    assert(is_range_product(*arithmetic, left_lower, left_upper, right_lower, right_upper, product)
        && match formula {
        PairFormula::QuarterProduct => is_quarter(*arithmetic, product, r),
        PairFormula::ScaledProduct(factor) => is_scaled(*arithmetic, product, factor, r),
    });
    r
}

fn evaluate_pairs<A: Fn(Operation) -> Float>(
    arithmetic: &A,
    formula: PairFormula,
    left_lower: &Vec<Float>,
    left_upper: &Vec<Float>,
    right_lower: &Vec<Float>,
    right_upper: &Vec<Float>,
    triangular: bool,
) -> (r: Vec<Float>)
    requires
        total(*arithmetic),
    ensures
        pairs_hold(
            *arithmetic,
            formula,
            PairBounds {
                left_lower: left_lower@,
                left_upper: left_upper@,
                right_lower: right_lower@,
                right_upper: right_upper@,
            },
            triangular,
            r@,
        ),
{
    let ghost bounds = PairBounds {
        left_lower: left_lower@,
        left_upper: left_upper@,
        right_lower: right_lower@,
        right_upper: right_upper@,
    };
    let rows = if left_lower.len() <= left_upper.len() {
        left_lower.len()
    } else {
        left_upper.len()
    };
    let columns = if right_lower.len() <= right_upper.len() {
        right_lower.len()
    } else {
        right_upper.len()
    };
    let mut out: Vec<Float> = Vec::new();
    let ghost mut done: Seq<(int, int)> = Seq::empty();
    let mut i: usize = 0;
    while i < rows
        invariant
            total(*arithmetic),
            rows == bounds.rows(),
            columns == bounds.columns(),
            bounds.left_lower == left_lower@,
            bounds.left_upper == left_upper@,
            bounds.right_lower == right_lower@,
            bounds.right_upper == right_upper@,
            i <= rows,
            done == pairs(i as int, columns as int, triangular),
            out@.len() == done.len(),
            forall|k: int|
                0 <= k < done.len() ==> 0 <= (#[trigger] done[k]).0 < rows && 0 <= done[k].1 < columns,
            forall|k: int|
                0 <= k < out@.len() ==> pair_holds(
                    *arithmetic,
                    formula,
                    left_lower@[done[k].0],
                    left_upper@[done[k].0],
                    right_lower@[done[k].1],
                    right_upper@[done[k].1],
                    #[trigger] out@[k],
                ),
        decreases rows - i,
    {
        let start: usize = if triangular {
            i
        } else {
            0
        };
        let ghost before = done;
        let mut j: usize = start;
        while j < columns
            invariant
                total(*arithmetic),
                rows == bounds.rows(),
                columns == bounds.columns(),
                bounds.left_lower == left_lower@,
                bounds.left_upper == left_upper@,
                bounds.right_lower == right_lower@,
                bounds.right_upper == right_upper@,
                i < rows,
                start <= j,
                start == (if triangular {
                    i
                } else {
                    0
                }),
                j <= columns || j == start,
                before == pairs(i as int, columns as int, triangular),
                done == before + pair_row(i as int, columns as int, triangular).take(j - start),
                out@.len() == done.len(),
                forall|k: int|
                    0 <= k < done.len() ==> 0 <= (#[trigger] done[k]).0 < rows && 0 <= done[k].1
                        < columns,
                forall|k: int|
                    0 <= k < out@.len() ==> pair_holds(
                        *arithmetic,
                        formula,
                        left_lower@[done[k].0],
                        left_upper@[done[k].0],
                        right_lower@[done[k].1],
                        right_upper@[done[k].1],
                        #[trigger] out@[k],
                    ),
            decreases columns - j,
        {
            let cell = evaluate_pair(
                arithmetic,
                formula,
                left_lower[i],
                left_upper[i],
                right_lower[j],
                right_upper[j],
            );
            out.push(cell);
            proof {
                let row = pair_row(i as int, columns as int, triangular);
                assert(row[j - start] == (i as int, j as int));
                let next = done.push((i as int, j as int));
                assert(next =~= before + row.take(j + 1 - start));
                done = next;
            }
            j += 1;
        }
        proof {
            let row = pair_row(i as int, columns as int, triangular);
            assert(row.take(j - start) =~= row);
            assert(done == pairs(i + 1, columns as int, triangular));
        }
        i += 1;
    }
    out
}

/// Each number with its sign flipped.
pub open spec fn negated(items: Seq<Float>) -> Seq<Float> {
    Seq::new(items.len(), |i: int| items[i].neg_spec())
}

fn negate(items: &Vec<Float>) -> (r: Vec<Float>)
    ensures
        r@ == negated(items@),
{
    let mut out: Vec<Float> = Vec::new();
    let mut i: usize = 0;
    while i < items.len()
        invariant
            i <= items.len(),
            out@.len() == i,
            forall|j: int| 0 <= j < i ==> #[trigger] out@[j] == items@[j].neg_spec(),
        decreases items.len() - i,
    {
        out.push(items[i].neg());
        i += 1;
    }
    assert(out@ =~= negated(items@));
    out
}

/// The bounds of the data, where both are known for every column.
pub open spec fn known_bounds(data: ArrayPropertiesView) -> Option<(Seq<Float>, Seq<Float>)> {
    match (data.f64_bound(Bound::Lower), data.f64_bound(Bound::Upper)) {
        (Ok(lower), Ok(upper)) => Some((lower, upper)),
        _ => None,
    }
}

fn bounds_of(data: &ArrayProperties) -> (r: Option<(Vec<Float>, Vec<Float>)>)
    ensures
        match r {
            Some((lower, upper)) => known_bounds(data@) == Some((lower@, upper@)),
            None => known_bounds(data@) is None,
        },
{
    match (data.lower_f64(), data.upper_f64()) {
        (Ok(lower), Ok(upper)) => Some((lower, upper)),
        _ => None,
    }
}

/// The nature of a covariance: where the bounds of all columns involved are
/// known, each cell lies between the bound that the ranges of its two columns
/// give and the negative of that bound; otherwise nothing is known.
pub open spec fn covariance_nature_holds<A: Fn(Operation) -> Float>(
    arithmetic: A,
    left: ArrayPropertiesView,
    right: ArrayPropertiesView,
    triangular: bool,
    nature: Option<NatureView>,
) -> bool {
    match (known_bounds(left), known_bounds(right)) {
        (Some(left), Some(right)) => {
            &&& nature matches Some(
                NatureView::Continuous {
                    lower: Vector1DNullView::F64(least),
                    upper: Vector1DNullView::F64(most),
                },
            )
            &&& crate::base::all_known(most)
            &&& least == crate::base::wrapped(negated(crate::base::unwrapped(most)))
            &&& pairs_hold(
                arithmetic,
                PairFormula::QuarterProduct,
                PairBounds {
                    left_lower: left.0,
                    left_upper: left.1,
                    right_lower: right.0,
                    right_upper: right.1,
                },
                triangular,
                crate::base::unwrapped(most),
            )
        },
        _ => nature is None,
    }
}

fn covariance_nature<A: Fn(Operation) -> Float>(
    arithmetic: &A,
    left: &ArrayProperties,
    right: &ArrayProperties,
    triangular: bool,
) -> (r: Option<Nature>)
    requires
        total(*arithmetic),
    ensures
        covariance_nature_holds(
            *arithmetic,
            left@,
            right@,
            triangular,
            match r {
                Some(nature) => Some(nature@),
                None => None,
            },
        ),
{
    match (bounds_of(left), bounds_of(right)) {
        (Some((left_lower, left_upper)), Some((right_lower, right_upper))) => {
            let upper_bound = evaluate_pairs(
                arithmetic,
                PairFormula::QuarterProduct,
                &left_lower,
                &left_upper,
                &right_lower,
                &right_upper,
                triangular,
            );
            let lower = crate::components::bounds::wrap(&negate(&upper_bound));
            let upper = crate::components::bounds::wrap(&upper_bound);
            assert(lower@ =~= lower.deep_view());
            assert(upper@ =~= upper.deep_view());
            let nature = Nature::Continuous(
                NatureContinuous { lower: Vector1DNull::F64(lower), upper: Vector1DNull::F64(upper) },
            );
            proof {
                let most = upper_bound@;
                assert(known_bounds(left@) == Some((left_lower@, left_upper@)));
                assert(known_bounds(right@) == Some((right_lower@, right_upper@)));
                assert(pairs_hold(
                    *arithmetic,
                    PairFormula::QuarterProduct,
                    PairBounds {
                        left_lower: left_lower@,
                        left_upper: left_upper@,
                        right_lower: right_lower@,
                        right_upper: right_upper@,
                    },
                    triangular,
                    most,
                ));
                assert(crate::base::unwrapped(crate::base::wrapped(most)) =~= most);
                assert(nature@ == NatureView::Continuous {
                    lower: Vector1DNullView::F64(crate::base::wrapped(negated(most))),
                    upper: Vector1DNullView::F64(crate::base::wrapped(most)),
                });
            }
            Some(nature)
        },
        _ => None,
    }
}

/// Two vectors of stabilities hold the same values.
pub open spec fn same_stability(left: Seq<Float>, right: Seq<Float>) -> bool {
    left.len() == right.len() && forall|i: int|
        0 <= i < left.len() ==> (#[trigger] left[i]).same_value(right[i])
}

fn stabilities_agree(left: &Vec<Float>, right: &Vec<Float>) -> (r: bool)
    ensures
        r == same_stability(left@, right@),
{
    if left.len() != right.len() {
        return false;
    }
    let mut i: usize = 0;
    while i < left.len()
        invariant
            left.len() == right.len(),
            i <= left.len(),
            forall|j: int| 0 <= j < i ==> (#[trigger] left@[j]).same_value(right@[j]),
        decreases left.len() - i,
    {
        if !left[i].equals(right[i]) {
            return false;
        }
        i += 1;
    }
    true
}

impl Covariance {
    /// Why no properties can be derived of the covariance of the columns of
    /// `data`.
    pub open spec fn data_refused(data: ValuePropertiesView) -> Option<Error> {
        match data {
            ValuePropertiesView::Array(data) => if !data.is_not_empty {
                Some(Error::Empty)
            } else if !data.releasable && data.aggregator is Some {
                Some(Error::Aggregated)
            } else if data.num_columns is None {
                Some(Error::ColumnsUnknown)
            } else if data.num_columns->0 * (data.num_columns->0 + 1) > i64::MAX {
                Some(Error::ColumnsOverflow)
            } else if data.data_type != DataType::F64 {
                Some(Error::NotFloat(Argument::Data))
            } else {
                None
            },
            _ => Some(within(Argument::Data, Error::PropertiesNotArray)),
        }
    }

    /// Why no properties can be derived of the covariance between the columns
    /// of `left` and those of `right`. The two must come from one data set and
    /// agree in stability.
    pub open spec fn sides_refused(left: ValuePropertiesView, right: ValuePropertiesView) -> Option<
        Error,
    > {
        match left {
            ValuePropertiesView::Array(left) => match right {
                ValuePropertiesView::Array(right) => if left.data_type != DataType::F64 {
                    Some(Error::NotFloat(Argument::Left))
                } else if right.data_type != DataType::F64 {
                    Some(Error::NotFloat(Argument::Right))
                } else if !left.is_not_empty || !right.is_not_empty {
                    Some(Error::Empty)
                } else if (!left.releasable && left.aggregator is Some) || (!right.releasable
                    && right.aggregator is Some) {
                    Some(Error::Aggregated)
                } else if left.dataset_id != right.dataset_id {
                    Some(Error::DatasetMismatch)
                } else if !same_stability(left.c_stability, right.c_stability) {
                    Some(Error::StabilityMismatch)
                } else if left.num_columns is None || right.num_columns is None {
                    Some(Error::ColumnsUnknown)
                } else if left.num_columns->0 * right.num_columns->0 > i64::MAX
                    || left.num_columns->0 * right.num_columns->0 < i64::MIN {
                    Some(Error::ColumnsOverflow)
                } else {
                    None
                },
                _ => Some(within(Argument::Right, Error::PropertiesNotArray)),
            },
            _ => Some(within(Argument::Left, Error::PropertiesNotArray)),
        }
    }

    /// Why no properties can be derived of a covariance: neither `data` nor
    /// both `left` and `right` are given, or what is given refuses it.
    pub open spec fn refused(properties: Map<Seq<char>, ValuePropertiesView>) -> Option<Error> {
        if properties.contains_key("data"@) {
            Covariance::data_refused(properties["data"@])
        } else if properties.contains_key("left"@) && properties.contains_key("right"@) {
            Covariance::sides_refused(properties["left"@], properties["right"@])
        } else {
            Some(Error::CovarianceArguments)
        }
    }

    /// The number of cells: with `n` columns of `data`, those on and above the
    /// diagonal of an `n` by `n` matrix; otherwise one for each pair of a left
    /// and a right column.
    pub open spec fn num_columns(properties: Map<Seq<char>, ValuePropertiesView>) -> int {
        if properties.contains_key("data"@) {
            let n = properties["data"@]->Array_0.num_columns->0;
            n * (n + 1) / 2
        } else {
            properties["left"@]->Array_0.num_columns->0 * properties["right"@]->Array_0.num_columns->0
        }
    }

    /// The properties of a covariance, but for its nature: those of `data`, or
    /// of `left`, as one record of the data set that this node makes, with one
    /// column for each cell and the covariance and the properties of its
    /// arguments on record as the aggregation. A covariance between two data
    /// sets is releasable where both are.
    pub open spec fn propagated(
        self,
        properties: Map<Seq<char>, ValuePropertiesView>,
        node_id: u32,
        nature: Option<NatureView>,
    ) -> ArrayPropertiesView {
        let first = if properties.contains_key("data"@) {
            properties["data"@]->Array_0
        } else {
            properties["left"@]->Array_0
        };
        ArrayPropertiesView {
            aggregator: Some(
                AggregatorPropertiesView {
                    component: VariantView::Covariance {
                        finite_sample_correction: self.finite_sample_correction,
                    },
                    properties,
                    lipschitz_constants: crate::base::unit_constants(
                        Covariance::num_columns(properties) as i64,
                    ),
                },
            ),
            nature,
            releasable: if properties.contains_key("data"@) {
                first.releasable
            } else {
                first.releasable && properties["right"@]->Array_0.releasable
            },
            num_records: Some(1),
            num_columns: Some(Covariance::num_columns(properties) as i64),
            dataset_id: Some(node_id as i64),
            ..first
        }
    }

    /// The nature of a covariance.
    pub open spec fn nature_holds<A: Fn(Operation) -> Float>(
        arithmetic: A,
        properties: Map<Seq<char>, ValuePropertiesView>,
        nature: Option<NatureView>,
    ) -> bool {
        if properties.contains_key("data"@) {
            covariance_nature_holds(
                arithmetic,
                properties["data"@]->Array_0,
                properties["data"@]->Array_0,
                true,
                nature,
            )
        } else {
            covariance_nature_holds(
                arithmetic,
                properties["left"@]->Array_0,
                properties["right"@]->Array_0,
                false,
                nature,
            )
        }
    }
}

fn check_side(side: &ArrayProperties) -> (r: Result<(), Error>)
    ensures
        r is Ok <==> side@.is_not_empty,
        r is Err ==> r == Err::<(), Error>(Error::Empty),
{
    side.assert_is_not_empty()
}

impl Component for Covariance {
    fn propagate_property<A: Fn(Operation) -> Float>(
        &self,
        _privacy_definition: &Option<PrivacyDefinition>,
        _public_arguments: &Arguments<Value>,
        properties: NodeProperties,
        node_id: u32,
        arithmetic: &A,
    ) -> (r: Result<Warnable<ValueProperties>, Error>)
        ensures
            match r {
                Ok(derived) => {
                    &&& Covariance::refused(properties@) is None
                    &&& derived.warnings@.len() == 0
                    &&& derived.value@ matches ValuePropertiesView::Array(array)
                    &&& array == self.propagated(properties@, node_id, array.nature)
                    &&& Covariance::nature_holds(*arithmetic, properties@, array.nature)
                },
                Err(e) => Covariance::refused(properties@) == Some(e),
            },
    {
        if properties.contains_key("data") {
            let data = match properties.get("data") {
                Some(data) => data,
                None => {
                    return Err(Error::Missing(Argument::Data));
                },
            };
            let data = match data.array() {
                Ok(data) => data,
                Err(e) => {
                    return Err(e.within(Argument::Data));
                },
            };
            let mut data_property = data.duplicate();
            match data_property.assert_is_not_empty() {
                Ok(_) => {},
                Err(e) => {
                    return Err(e);
                },
            }
            if !data_property.releasable {
                match data_property.assert_is_not_aggregated() {
                    Ok(_) => {},
                    Err(e) => {
                        return Err(e);
                    },
                }
            }
            let num_columns = match data_property.num_columns() {
                Ok(num_columns) => num_columns,
                Err(e) => {
                    return Err(e);
                },
            };
            assert(num_columns * (num_columns + 1) >= 0) by (nonlinear_arith);
            let product = match num_columns.checked_add(1) {
                Some(next) => match num_columns.checked_mul(next) {
                    Some(product) => product,
                    None => {
                        return Err(Error::ColumnsOverflow);
                    },
                },
                None => {
                    assert(num_columns * (num_columns + 1) > i64::MAX) by (nonlinear_arith)
                        requires
                            num_columns == i64::MAX,
                    ;
                    return Err(Error::ColumnsOverflow);
                },
            };
            let num_columns = product / 2;
            if data_property.data_type != DataType::F64 {
                return Err(Error::NotFloat(Argument::Data));
            }
            let nature = covariance_nature(arithmetic, &data_property, &data_property, true);
            data_property.aggregator = Some(
                AggregatorProperties::new(Variant::Covariance(*self), properties, num_columns),
            );
            data_property.nature = nature;
            data_property.num_records = Some(1);
            data_property.num_columns = Some(num_columns);
            data_property.dataset_id = Some(node_id as i64);
            proof {
                data_property.lemma_aggregator_view();
            }
            Ok(Warnable::new(ValueProperties::Array(data_property)))
        } else if properties.contains_key("left") && properties.contains_key("right") {
            let left = match properties.get("left") {
                Some(left) => left,
                None => {
                    return Err(Error::Missing(Argument::Left));
                },
            };
            let left = match left.array() {
                Ok(left) => left,
                Err(e) => {
                    return Err(e.within(Argument::Left));
                },
            };
            let right = match properties.get("right") {
                Some(right) => right,
                None => {
                    return Err(Error::Missing(Argument::Right));
                },
            };
            let right = match right.array() {
                Ok(right) => right,
                Err(e) => {
                    return Err(e.within(Argument::Right));
                },
            };
            let mut left_property = left.duplicate();
            let right_property = right.duplicate();
            if left_property.data_type != DataType::F64 {
                return Err(Error::NotFloat(Argument::Left));
            }
            if right_property.data_type != DataType::F64 {
                return Err(Error::NotFloat(Argument::Right));
            }
            match check_side(&left_property) {
                Ok(_) => {},
                Err(e) => {
                    return Err(e);
                },
            }
            match check_side(&right_property) {
                Ok(_) => {},
                Err(e) => {
                    return Err(e);
                },
            }
            if !left_property.releasable {
                match left_property.assert_is_not_aggregated() {
                    Ok(_) => {},
                    Err(e) => {
                        return Err(e);
                    },
                }
            }
            if !right_property.releasable {
                match right_property.assert_is_not_aggregated() {
                    Ok(_) => {},
                    Err(e) => {
                        return Err(e);
                    },
                }
            }
            if left_property.dataset_id != right_property.dataset_id {
                return Err(Error::DatasetMismatch);
            }
            if !stabilities_agree(&left_property.c_stability, &right_property.c_stability) {
                return Err(Error::StabilityMismatch);
            }
            let left_columns = match left_property.num_columns() {
                Ok(num_columns) => num_columns,
                Err(e) => {
                    return Err(e);
                },
            };
            let right_columns = match right_property.num_columns() {
                Ok(num_columns) => num_columns,
                Err(e) => {
                    return Err(e);
                },
            };
            let num_columns = match left_columns.checked_mul(right_columns) {
                Some(num_columns) => num_columns,
                None => {
                    return Err(Error::ColumnsOverflow);
                },
            };
            let nature = covariance_nature(arithmetic, &left_property, &right_property, false);
            left_property.aggregator = Some(
                AggregatorProperties::new(Variant::Covariance(*self), properties, num_columns),
            );
            left_property.nature = nature;
            left_property.releasable = left_property.releasable && right_property.releasable;
            left_property.num_records = Some(1);
            left_property.num_columns = Some(num_columns);
            left_property.dataset_id = Some(node_id as i64);
            proof {
                left_property.lemma_aggregator_view();
            }
            Ok(Warnable::new(ValueProperties::Array(left_property)))
        } else {
            Err(Error::CovarianceArguments)
        }
    }
}

/// Why no sensitivity can be derived from one argument of a covariance: it is
/// no array, it was aggregated, it may hold nulls, or its number of records
/// or a float bound is not known.
pub open spec fn side_insensitive(
    side: ValuePropertiesView,
    argument: Argument,
    records_first: bool,
) -> Option<Error> {
    match side {
        ValuePropertiesView::Array(side) => if side.aggregator is Some {
            Some(Error::Aggregated)
        } else if side.nullity {
            Some(Error::Nullity)
        } else if records_first && side.num_records is None {
            Some(Error::RecordsUnknown)
        } else {
            match side.f64_bound(Bound::Lower) {
                Err(e) => Some(e),
                Ok(_) => match side.f64_bound(Bound::Upper) {
                    Err(e) => Some(e),
                    Ok(_) => if side.num_records is None {
                        Some(Error::RecordsUnknown)
                    } else {
                        None
                    },
                },
            }
        },
        _ => Some(within(argument, Error::PropertiesNotArray)),
    }
}

fn sensitive_side<'a>(side: &'a ValueProperties, argument: Argument, records_first: bool) -> (r: Result<
    (&'a ArrayProperties, Vec<Float>, Vec<Float>, i64),
    Error,
>)
    ensures
        match r {
            Ok((array, lower, upper, records)) => {
                &&& side_insensitive(side@, argument, records_first) is None
                &&& side@ == ValuePropertiesView::Array(array@)
                &&& array@.f64_bound(Bound::Lower) == Ok::<Seq<Float>, Error>(lower@)
                &&& array@.f64_bound(Bound::Upper) == Ok::<Seq<Float>, Error>(upper@)
                &&& array@.num_records == Some(records)
            },
            Err(e) => side_insensitive(side@, argument, records_first) == Some(e),
        },
{
    let array = match side.array() {
        Ok(array) => array,
        Err(e) => {
            return Err(e.within(argument));
        },
    };
    match array.assert_is_not_aggregated() {
        Ok(_) => {},
        Err(e) => {
            return Err(e);
        },
    }
    match array.assert_non_null() {
        Ok(_) => {},
        Err(e) => {
            return Err(e);
        },
    }
    if records_first {
        match array.num_records() {
            Ok(_) => {},
            Err(e) => {
                return Err(e);
            },
        }
    }
    let lower = match array.lower_f64() {
        Ok(lower) => lower,
        Err(e) => {
            return Err(e);
        },
    };
    let upper = match array.upper_f64() {
        Ok(upper) => upper,
        Err(e) => {
            return Err(e);
        },
    };
    let records = match array.num_records() {
        Ok(records) => records,
        Err(e) => {
            return Err(e);
        },
    };
    Ok((array, lower, upper, records))
}

impl Covariance {
    /// Whether the covariance is that of the columns of one data set: `data`
    /// is given, and neither `left` nor `right`.
    pub open spec fn of_data(properties: Map<Seq<char>, ValuePropertiesView>) -> bool {
        properties.contains_key("data"@) && !properties.contains_key("left"@)
            && !properties.contains_key("right"@)
    }

    /// Whether the covariance is one between two data sets: `left` and
    /// `right` are given, and `data` is not.
    pub open spec fn of_sides(properties: Map<Seq<char>, ValuePropertiesView>) -> bool {
        !properties.contains_key("data"@) && properties.contains_key("left"@)
            && properties.contains_key("right"@)
    }

    /// Why no sensitivity can be derived of a covariance: the space is no
    /// norm, the arguments are not those of either form or refuse it, left and
    /// right differ in their number of records, the neighbouring relation is
    /// not known, or the norm is neither the first nor the second.
    pub open spec fn sensitivity_refused(
        privacy_definition: PrivacyDefinition,
        properties: Map<Seq<char>, ValuePropertiesView>,
        space: SensitivitySpace,
    ) -> Option<Error> {
        match space {
            SensitivitySpace::KNorm(k) => {
                let arguments = if Covariance::of_data(properties) {
                    side_insensitive(properties["data"@], Argument::Data, false)
                } else if Covariance::of_sides(properties) {
                    match side_insensitive(properties["left"@], Argument::Left, true) {
                        Some(e) => Some(e),
                        None => match side_insensitive(properties["right"@], Argument::Right, true) {
                            Some(e) => Some(e),
                            None => if properties["left"@]->Array_0.num_records
                                != properties["right"@]->Array_0.num_records {
                                Some(Error::RecordsMismatch)
                            } else {
                                None
                            },
                        },
                    }
                } else {
                    Some(Error::CovarianceArguments)
                };
                match arguments {
                    Some(e) => Some(e),
                    None => if Neighboring::from_i32_spec(privacy_definition.neighboring) is None {
                        Some(Error::Neighboring)
                    } else if k != 1 && k != 2 {
                        Some(Error::NormUnsupported)
                    } else {
                        None
                    },
                }
            },
            _ => Some(Error::SpaceUnsupported(VariantKind::Covariance)),
        }
    }

    /// The bounds that the sensitivity is derived from.
    pub open spec fn sensitive_bounds(properties: Map<Seq<char>, ValuePropertiesView>) -> PairBounds {
        let left = if Covariance::of_data(properties) {
            properties["data"@]->Array_0
        } else {
            properties["left"@]->Array_0
        };
        let right = if Covariance::of_data(properties) {
            properties["data"@]->Array_0
        } else {
            properties["right"@]->Array_0
        };
        PairBounds {
            left_lower: left.f64_bound(Bound::Lower)->Ok_0,
            left_upper: left.f64_bound(Bound::Upper)->Ok_0,
            right_lower: right.f64_bound(Bound::Lower)->Ok_0,
            right_upper: right.f64_bound(Bound::Upper)->Ok_0,
        }
    }

    /// The number of records that the sensitivity is derived from.
    pub open spec fn sensitive_records(properties: Map<Seq<char>, ValuePropertiesView>) -> i64 {
        if Covariance::of_data(properties) {
            properties["data"@]->Array_0.num_records->0
        } else {
            properties["left"@]->Array_0.num_records->0
        }
    }

    /// The sensitivity of a covariance: one record that holds, for each cell,
    /// the product of the ranges of its two columns, times a factor. The
    /// factor is that of the variance, doubled where a record is substituted
    /// and the covariance is that of one data set.
    pub open spec fn is_sensitivity<A: Fn(Operation) -> Float>(
        self,
        arithmetic: A,
        privacy_definition: PrivacyDefinition,
        properties: Map<Seq<char>, ValuePropertiesView>,
        sensitivity: ValueView,
    ) -> bool {
        exists|factor: Float, cells: Seq<Float>|
            {
                &&& is_scaling(
                    arithmetic,
                    Neighboring::from_i32_spec(privacy_definition.neighboring)->0,
                    Covariance::of_data(properties),
                    Covariance::sensitive_records(properties),
                    self.finite_sample_correction,
                    factor,
                )
                &&& sensitivity == row_of(cells)
                &&& pairs_hold(
                    arithmetic,
                    PairFormula::ScaledProduct(factor),
                    Covariance::sensitive_bounds(properties),
                    Covariance::of_data(properties),
                    cells,
                )
            }
    }
}

impl Sensitivity for Covariance {
    fn compute_sensitivity<A: Fn(Operation) -> Float>(
        &self,
        privacy_definition: &PrivacyDefinition,
        properties: &NodeProperties,
        sensitivity_type: &SensitivitySpace,
        arithmetic: &A,
    ) -> (r: Result<Value, Error>)
        ensures
            match r {
                Ok(sensitivity) => {
                    &&& Covariance::sensitivity_refused(
                        *privacy_definition,
                        properties@,
                        *sensitivity_type,
                    ) is None
                    &&& self.is_sensitivity(
                        *arithmetic,
                        *privacy_definition,
                        properties@,
                        sensitivity@,
                    )
                },
                Err(e) => Covariance::sensitivity_refused(
                    *privacy_definition,
                    properties@,
                    *sensitivity_type,
                ) == Some(e),
            },
    {
        match sensitivity_type {
            SensitivitySpace::KNorm(k) => {
                let (left_lower, left_upper, right_lower, right_upper, data_n, of_data) = match (
                    properties.get("data"),
                    properties.get("left"),
                    properties.get("right"),
                ) {
                    (Some(data_property), None, None) => {
                        let (_, data_lower, data_upper, data_n) = match sensitive_side(
                            data_property,
                            Argument::Data,
                            false,
                        ) {
                            Ok(side) => side,
                            Err(e) => {
                                return Err(e);
                            },
                        };
                        let right_lower = data_lower.clone();
                        let right_upper = data_upper.clone();
                        assert(right_lower@ =~= data_lower@);
                        assert(right_upper@ =~= data_upper@);
                        (data_lower, data_upper, right_lower, right_upper, data_n, true)
                    },
                    (None, Some(left_property), Some(right_property)) => {
                        let (_, left_lower, left_upper, left_n) = match sensitive_side(
                            left_property,
                            Argument::Left,
                            true,
                        ) {
                            Ok(side) => side,
                            Err(e) => {
                                return Err(e);
                            },
                        };
                        let (_, right_lower, right_upper, right_n) = match sensitive_side(
                            right_property,
                            Argument::Right,
                            true,
                        ) {
                            Ok(side) => side,
                            Err(e) => {
                                return Err(e);
                            },
                        };
                        if left_n != right_n {
                            return Err(Error::RecordsMismatch);
                        }
                        (left_lower, left_upper, right_lower, right_upper, left_n, false)
                    },
                    _ => {
                        return Err(Error::CovarianceArguments);
                    },
                };
                let neighboring_type = match Neighboring::from_i32(privacy_definition.neighboring) {
                    Some(neighboring_type) => neighboring_type,
                    None => {
                        return Err(Error::Neighboring);
                    },
                };
                if *k != 1 && *k != 2 {
                    return Err(Error::NormUnsupported);
                }
                let scaling_constant = scaling(
                    arithmetic,
                    neighboring_type,
                    of_data,
                    data_n,
                    self.finite_sample_correction,
                );
                let row_sensitivity = evaluate_pairs(
                    arithmetic,
                    PairFormula::ScaledProduct(scaling_constant),
                    &left_lower,
                    &left_upper,
                    &right_lower,
                    &right_upper,
                    of_data,
                );
                let ghost cells = row_sensitivity@;
                let sensitivity = row_value(row_sensitivity);
                proof {
                    assert(Covariance::sensitive_bounds(properties@) == PairBounds {
                        left_lower: left_lower@,
                        left_upper: left_upper@,
                        right_lower: right_lower@,
                        right_upper: right_upper@,
                    });
                    assert(Neighboring::from_i32_spec(privacy_definition.neighboring)->0
                        == neighboring_type);
                    assert(Covariance::of_data(properties@) == of_data);
                    assert(Covariance::sensitive_records(properties@) == data_n);
                    assert({
                        &&& is_scaling(
                            *arithmetic,
                            Neighboring::from_i32_spec(privacy_definition.neighboring)->0,
                            Covariance::of_data(properties@),
                            Covariance::sensitive_records(properties@),
                            self.finite_sample_correction,
                            scaling_constant,
                        )
                        &&& sensitivity@ == row_of(cells)
                        &&& pairs_hold(
                            *arithmetic,
                            PairFormula::ScaledProduct(scaling_constant),
                            Covariance::sensitive_bounds(properties@),
                            Covariance::of_data(properties@),
                            cells,
                        )
                    });
                }
                Ok(sensitivity)
            },
            _ => Err(Error::SpaceUnsupported(VariantKind::Covariance)),
        }
    }
}

} // verus!
