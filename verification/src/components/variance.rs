//! The variance of each column.

use crate::base::{
    repeat, repeated, AggregatorProperties, AggregatorPropertiesView, Arguments, ArrayPropertiesView,
    DataType, Nature, NatureContinuous, NatureView, NodeProperties, SensitivitySpace, Value,
    ValueProperties, ValuePropertiesView, ValueView, Vector1DNull, Vector1DNullView,
};
use crate::components::arithmetic::{
    evaluate_by_column, hold_by_column, is_quarter, is_scaling, is_squared_range, quarter, row_of,
    row_value, scaling, squared_range, Formula,
};
use crate::components::bounds::shorter;
use crate::components::sum::{data_refused, sensitive_data, sensitivity_refused};
use crate::components::{Component, Sensitivity, Warnable};
use crate::errors::{Argument, Bound, Error};
use crate::float::{total, Float, Operation};
use crate::proto::{Neighboring, PrivacyDefinition, Variance, Variant, VariantKind, VariantView};
use vstd::prelude::*;

verus! {

/// `result` is a quarter of the squared range of the bounds: by Popoviciu's
/// inequality, no variance of data within the bounds is larger.
pub open spec fn is_variance_bound<A: Fn(Operation) -> Float>(
    arithmetic: A,
    lower: Float,
    upper: Float,
    result: Float,
) -> bool {
    exists|square: Float|
        is_squared_range(arithmetic, lower, upper, square) && is_quarter(arithmetic, square, result)
}

/// `bounds` holds, for each column that both vectors of bounds reach, the
/// bound on the variance of that column.
pub open spec fn are_variance_bounds<A: Fn(Operation) -> Float>(
    arithmetic: A,
    lower: Seq<Float>,
    upper: Seq<Float>,
    bounds: Seq<Option<Float>>,
) -> bool {
    &&& bounds.len() == shorter(lower.len(), upper.len())
    &&& forall|i: int|
        0 <= i < bounds.len() ==> (#[trigger] bounds[i]) is Some && is_variance_bound(
            arithmetic,
            lower[i],
            upper[i],
            bounds[i]->0,
        )
}

fn variance_bounds<A: Fn(Operation) -> Float>(
    arithmetic: &A,
    lower: &Vec<Float>,
    upper: &Vec<Float>,
) -> (r: Vec<Option<Float>>)
    requires
        total(*arithmetic),
    ensures
        are_variance_bounds(*arithmetic, lower@, upper@, r@),
{
    let mut out: Vec<Option<Float>> = Vec::new();
    let mut i: usize = 0;
    while i < lower.len() && i < upper.len()
        invariant
            total(*arithmetic),
            i <= lower.len(),
            i <= upper.len(),
            out@.len() == i,
            forall|j: int|
                0 <= j < i ==> (#[trigger] out@[j]) is Some && is_variance_bound(
                    *arithmetic,
                    lower@[j],
                    upper@[j],
                    out@[j]->0,
                ),
        decreases lower.len() - i,
    {
        let square = squared_range(arithmetic, lower[i], upper[i]);
        let bound = quarter(arithmetic, square);
        assert(is_squared_range(*arithmetic, lower@[i as int], upper@[i as int], square) && is_quarter(
            *arithmetic,
            square,
            bound,
        ));
        out.push(Some(bound));
        i += 1;
    }
    out
}

impl Variance {
    /// Why no properties can be derived of a variance: what refuses every
    /// aggregation, data that may be empty, an unknown number of columns, data
    /// that is not float.
    pub open spec fn refused(properties: Map<Seq<char>, ValuePropertiesView>) -> Option<Error> {
        match data_refused(properties) {
            Some(e) => Some(e),
            None => {
                let data = properties["data"@]->Array_0;
                if !data.is_not_empty {
                    Some(Error::Empty)
                } else if data.num_columns is None {
                    Some(Error::ColumnsUnknown)
                } else if data.data_type != DataType::F64 {
                    Some(Error::NotFloat(Argument::Data))
                } else {
                    None
                }
            },
        }
    }

    /// The nature of a variance: where both bounds of the data are known for
    /// every column, it lies between zero and the bound that the range of each
    /// column gives; otherwise nothing is known.
    pub open spec fn nature_holds<A: Fn(Operation) -> Float>(
        arithmetic: A,
        data: ArrayPropertiesView,
        nature: Option<NatureView>,
    ) -> bool {
        match (data.f64_bound(Bound::Lower), data.f64_bound(Bound::Upper)) {
            (Ok(lower), Ok(upper)) => {
                &&& nature matches Some(
                    NatureView::Continuous {
                        lower: Vector1DNullView::F64(least),
                        upper: Vector1DNullView::F64(most),
                    },
                )
                &&& least == repeated(Some(Float { bits: 0 }), data.num_columns->0 as int)
                &&& are_variance_bounds(arithmetic, lower, upper, most)
            },
            _ => nature is None,
        }
    }

    /// The properties of a variance, but for its nature: those of the data, as
    /// one record of the data set that this node makes, with the variance and
    /// the properties of its arguments on record as the aggregation.
    pub open spec fn propagated(
        self,
        properties: Map<Seq<char>, ValuePropertiesView>,
        node_id: u32,
        nature: Option<NatureView>,
    ) -> ArrayPropertiesView {
        let data = properties["data"@]->Array_0;
        ArrayPropertiesView {
            aggregator: Some(
                AggregatorPropertiesView {
                    component: VariantView::Variance {
                        finite_sample_correction: self.finite_sample_correction,
                    },
                    properties,
                    lipschitz_constants: crate::base::unit_constants(data.num_columns->0),
                },
            ),
            nature,
            num_records: Some(1),
            dataset_id: Some(node_id as i64),
            ..data
        }
    }

    /// Why no sensitivity can be derived of a variance: the space is no norm,
    /// the data refuses it or has no known number of records, the neighbouring
    /// relation is not known, or the norm is neither the first nor the second.
    pub open spec fn sensitivity_refused(
        privacy_definition: PrivacyDefinition,
        properties: Map<Seq<char>, ValuePropertiesView>,
        space: SensitivitySpace,
    ) -> Option<Error> {
        match space {
            SensitivitySpace::KNorm(k) => match sensitivity_refused(properties, true) {
                Some(e) => Some(e),
                None => if properties["data"@]->Array_0.num_records is None {
                    Some(Error::RecordsUnknown)
                } else if Neighboring::from_i32_spec(privacy_definition.neighboring) is None {
                    Some(Error::Neighboring)
                } else if k != 1 && k != 2 {
                    Some(Error::NormUnsupported)
                } else {
                    None
                },
            },
            _ => Some(Error::SpaceUnsupported(VariantKind::Variance)),
        }
    }
}

impl Variance {
    /// The sensitivity of a variance: one record that holds, for each column,
    /// the squared range of its bounds times the factor that the number of
    /// records and the neighbouring relation give.
    pub open spec fn is_sensitivity<A: Fn(Operation) -> Float>(
        self,
        arithmetic: A,
        privacy_definition: PrivacyDefinition,
        properties: Map<Seq<char>, ValuePropertiesView>,
        sensitivity: ValueView,
    ) -> bool {
        exists|factor: Float, cells: Seq<Float>|
            {
                &&& is_scaling(
                    arithmetic,
                    Neighboring::from_i32_spec(privacy_definition.neighboring)->0,
                    false,
                    properties["data"@]->Array_0.num_records->0,
                    self.finite_sample_correction,
                    factor,
                )
                &&& sensitivity == row_of(cells)
                &&& hold_by_column(
                    arithmetic,
                    Formula::ScaledSquaredRange(factor),
                    properties["data"@]->Array_0.f64_bound(Bound::Lower)->Ok_0,
                    properties["data"@]->Array_0.f64_bound(Bound::Upper)->Ok_0,
                    cells,
                )
            }
    }
}

impl Component for Variance {
    fn propagate_property<A: Fn(Operation) -> Float>(
        &self,
        _privacy_definition: &Option<PrivacyDefinition>,
        _public_arguments: &Arguments<Value>,
        properties: NodeProperties,
        node_id: u32,
        arithmetic: &A,
    ) -> (r: Result<Warnable<ValueProperties>, Error>)
        ensures
            match r {
                Ok(derived) => {
                    &&& Variance::refused(properties@) is None
                    &&& derived.warnings@.len() == 0
                    &&& derived.value@ matches ValuePropertiesView::Array(array)
                    &&& array == self.propagated(properties@, node_id, array.nature)
                    &&& Variance::nature_holds(
                        *arithmetic,
                        properties@["data"@]->Array_0,
                        array.nature,
                    )
                },
                Err(e) => Variance::refused(properties@) == Some(e),
            },
    {
        let data = match properties.get("data") {
            Some(data) => data,
            None => {
                return Err(Error::Missing(Argument::Data));
            },
        };
        let data = match data.array() {
            Ok(data) => data,
            Err(e) => {
                return Err(e.within(Argument::Data));
            },
        };
        let mut data_property = data.duplicate();
        if !data_property.releasable {
            match data_property.assert_is_not_aggregated() {
                Ok(_) => {},
                Err(e) => {
                    return Err(e);
                },
            }
        }
        match data_property.assert_is_not_empty() {
            Ok(_) => {},
            Err(e) => {
                return Err(e);
            },
        }
        let num_columns = match data_property.num_columns() {
            Ok(num_columns) => num_columns,
            Err(e) => {
                return Err(e);
            },
        };
        if data_property.data_type != DataType::F64 {
            return Err(Error::NotFloat(Argument::Data));
        }
        let nature = match (data_property.lower_f64(), data_property.upper_f64()) {
            (Ok(lower), Ok(upper)) => {
                let least = repeat(Some(Float::zero()), num_columns);
                let most = variance_bounds(arithmetic, &lower, &upper);
                assert(least.deep_view() =~= least@);
                assert(most.deep_view() =~= most@);
                Some(
                    Nature::Continuous(
                        NatureContinuous {
                            lower: Vector1DNull::F64(least),
                            upper: Vector1DNull::F64(most),
                        },
                    ),
                )
            },
            _ => None,
        };
        data_property.aggregator = Some(
            AggregatorProperties::new(Variant::Variance(*self), properties, num_columns),
        );
        data_property.nature = nature;
        data_property.num_records = Some(1);
        data_property.dataset_id = Some(node_id as i64);
        proof {
            data_property.lemma_aggregator_view();
        }
        Ok(Warnable::new(ValueProperties::Array(data_property)))
    }
}

impl Sensitivity for Variance {
    fn compute_sensitivity<A: Fn(Operation) -> Float>(
        &self,
        privacy_definition: &PrivacyDefinition,
        properties: &NodeProperties,
        sensitivity_type: &SensitivitySpace,
        arithmetic: &A,
    ) -> (r: Result<Value, Error>)
        ensures
            match r {
                Ok(sensitivity) => {
                    &&& Variance::sensitivity_refused(
                        *privacy_definition,
                        properties@,
                        *sensitivity_type,
                    ) is None
                    &&& self.is_sensitivity(
                        *arithmetic,
                        *privacy_definition,
                        properties@,
                        sensitivity@,
                    )
                },
                Err(e) => Variance::sensitivity_refused(
                    *privacy_definition,
                    properties@,
                    *sensitivity_type,
                ) == Some(e),
            },
    {
        match sensitivity_type {
            SensitivitySpace::KNorm(k) => {
                let (data_property, data_min, data_max) = match sensitive_data(properties, true) {
                    Ok(data) => data,
                    Err(e) => {
                        return Err(e);
                    },
                };
                let data_n = match data_property.num_records() {
                    Ok(data_n) => data_n,
                    Err(e) => {
                        return Err(e);
                    },
                };
                let neighboring_type = match Neighboring::from_i32(privacy_definition.neighboring) {
                    Some(neighboring_type) => neighboring_type,
                    None => {
                        return Err(Error::Neighboring);
                    },
                };
                if *k != 1 && *k != 2 {
                    return Err(Error::NormUnsupported);
                }
                let scaling_constant = scaling(
                    arithmetic,
                    neighboring_type,
                    false,
                    data_n,
                    self.finite_sample_correction,
                );
                let row_sensitivity = evaluate_by_column(
                    arithmetic,
                    Formula::ScaledSquaredRange(scaling_constant),
                    &data_min,
                    &data_max,
                );
                let ghost cells = row_sensitivity@;
                let sensitivity = row_value(row_sensitivity);
                proof {
                    let data = properties@["data"@]->Array_0;
                    assert(data.f64_bound(Bound::Lower)->Ok_0 == data_min@);
                    assert(data.f64_bound(Bound::Upper)->Ok_0 == data_max@);
                    assert(data.num_records->0 == data_n);
                    assert(Neighboring::from_i32_spec(privacy_definition.neighboring)->0
                        == neighboring_type);
                    assert({
                        &&& is_scaling(
                            *arithmetic,
                            Neighboring::from_i32_spec(privacy_definition.neighboring)->0,
                            false,
                            data.num_records->0,
                            self.finite_sample_correction,
                            scaling_constant,
                        )
                        &&& sensitivity@ == row_of(cells)
                        &&& hold_by_column(
                            *arithmetic,
                            Formula::ScaledSquaredRange(scaling_constant),
                            data.f64_bound(Bound::Lower)->Ok_0,
                            data.f64_bound(Bound::Upper)->Ok_0,
                            cells,
                        )
                    });
                }
                Ok(sensitivity)
            },
            _ => Err(Error::SpaceUnsupported(VariantKind::Variance)),
        }
    }
}

} // verus!
