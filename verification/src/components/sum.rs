//! The sum of each column.

use crate::base::{
    AggregatorProperties, AggregatorPropertiesView, Arguments, ArrayPropertiesView, DataType,
    NodeProperties, SensitivitySpace, Value, ValueProperties, ValuePropertiesView, ValueView,
};
use crate::components::arithmetic::{
    evaluate_by_column, hold_by_column, row_of, row_value, Formula,
};
use crate::components::bounds::within;
use crate::components::{Component, Sensitivity, Warnable};
use crate::errors::{Argument, Bound, Error};
use crate::float::{Float, Operation};
use crate::proto::{Neighboring, PrivacyDefinition, Sum, Variant, VariantKind, VariantView};
use vstd::prelude::*;

verus! {

/// Why nothing can be derived of an aggregation of the argument `data`, as
/// far as all aggregations agree: the data is missing or no array, or it was
/// aggregated and is not releasable.
pub open spec fn data_refused(properties: Map<Seq<char>, ValuePropertiesView>) -> Option<Error> {
    if !properties.contains_key("data"@) {
        Some(Error::Missing(Argument::Data))
    } else {
        match properties["data"@] {
            ValuePropertiesView::Array(data) => if !data.releasable && data.aggregator is Some {
                Some(Error::Aggregated)
            } else {
                None
            },
            _ => Some(within(Argument::Data, Error::PropertiesNotArray)),
        }
    }
}

/// Why no sensitivity can be derived from the argument `data`, as far as all
/// aggregations agree: the data is missing or no array, it was aggregated, it
/// may hold nulls, or a float bound is not known. Where the data both was
/// aggregated and may hold nulls, `nullity_first` decides which is reported.
pub open spec fn sensitivity_refused(
    properties: Map<Seq<char>, ValuePropertiesView>,
    nullity_first: bool,
) -> Option<Error> {
    if !properties.contains_key("data"@) {
        Some(Error::Missing(Argument::Data))
    } else {
        match properties["data"@] {
            ValuePropertiesView::Array(data) => if nullity_first && data.nullity {
                Some(Error::Nullity)
            } else if data.aggregator is Some {
                Some(Error::Aggregated)
            } else if data.nullity {
                Some(Error::Nullity)
            } else {
                match data.f64_bound(Bound::Lower) {
                    Err(e) => Some(e),
                    Ok(_) => match data.f64_bound(Bound::Upper) {
                        Err(e) => Some(e),
                        Ok(_) => None,
                    },
                }
            },
            _ => Some(within(Argument::Data, Error::PropertiesNotArray)),
        }
    }
}

/// The properties of the argument `data` and its float bounds, for the
/// derivation of a sensitivity.
pub fn sensitive_data(properties: &NodeProperties, nullity_first: bool) -> (r: Result<
    (&crate::base::ArrayProperties, Vec<Float>, Vec<Float>),
    Error,
>)
    ensures
        match r {
            Ok((data, lower, upper)) => {
                &&& sensitivity_refused(properties@, nullity_first) is None
                &&& properties@["data"@] == ValuePropertiesView::Array(data@)
                &&& data@.f64_bound(Bound::Lower) == Ok::<Seq<Float>, Error>(lower@)
                &&& data@.f64_bound(Bound::Upper) == Ok::<Seq<Float>, Error>(upper@)
            },
            Err(e) => sensitivity_refused(properties@, nullity_first) == Some(e),
        },
{
    let data = match properties.get("data") {
        Some(data) => data,
        None => {
            return Err(Error::Missing(Argument::Data));
        },
    };
    let data = match data.array() {
        Ok(data) => data,
        Err(e) => {
            return Err(e.within(Argument::Data));
        },
    };
    if nullity_first {
        match data.assert_non_null() {
            Ok(_) => {},
            Err(e) => {
                return Err(e);
            },
        }
    }
    match data.assert_is_not_aggregated() {
        Ok(_) => {},
        Err(e) => {
            return Err(e);
        },
    }
    match data.assert_non_null() {
        Ok(_) => {},
        Err(e) => {
            return Err(e);
        },
    }
    let lower = match data.lower_f64() {
        Ok(lower) => lower,
        Err(e) => {
            return Err(e);
        },
    };
    let upper = match data.upper_f64() {
        Ok(upper) => upper,
        Err(e) => {
            return Err(e);
        },
    };
    Ok((data, lower, upper))
}

impl Sum {
    /// Why no properties can be derived of a sum: what refuses every
    /// aggregation, an unknown number of columns, data that is not numeric.
    pub open spec fn refused(properties: Map<Seq<char>, ValuePropertiesView>) -> Option<Error> {
        match data_refused(properties) {
            Some(e) => Some(e),
            None => {
                let data = properties["data"@]->Array_0;
                if data.num_columns is None {
                    Some(Error::ColumnsUnknown)
                } else if data.data_type != DataType::F64 && data.data_type != DataType::I64 {
                    Some(Error::NotNumericData(Argument::Data))
                } else {
                    None
                }
            },
        }
    }

    /// The properties of a sum: those of the data, as one record of which no
    /// nature is known, with the sum and the properties of its arguments on
    /// record as the aggregation.
    pub open spec fn propagated(properties: Map<Seq<char>, ValuePropertiesView>) -> Result<
        ValuePropertiesView,
        Error,
    > {
        match Sum::refused(properties) {
            Some(e) => Err(e),
            None => {
                let data = properties["data"@]->Array_0;
                Ok(
                    ValuePropertiesView::Array(
                        ArrayPropertiesView {
                            aggregator: Some(
                                AggregatorPropertiesView {
                                    component: VariantView::Sum,
                                    properties,
                                    lipschitz_constants: crate::base::unit_constants(
                                        data.num_columns->0,
                                    ),
                                },
                            ),
                            num_records: Some(1),
                            nature: None,
                            ..data
                        },
                    ),
                )
            },
        }
    }

    /// Why no sensitivity can be derived of a sum: the space is no norm, the
    /// data refuses it, the neighbouring relation is not known, or the norm is
    /// neither the first nor the second.
    pub open spec fn sensitivity_refused(
        privacy_definition: PrivacyDefinition,
        properties: Map<Seq<char>, ValuePropertiesView>,
        space: SensitivitySpace,
    ) -> Option<Error> {
        match space {
            SensitivitySpace::KNorm(k) => match sensitivity_refused(properties, false) {
                Some(e) => Some(e),
                None => if Neighboring::from_i32_spec(privacy_definition.neighboring) is None {
                    Some(Error::Neighboring)
                } else if k != 1 && k != 2 {
                    Some(Error::NormUnsupported)
                } else {
                    None
                },
            },
            _ => Some(Error::SpaceUnsupported(VariantKind::Sum)),
        }
    }

    /// The sensitivity of a sum: one record that holds, for each column, what
    /// the formula of the norm and of the neighbouring relation gives for the
    /// bounds of that column.
    pub open spec fn is_sensitivity<A: Fn(Operation) -> Float>(
        arithmetic: A,
        privacy_definition: PrivacyDefinition,
        properties: Map<Seq<char>, ValuePropertiesView>,
        space: SensitivitySpace,
        sensitivity: ValueView,
    ) -> bool {
        exists|cells: Seq<Float>|
            sensitivity == row_of(cells) && hold_by_column(
                arithmetic,
                Sum::formula(
                    space->KNorm_0,
                    Neighboring::from_i32_spec(privacy_definition.neighboring)->0,
                ),
                properties["data"@]->Array_0.f64_bound(Bound::Lower)->Ok_0,
                properties["data"@]->Array_0.f64_bound(Bound::Upper)->Ok_0,
                cells,
            )
    }

    /// How a cell of the sensitivity of a sum follows from the bounds of its
    /// column. In the first norm: the larger magnitude of the bounds where a
    /// record is added or removed, their range where one is substituted. In
    /// the second norm: the squares of these.
    pub open spec fn formula(k: u32, neighboring: Neighboring) -> Formula {
        if k == 1 {
            match neighboring {
                Neighboring::AddRemove => Formula::LargerMagnitude,
                Neighboring::Substitute => Formula::Range,
            }
        } else {
            match neighboring {
                Neighboring::AddRemove => Formula::LargerSquare,
                Neighboring::Substitute => Formula::SquaredRange,
            }
        }
    }
}

impl Component for Sum {
    fn propagate_property<A: Fn(Operation) -> Float>(
        &self,
        _privacy_definition: &Option<PrivacyDefinition>,
        _public_arguments: &Arguments<Value>,
        properties: NodeProperties,
        _node_id: u32,
        _arithmetic: &A,
    ) -> (r: Result<Warnable<ValueProperties>, Error>)
        ensures
            match r {
                Ok(derived) => Sum::propagated(properties@) == Ok::<ValuePropertiesView, Error>(
                    derived.value@,
                ) && derived.warnings@.len() == 0,
                Err(e) => Sum::propagated(properties@) == Err::<ValuePropertiesView, Error>(e),
            },
    {
        let data = match properties.get("data") {
            Some(data) => data,
            None => {
                return Err(Error::Missing(Argument::Data));
            },
        };
        let data = match data.array() {
            Ok(data) => data,
            Err(e) => {
                return Err(e.within(Argument::Data));
            },
        };
        let mut data_property = data.duplicate();
        if !data_property.releasable {
            match data_property.assert_is_not_aggregated() {
                Ok(_) => {},
                Err(e) => {
                    return Err(e);
                },
            }
        }
        let num_columns = match data_property.num_columns() {
            Ok(num_columns) => num_columns,
            Err(e) => {
                return Err(e);
            },
        };
        if data_property.data_type != DataType::F64 && data_property.data_type != DataType::I64 {
            return Err(Error::NotNumericData(Argument::Data));
        }
        data_property.aggregator = Some(
            AggregatorProperties::new(Variant::Sum(*self), properties, num_columns),
        );
        data_property.num_records = Some(1);
        data_property.nature = None;
        proof {
            data_property.lemma_aggregator_view();
        }
        Ok(Warnable::new(ValueProperties::Array(data_property)))
    }
}

impl Sensitivity for Sum {
    fn compute_sensitivity<A: Fn(Operation) -> Float>(
        &self,
        privacy_definition: &PrivacyDefinition,
        properties: &NodeProperties,
        sensitivity_type: &SensitivitySpace,
        arithmetic: &A,
    ) -> (r: Result<Value, Error>)
        ensures
            match r {
                Ok(sensitivity) => {
                    &&& Sum::sensitivity_refused(*privacy_definition, properties@, *sensitivity_type)
                        is None
                    &&& Sum::is_sensitivity(
                        *arithmetic,
                        *privacy_definition,
                        properties@,
                        *sensitivity_type,
                        sensitivity@,
                    )
                },
                Err(e) => Sum::sensitivity_refused(*privacy_definition, properties@, *sensitivity_type)
                    == Some(e),
            },
    {
        match sensitivity_type {
            SensitivitySpace::KNorm(k) => {
                let (_, data_lower, data_upper) = match sensitive_data(properties, false) {
                    Ok(data) => data,
                    Err(e) => {
                        return Err(e);
                    },
                };
                let neighboring_type = match Neighboring::from_i32(privacy_definition.neighboring) {
                    Some(neighboring_type) => neighboring_type,
                    None => {
                        return Err(Error::Neighboring);
                    },
                };
                let formula = if *k == 1 {
                    match neighboring_type {
                        Neighboring::AddRemove => Formula::LargerMagnitude,
                        Neighboring::Substitute => Formula::Range,
                    }
                } else if *k == 2 {
                    match neighboring_type {
                        Neighboring::AddRemove => Formula::LargerSquare,
                        Neighboring::Substitute => Formula::SquaredRange,
                    }
                } else {
                    return Err(Error::NormUnsupported);
                };
                let row_sensitivity = evaluate_by_column(arithmetic, formula, &data_lower, &data_upper);
                let ghost cells = row_sensitivity@;
                let sensitivity = row_value(row_sensitivity);
                assert(sensitivity@ == row_of(cells) && hold_by_column(
                    *arithmetic,
                    formula,
                    data_lower@,
                    data_upper@,
                    cells,
                ));
                Ok(sensitivity)
            },
            _ => Err(Error::SpaceUnsupported(VariantKind::Sum)),
        }
    }
}

} // verus!
