//! The quantile of each column; the minimum, the median and the maximum are
//! quantiles.

use crate::base::{
    repeat, repeated, AggregatorProperties, AggregatorPropertiesView, Arguments, ArrayPropertiesView,
    DataType, JaggedProperties, NodeProperties, SensitivitySpace, Value, ValueProperties,
    ValuePropertiesView, ValueView,
};
use crate::components::arithmetic::{
    vector_of, vector_value, evaluate_by_column, hold_by_column, row_of, row_value, Formula,
};
use crate::components::bounds::within;
use crate::components::sum::data_refused;
use crate::components::{Component, Sensitivity, Warnable};
use crate::errors::{Argument, Bound, Error};
use crate::float::{computes, Float, Operation, ONE_BITS};
use crate::proto::{Neighboring, PrivacyDefinition, Quantile, Variant, VariantKind, VariantView};
use vstd::prelude::*;

verus! {

impl Quantile {
    /// A copy that holds what this value holds.
    pub fn duplicate(&self) -> (r: Quantile)
        ensures
            r.alpha == self.alpha,
            r.interpolation@ == self.interpolation@,
    {
        Quantile { alpha: self.alpha, interpolation: self.interpolation.clone() }
    }

    /// Why no properties can be derived of a quantile: what refuses every
    /// aggregation, data that may be empty or is not numeric, candidates that
    /// are no jagged matrix of the data's type, an unknown number of columns.
    pub open spec fn refused(
        public_arguments: Map<Seq<char>, ValueView>,
        properties: Map<Seq<char>, ValuePropertiesView>,
    ) -> Option<Error> {
        match data_refused(properties) {
            Some(e) => Some(e),
            None => {
                let data = properties["data"@]->Array_0;
                if !data.is_not_empty {
                    Some(Error::Empty)
                } else if data.data_type != DataType::F64 && data.data_type != DataType::I64 {
                    Some(Error::NotNumericData(Argument::Data))
                } else if public_arguments.contains_key("candidates"@)
                    && public_arguments["candidates"@] !is Jagged {
                    Some(Error::ValueNotJagged)
                } else if public_arguments.contains_key("candidates"@) && data.data_type
                    != public_arguments["candidates"@]->Jagged_0.data_type() {
                    Some(Error::CandidatesType)
                } else if data.num_columns is None {
                    Some(Error::ColumnsUnknown)
                } else {
                    None
                }
            },
        }
    }

    /// The properties of a quantile. With candidates, the result is a jagged
    /// matrix of scores that is not releasable. Without, it has the properties
    /// of the data, as one record of which no nature is known, with the
    /// quantile and the properties of its arguments on record as the
    /// aggregation.
    pub open spec fn propagated(
        alpha: Float,
        interpolation: Seq<char>,
        public_arguments: Map<Seq<char>, ValueView>,
        properties: Map<Seq<char>, ValuePropertiesView>,
    ) -> Result<ValuePropertiesView, Error> {
        match Quantile::refused(public_arguments, properties) {
            Some(e) => Err(e),
            None => if public_arguments.contains_key("candidates"@) {
                Ok(ValuePropertiesView::Jagged(JaggedProperties { releasable: false }))
            } else {
                let data = properties["data"@]->Array_0;
                Ok(
                    ValuePropertiesView::Array(
                        ArrayPropertiesView {
                            aggregator: Some(
                                AggregatorPropertiesView {
                                    component: VariantView::Quantile { alpha, interpolation },
                                    properties,
                                    lipschitz_constants: crate::base::unit_constants(
                                        data.num_columns->0,
                                    ),
                                },
                            ),
                            num_records: Some(1),
                            nature: None,
                            ..data
                        },
                    ),
                )
            },
        }
    }

    /// Why no sensitivity can be derived of a quantile. The data must be there
    /// and an array that was not aggregated and holds no nulls. In the first
    /// norm both float bounds must be known; in the space of the exponential
    /// mechanism, the neighbouring relation and the number of columns. No other
    /// space is offered.
    pub open spec fn sensitivity_refused(
        privacy_definition: PrivacyDefinition,
        properties: Map<Seq<char>, ValuePropertiesView>,
        space: SensitivitySpace,
    ) -> Option<Error> {
        if !properties.contains_key("data"@) {
            Some(Error::Missing(Argument::Data))
        } else {
            match properties["data"@] {
                ValuePropertiesView::Array(data) => if data.aggregator is Some {
                    Some(Error::Aggregated)
                } else if data.nullity {
                    Some(Error::Nullity)
                } else {
                    match space {
                        SensitivitySpace::KNorm(k) => if k != 1 {
                            Some(Error::SpaceUnsupported(VariantKind::Quantile))
                        } else {
                            match data.f64_bound(Bound::Lower) {
                                Err(e) => Some(e),
                                Ok(_) => match data.f64_bound(Bound::Upper) {
                                    Err(e) => Some(e),
                                    Ok(_) => None,
                                },
                            }
                        },
                        SensitivitySpace::Exponential => if Neighboring::from_i32_spec(
                            privacy_definition.neighboring,
                        ) is None {
                            Some(Error::Neighboring)
                        } else if data.num_columns is None {
                            Some(Error::ColumnsUnknown)
                        } else {
                            None
                        },
                        _ => Some(Error::SpaceUnsupported(VariantKind::Quantile)),
                    }
                },
                _ => Some(within(Argument::Data, Error::PropertiesNotArray)),
            }
        }
    }

    /// The sensitivity of the score of a candidate: 1 where a record is
    /// substituted, and the larger of `alpha` and `1 - alpha` where one is
    /// added or removed.
    pub open spec fn is_score_sensitivity<A: Fn(Operation) -> Float>(
        alpha: Float,
        arithmetic: A,
        neighboring: Neighboring,
        result: Float,
    ) -> bool {
        match neighboring {
            Neighboring::AddRemove => exists|complement: Float|
                computes(
                    arithmetic,
                    Operation::Subtract(Float { bits: ONE_BITS }, alpha),
                    complement,
                ) && result == alpha.max_spec(complement),
            Neighboring::Substitute => result == Float { bits: ONE_BITS },
        }
    }
}

impl Quantile {
    /// The sensitivity of a quantile. In the first norm: one record that
    /// holds, for each column, the range of its bounds. In the space of the
    /// exponential mechanism: the sensitivity of a score, once for each
    /// column.
    pub open spec fn is_sensitivity<A: Fn(Operation) -> Float>(
        alpha: Float,
        arithmetic: A,
        privacy_definition: PrivacyDefinition,
        properties: Map<Seq<char>, ValuePropertiesView>,
        space: SensitivitySpace,
        sensitivity: ValueView,
    ) -> bool {
        match space {
            SensitivitySpace::Exponential => exists|cell: Float|
                {
                    &&& Quantile::is_score_sensitivity(
                        alpha,
                        arithmetic,
                        Neighboring::from_i32_spec(privacy_definition.neighboring)->0,
                        cell,
                    )
                    &&& sensitivity == vector_of(
                        repeated(cell, properties["data"@]->Array_0.num_columns->0 as int),
                    )
                },
            _ => exists|cells: Seq<Float>|
                sensitivity == row_of(cells) && hold_by_column(
                    arithmetic,
                    Formula::Range,
                    properties["data"@]->Array_0.f64_bound(Bound::Lower)->Ok_0,
                    properties["data"@]->Array_0.f64_bound(Bound::Upper)->Ok_0,
                    cells,
                ),
        }
    }
}

impl Component for Quantile {
    fn propagate_property<A: Fn(Operation) -> Float>(
        &self,
        _privacy_definition: &Option<PrivacyDefinition>,
        public_arguments: &Arguments<Value>,
        properties: NodeProperties,
        _node_id: u32,
        _arithmetic: &A,
    ) -> (r: Result<Warnable<ValueProperties>, Error>)
        ensures
            match r {
                Ok(derived) => Quantile::propagated(
                    self.alpha,
                    self.interpolation@,
                    public_arguments@,
                    properties@,
                ) == Ok::<ValuePropertiesView, Error>(derived.value@) && derived.warnings@.len() == 0,
                Err(e) => Quantile::propagated(
                    self.alpha,
                    self.interpolation@,
                    public_arguments@,
                    properties@,
                ) == Err::<ValuePropertiesView, Error>(e),
            },
    {
        let data = match properties.get("data") {
            Some(data) => data,
            None => {
                return Err(Error::Missing(Argument::Data));
            },
        };
        let data = match data.array() {
            Ok(data) => data,
            Err(e) => {
                return Err(e.within(Argument::Data));
            },
        };
        let mut data_property = data.duplicate();
        if !data_property.releasable {
            match data_property.assert_is_not_aggregated() {
                Ok(_) => {},
                Err(e) => {
                    return Err(e);
                },
            }
        }
        match data_property.assert_is_not_empty() {
            Ok(_) => {},
            Err(e) => {
                return Err(e);
            },
        }
        if data_property.data_type != DataType::F64 && data_property.data_type != DataType::I64 {
            return Err(Error::NotNumericData(Argument::Data));
        }
        match public_arguments.get("candidates") {
            Some(candidates) => {
                let candidates = match candidates.jagged() {
                    Ok(candidates) => candidates,
                    Err(e) => {
                        return Err(e);
                    },
                };
                if data_property.data_type != candidates.data_type() {
                    return Err(Error::CandidatesType);
                }
                match data_property.num_columns() {
                    Ok(_) => {},
                    Err(e) => {
                        return Err(e);
                    },
                }
                Ok(Warnable::new(ValueProperties::Jagged(JaggedProperties { releasable: false })))
            },
            None => {
                let num_columns = match data_property.num_columns() {
                    Ok(num_columns) => num_columns,
                    Err(e) => {
                        return Err(e);
                    },
                };
                data_property.aggregator = Some(
                    AggregatorProperties::new(
                        Variant::Quantile(self.duplicate()),
                        properties,
                        num_columns,
                    ),
                );
                data_property.num_records = Some(1);
                data_property.nature = None;
                proof {
                    data_property.lemma_aggregator_view();
                }
                Ok(Warnable::new(ValueProperties::Array(data_property)))
            },
        }
    }
}

impl Sensitivity for Quantile {
    fn compute_sensitivity<A: Fn(Operation) -> Float>(
        &self,
        privacy_definition: &PrivacyDefinition,
        properties: &NodeProperties,
        sensitivity_type: &SensitivitySpace,
        arithmetic: &A,
    ) -> (r: Result<Value, Error>)
        ensures
            match r {
                Ok(sensitivity) => {
                    &&& Quantile::sensitivity_refused(
                        *privacy_definition,
                        properties@,
                        *sensitivity_type,
                    ) is None
                    &&& Quantile::is_sensitivity(
                        self.alpha,
                        *arithmetic,
                        *privacy_definition,
                        properties@,
                        *sensitivity_type,
                        sensitivity@,
                    )
                },
                Err(e) => Quantile::sensitivity_refused(
                    *privacy_definition,
                    properties@,
                    *sensitivity_type,
                ) == Some(e),
            },
    {
        let data = match properties.get("data") {
            Some(data) => data,
            None => {
                return Err(Error::Missing(Argument::Data));
            },
        };
        let data_property = match data.array() {
            Ok(data) => data,
            Err(e) => {
                return Err(e.within(Argument::Data));
            },
        };
        match data_property.assert_is_not_aggregated() {
            Ok(_) => {},
            Err(e) => {
                return Err(e);
            },
        }
        match data_property.assert_non_null() {
            Ok(_) => {},
            Err(e) => {
                return Err(e);
            },
        }
        match sensitivity_type {
            SensitivitySpace::KNorm(k) => {
                if *k != 1 {
                    return Err(Error::SpaceUnsupported(VariantKind::Quantile));
                }
                let lower = match data_property.lower_f64() {
                    Ok(lower) => lower,
                    Err(e) => {
                        return Err(e);
                    },
                };
                let upper = match data_property.upper_f64() {
                    Ok(upper) => upper,
                    Err(e) => {
                        return Err(e);
                    },
                };
                let row_sensitivity = evaluate_by_column(arithmetic, Formula::Range, &lower, &upper);
                let ghost cells = row_sensitivity@;
                let sensitivity = row_value(row_sensitivity);
                proof {
                    let data = properties@["data"@]->Array_0;
                    assert(data.f64_bound(Bound::Lower)->Ok_0 == lower@);
                    assert(data.f64_bound(Bound::Upper)->Ok_0 == upper@);
                    assert(sensitivity@ == row_of(cells) && hold_by_column(
                        *arithmetic,
                        Formula::Range,
                        data.f64_bound(Bound::Lower)->Ok_0,
                        data.f64_bound(Bound::Upper)->Ok_0,
                        cells,
                    ));
                }
                Ok(sensitivity)
            },
            SensitivitySpace::Exponential => {
                let neighboring_type = match Neighboring::from_i32(privacy_definition.neighboring) {
                    Some(neighboring_type) => neighboring_type,
                    None => {
                        return Err(Error::Neighboring);
                    },
                };
                let num_columns = match data_property.num_columns() {
                    Ok(num_columns) => num_columns,
                    Err(e) => {
                        return Err(e);
                    },
                };
                let cell_sensitivity = match neighboring_type {
                    Neighboring::AddRemove => {
                        let complement = arithmetic(Operation::Subtract(Float::one(), self.alpha));
                        let cell = self.alpha.max(complement);
                        assert(computes(
                            *arithmetic,
                            Operation::Subtract(Float { bits: ONE_BITS }, self.alpha),
                            complement,
                        ) && cell == self.alpha.max_spec(complement));
                        cell
                    },
                    Neighboring::Substitute => Float::one(),
                };
                let row_sensitivity = repeat(cell_sensitivity, num_columns);
                let sensitivity = vector_value(row_sensitivity);
                proof {
                    let data = properties@["data"@]->Array_0;
                    assert(Quantile::is_score_sensitivity(
                        self.alpha,
                        *arithmetic,
                        Neighboring::from_i32_spec(privacy_definition.neighboring)->0,
                        cell_sensitivity,
                    ) && sensitivity@ == vector_of(
                        repeated(cell_sensitivity, data.num_columns->0 as int),
                    ));
                }
                Ok(sensitivity)
            },
            _ => Err(Error::SpaceUnsupported(VariantKind::Quantile)),
        }
    }
}

} // verus!
