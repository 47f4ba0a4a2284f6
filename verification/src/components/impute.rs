//! Imputation: nulls are replaced by values drawn within bounds, or among
//! categories.

use crate::base::{
    Arguments, ArrayPropertiesView, DataType, Nature, NatureContinuous, NatureView, NodeProperties,
    Value, ValueProperties, ValuePropertiesView, ValueView, Vector1DNull, Vector1DNullView,
};
use crate::components::bounds::{
    all_below, resolve_bound, resolved_bound, strictly_below, unknown, widen, widened, within,
    Numeric,
};
use crate::components::{Component, Warnable};
use crate::errors::{Argument, Bound, Error};
use crate::float::{Float, Operation};
use crate::proto::{Impute, PrivacyDefinition};
use vstd::prelude::*;

verus! {

/// One side of the bounds that imputation leaves: the bound given, pushed out
/// to the bound that the data had; where the data had no such bounds, none is
/// known of any column.
pub open spec fn imputed_side<T: Numeric>(
    which: Bound,
    bound: Seq<T>,
    data: ArrayPropertiesView,
    num_columns: i64,
) -> Vector1DNullView {
    T::bounds_view(
        match T::bound_option_of(data, which) {
            Ok(known) => widened(which, bound, known),
            Err(_) => crate::base::repeated(None::<T>, num_columns as int),
        },
    )
}

/// The bounds that imputation within bounds leaves on the data: those
/// resolved from the arguments, each lower one below its upper one, pushed out
/// to the bounds that the data had.
pub open spec fn imputed_bounds<T: Numeric>(
    public_arguments: Map<Seq<char>, ValueView>,
    properties: Map<Seq<char>, ValuePropertiesView>,
    data: ArrayPropertiesView,
    num_columns: i64,
) -> Result<NatureView, Error> {
    match resolved_bound::<T>(Bound::Lower, public_arguments, properties, data, num_columns) {
        Err(e) => Err(e),
        Ok(lower) => match resolved_bound::<T>(
            Bound::Upper,
            public_arguments,
            properties,
            data,
            num_columns,
        ) {
            Err(e) => Err(e),
            Ok(upper) => if !strictly_below(lower, upper) {
                Err(Error::BoundsInverted)
            } else {
                Ok(
                    NatureView::Continuous {
                        lower: imputed_side(Bound::Lower, lower, data, num_columns),
                        upper: imputed_side(Bound::Upper, upper, data, num_columns),
                    },
                )
            },
        },
    }
}

/// The bounds that imputation within bounds leaves on the data.
pub fn impute_bounds<T: Numeric>(
    public_arguments: &Arguments<Value>,
    properties: &NodeProperties,
    data: &crate::base::ArrayProperties,
    num_columns: i64,
) -> (r: Result<Nature, Error>)
    ensures
        match r {
            Ok(nature) => imputed_bounds::<T>(public_arguments@, properties@, data@, num_columns)
                == Ok::<NatureView, Error>(nature@),
            Err(e) => imputed_bounds::<T>(public_arguments@, properties@, data@, num_columns)
                == Err::<NatureView, Error>(e),
        },
{
    let impute_lower = match resolve_bound::<T>(
        Bound::Lower,
        public_arguments,
        properties,
        data,
        num_columns,
    ) {
        Ok(bound) => bound,
        Err(e) => {
            return Err(e);
        },
    };
    let impute_upper = match resolve_bound::<T>(
        Bound::Upper,
        public_arguments,
        properties,
        data,
        num_columns,
    ) {
        Ok(bound) => bound,
        Err(e) => {
            return Err(e);
        },
    };
    if !all_below(&impute_lower, &impute_upper) {
        return Err(Error::BoundsInverted);
    }
    let lower = match T::bound_option(data, Bound::Lower) {
        Ok(known) => widen(Bound::Lower, &impute_lower, &known),
        Err(_) => unknown(num_columns),
    };
    let upper = match T::bound_option(data, Bound::Upper) {
        Ok(known) => widen(Bound::Upper, &impute_upper, &known),
        Err(_) => unknown(num_columns),
    };
    Ok(Nature::Continuous(NatureContinuous { lower: T::bounds(lower), upper: T::bounds(upper) }))
}

impl Impute {
    /// What imputation among categories leaves of the data's properties: no
    /// nature. It is refused where the categories or the null values are no
    /// jagged matrices of the data's type.
    pub open spec fn categorical(
        public_arguments: Map<Seq<char>, ValueView>,
        data: ArrayPropertiesView,
    ) -> Result<ValuePropertiesView, Error> {
        match public_arguments["categories"@] {
            ValueView::Jagged(categories) => if data.data_type != categories.data_type() {
                Err(Error::CategoriesType)
            } else if !public_arguments.contains_key("null_values"@) {
                Err(Error::Missing(Argument::NullValues))
            } else {
                match public_arguments["null_values"@] {
                    ValueView::Jagged(null_values) => if null_values.data_type() != data.data_type {
                        Err(Error::NullValuesType)
                    } else {
                        Ok(ValuePropertiesView::Array(ArrayPropertiesView { nature: None, ..data }))
                    },
                    _ => Err(Error::ValueNotJagged),
                }
            },
            _ => Err(Error::ValueNotJagged),
        }
    }

    /// The properties of imputed data. Integer data is handed on as it is, and
    /// refused if it may hold nulls. Other data holds no nulls afterwards; its
    /// nature is none after imputation among categories, and float bounds
    /// after imputation within bounds.
    pub open spec fn propagated(
        public_arguments: Map<Seq<char>, ValueView>,
        properties: Map<Seq<char>, ValuePropertiesView>,
    ) -> Result<ValuePropertiesView, Error> {
        if !properties.contains_key("data"@) {
            Err(Error::Missing(Argument::Data))
        } else {
            match properties["data"@] {
                ValuePropertiesView::Array(data) => if !data.releasable && data.aggregator is Some {
                    Err(Error::Aggregated)
                } else if data.data_type == DataType::I64 {
                    if data.nullity {
                        Err(Error::IntegerNullity)
                    } else {
                        Ok(ValuePropertiesView::Array(data))
                    }
                } else if public_arguments.contains_key("categories"@) {
                    Impute::categorical(public_arguments, data)
                } else {
                    match data.num_columns {
                        None => Err(Error::DataColumnsMissing),
                        Some(num_columns) => match imputed_bounds::<Float>(
                            public_arguments,
                            properties,
                            data,
                            num_columns,
                        ) {
                            Ok(nature) => Ok(
                                ValuePropertiesView::Array(
                                    ArrayPropertiesView {
                                        nullity: false,
                                        nature: Some(nature),
                                        ..data
                                    },
                                ),
                            ),
                            Err(e) => Err(e),
                        },
                    }
                },
                _ => Err(within(Argument::Data, Error::PropertiesNotArray)),
            }
        }
    }
}

impl Component for Impute {
    fn propagate_property<A: Fn(Operation) -> Float>(
        &self,
        _privacy_definition: &Option<PrivacyDefinition>,
        public_arguments: &Arguments<Value>,
        properties: NodeProperties,
        _node_id: u32,
        _arithmetic: &A,
    ) -> (r: Result<Warnable<ValueProperties>, Error>)
        ensures
            match r {
                Ok(derived) => Impute::propagated(public_arguments@, properties@) == Ok::<
                    ValuePropertiesView,
                    Error,
                >(derived.value@) && derived.warnings@.len() == 0,
                Err(e) => Impute::propagated(public_arguments@, properties@) == Err::<
                    ValuePropertiesView,
                    Error,
                >(e),
            },
    {
        let data = match properties.get("data") {
            Some(data) => data,
            None => {
                return Err(Error::Missing(Argument::Data));
            },
        };
        let data = match data.array() {
            Ok(data) => data,
            Err(e) => {
                return Err(e.within(Argument::Data));
            },
        };
        let mut data_property = data.duplicate();
        if !data_property.releasable {
            match data_property.assert_is_not_aggregated() {
                Ok(_) => {},
                Err(e) => {
                    return Err(e);
                },
            }
        }
        if data_property.data_type == DataType::I64 {
            if data_property.nullity {
                return Err(Error::IntegerNullity);
            }
            return Ok(Warnable::new(ValueProperties::Array(data_property)));
        }
        if let Some(categories) = public_arguments.get("categories") {
            let categories = match categories.jagged() {
                Ok(categories) => categories,
                Err(e) => {
                    return Err(e);
                },
            };
            if data_property.data_type != categories.data_type() {
                return Err(Error::CategoriesType);
            }
            let null_values = match public_arguments.get("null_values") {
                Some(null_values) => null_values,
                None => {
                    return Err(Error::Missing(Argument::NullValues));
                },
            };
            let null_values = match null_values.jagged() {
                Ok(null_values) => null_values,
                Err(e) => {
                    return Err(e);
                },
            };
            if null_values.data_type() != data_property.data_type {
                return Err(Error::NullValuesType);
            }
            data_property.nature = None;
            return Ok(Warnable::new(ValueProperties::Array(data_property)));
        }
        let num_columns = match data_property.num_columns {
            Some(num_columns) => num_columns,
            None => {
                return Err(Error::DataColumnsMissing);
            },
        };
        let nature = match impute_bounds::<Float>(
            public_arguments,
            &properties,
            &data_property,
            num_columns,
        ) {
            Ok(nature) => nature,
            Err(e) => {
                return Err(e);
            },
        };
        data_property.nullity = false;
        data_property.nature = Some(nature);
        Ok(Warnable::new(ValueProperties::Array(data_property)))
    }
}

} // verus!
