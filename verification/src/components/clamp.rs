//! Clamping: data is held to bounds, or to categories.

use crate::base::{
    Arguments, Array, ArrayPropertiesView, ArrayView, DataType, Jagged, JaggedView, Nature,
    NatureCategorical, NatureContinuous, NatureView, NodeProperties, Value, ValueProperties,
    ValuePropertiesView, ValueView,
};
use crate::components::bounds::{
    all_below, resolve_bound, resolved_bound, strictly_below, tighten, tightened, within, wrap,
    Numeric,
};
use crate::components::{Component, Warnable};
use crate::errors::{Argument, Bound, Error};
use crate::float::{Float, Operation};
use crate::proto::{Clamp, PrivacyDefinition};
use crate::utilities::{append_nulls, standardize_null_target_argument, standardized_nulls, with_nulls};
use vstd::prelude::*;

verus! {

/// A bound of the arguments pulled in to the bound that the data had, where
/// the data had one of the type.
pub open spec fn pulled_in<T: Numeric>(which: Bound, bound: Seq<T>, data: ArrayPropertiesView) -> Seq<
    T,
> {
    match T::bound_option_of(data, which) {
        Ok(known) => tightened(which, bound, known),
        Err(_) => bound,
    }
}

/// The bounds that numeric clamping leaves on the data: those resolved from
/// the arguments, pulled in to the bounds that the data had. They are refused
/// where a lower bound is not below its upper bound, before or after they are
/// pulled in.
pub open spec fn clamped_bounds<T: Numeric>(
    public_arguments: Map<Seq<char>, ValueView>,
    properties: Map<Seq<char>, ValuePropertiesView>,
    data: ArrayPropertiesView,
    num_columns: i64,
) -> Result<NatureView, Error> {
    match resolved_bound::<T>(Bound::Lower, public_arguments, properties, data, num_columns) {
        Err(e) => Err(e),
        Ok(lower) => match resolved_bound::<T>(
            Bound::Upper,
            public_arguments,
            properties,
            data,
            num_columns,
        ) {
            Err(e) => Err(e),
            Ok(upper) => if !strictly_below(lower, upper) || !strictly_below(
                pulled_in(Bound::Lower, lower, data),
                pulled_in(Bound::Upper, upper, data),
            ) {
                Err(Error::BoundsInverted)
            } else {
                Ok(
                    NatureView::Continuous {
                        lower: T::bounds_view(
                            crate::base::wrapped(pulled_in(Bound::Lower, lower, data)),
                        ),
                        upper: T::bounds_view(
                            crate::base::wrapped(pulled_in(Bound::Upper, upper, data)),
                        ),
                    },
                )
            },
        },
    }
}

/// The categories with the null value of each column added.
pub open spec fn categories_with_null(
    categories: JaggedView,
    null: ArrayView,
    num_columns: i64,
) -> Result<JaggedView, Error> {
    match (categories, null) {
        (JaggedView::F64(columns), ArrayView::F64(null)) => match standardized_nulls(
            null.items,
            num_columns,
        ) {
            Ok(nulls) => Ok(JaggedView::F64(with_nulls(columns, nulls))),
            Err(e) => Err(e),
        },
        (JaggedView::I64(columns), ArrayView::I64(null)) => match standardized_nulls(
            null.items,
            num_columns,
        ) {
            Ok(nulls) => Ok(JaggedView::I64(with_nulls(columns, nulls))),
            Err(e) => Err(e),
        },
        (JaggedView::Str(columns), ArrayView::Str(null)) => match standardized_nulls(
            null.items,
            num_columns,
        ) {
            Ok(nulls) => Ok(JaggedView::Str(with_nulls(columns, nulls))),
            Err(e) => Err(e),
        },
        (JaggedView::Bool(columns), ArrayView::Bool(null)) => match standardized_nulls(
            null.items,
            num_columns,
        ) {
            Ok(nulls) => Ok(JaggedView::Bool(with_nulls(columns, nulls))),
            Err(e) => Err(e),
        },
        _ => Err(Error::NullValueType),
    }
}

/// The categories that categorical clamping leaves on the data: those given,
/// with the null value of each column added, one list for each column.
pub open spec fn clamped_categories(
    public_arguments: Map<Seq<char>, ValueView>,
    num_columns: i64,
) -> Result<NatureView, Error> {
    if !public_arguments.contains_key("null_value"@) {
        Err(Error::NullValueUndefined)
    } else {
        match public_arguments["null_value"@] {
            ValueView::Array(null) => match public_arguments["categories"@] {
                ValueView::Jagged(categories) => match categories_with_null(
                    categories,
                    null,
                    num_columns,
                ) {
                    Ok(extended) => match extended.standardize(num_columns) {
                        Ok(categories) => Ok(NatureView::Categorical { categories }),
                        Err(e) => Err(e),
                    },
                    Err(e) => Err(e),
                },
                _ => Err(Error::ValueNotJagged),
            },
            _ => Err(Error::ValueNotArray),
        }
    }
}

impl Clamp {
    /// The properties of clamped data: those of the data, with the nature that
    /// clamping establishes. Clamping is refused where the data is missing or
    /// no array, where its number of columns is not known, and where it was
    /// aggregated and is not releasable.
    pub open spec fn propagated(
        public_arguments: Map<Seq<char>, ValueView>,
        properties: Map<Seq<char>, ValuePropertiesView>,
    ) -> Result<ValuePropertiesView, Error> {
        if !properties.contains_key("data"@) {
            Err(Error::Missing(Argument::Data))
        } else {
            match properties["data"@] {
                ValuePropertiesView::Array(data) => match data.num_columns {
                    None => Err(Error::DataColumnsMissing),
                    Some(num_columns) => if !data.releasable && data.aggregator is Some {
                        Err(Error::Aggregated)
                    } else {
                        match (
                            if public_arguments.contains_key("categories"@) {
                                clamped_categories(public_arguments, num_columns)
                            } else {
                                match data.data_type {
                                    DataType::F64 => clamped_bounds::<Float>(
                                        public_arguments,
                                        properties,
                                        data,
                                        num_columns,
                                    ),
                                    DataType::I64 => clamped_bounds::<i64>(
                                        public_arguments,
                                        properties,
                                        data,
                                        num_columns,
                                    ),
                                    _ => Err(Error::ClampNotNumeric),
                                }
                            }
                        ) {
                            Ok(nature) => Ok(
                                ValuePropertiesView::Array(
                                    ArrayPropertiesView { nature: Some(nature), ..data },
                                ),
                            ),
                            Err(e) => Err(e),
                        }
                    },
                },
                _ => Err(within(Argument::Data, Error::PropertiesNotArray)),
            }
        }
    }
}

fn clamp_bounds<T: Numeric>(
    public_arguments: &Arguments<Value>,
    properties: &NodeProperties,
    data: &crate::base::ArrayProperties,
    num_columns: i64,
) -> (r: Result<Nature, Error>)
    ensures
        match r {
            Ok(nature) => clamped_bounds::<T>(public_arguments@, properties@, data@, num_columns)
                == Ok::<NatureView, Error>(nature@),
            Err(e) => clamped_bounds::<T>(public_arguments@, properties@, data@, num_columns)
                == Err::<NatureView, Error>(e),
        },
{
    let mut clamp_lower = match resolve_bound::<T>(
        Bound::Lower,
        public_arguments,
        properties,
        data,
        num_columns,
    ) {
        Ok(bound) => bound,
        Err(e) => {
            return Err(e);
        },
    };
    let mut clamp_upper = match resolve_bound::<T>(
        Bound::Upper,
        public_arguments,
        properties,
        data,
        num_columns,
    ) {
        Ok(bound) => bound,
        Err(e) => {
            return Err(e);
        },
    };
    if !all_below(&clamp_lower, &clamp_upper) {
        return Err(Error::BoundsInverted);
    }
    if let Ok(known) = T::bound_option(data, Bound::Lower) {
        clamp_lower = tighten(Bound::Lower, &clamp_lower, &known);
    }
    if let Ok(known) = T::bound_option(data, Bound::Upper) {
        clamp_upper = tighten(Bound::Upper, &clamp_upper, &known);
    }
    if !all_below(&clamp_lower, &clamp_upper) {
        return Err(Error::BoundsInverted);
    }
    Ok(
        Nature::Continuous(
            NatureContinuous {
                lower: T::bounds(wrap(&clamp_lower)),
                upper: T::bounds(wrap(&clamp_upper)),
            },
        ),
    )
}

fn extend_categories(categories: &Jagged, null: &Array, num_columns: i64) -> (r: Result<Jagged, Error>)
    ensures
        match r {
            Ok(extended) => categories_with_null(categories@, null@, num_columns) == Ok::<
                JaggedView,
                Error,
            >(extended@),
            Err(e) => categories_with_null(categories@, null@, num_columns) == Err::<
                JaggedView,
                Error,
            >(e),
        },
{
    match (categories, null) {
        (Jagged::F64(jagged), Array::F64(null)) => {
            match standardize_null_target_argument(null, num_columns) {
                Ok(nulls) => Ok(Jagged::F64(append_nulls(jagged, &nulls))),
                Err(e) => Err(e),
            }
        },
        (Jagged::I64(jagged), Array::I64(null)) => {
            match standardize_null_target_argument(null, num_columns) {
                Ok(nulls) => Ok(Jagged::I64(append_nulls(jagged, &nulls))),
                Err(e) => Err(e),
            }
        },
        (Jagged::Str(jagged), Array::Str(null)) => {
            match standardize_null_target_argument(null, num_columns) {
                Ok(nulls) => Ok(Jagged::Str(append_nulls(jagged, &nulls))),
                Err(e) => Err(e),
            }
        },
        (Jagged::Bool(jagged), Array::Bool(null)) => {
            match standardize_null_target_argument(null, num_columns) {
                Ok(nulls) => Ok(Jagged::Bool(append_nulls(jagged, &nulls))),
                Err(e) => Err(e),
            }
        },
        _ => Err(Error::NullValueType),
    }
}

fn clamp_categories(public_arguments: &Arguments<Value>, categories: &Value, num_columns: i64) -> (r:
    Result<Nature, Error>)
    requires
        public_arguments@.contains_key("categories"@),
        public_arguments@["categories"@] == categories@,
    ensures
        match r {
            Ok(nature) => clamped_categories(public_arguments@, num_columns) == Ok::<
                NatureView,
                Error,
            >(nature@),
            Err(e) => clamped_categories(public_arguments@, num_columns) == Err::<NatureView, Error>(
                e,
            ),
        },
{
    let null = match public_arguments.get("null_value") {
        Some(null) => null,
        None => {
            return Err(Error::NullValueUndefined);
        },
    };
    let null = match null.array() {
        Ok(null) => null,
        Err(e) => {
            return Err(e);
        },
    };
    let categories = match categories.jagged() {
        Ok(categories) => categories,
        Err(e) => {
            return Err(e);
        },
    };
    let extended = match extend_categories(categories, null, num_columns) {
        Ok(extended) => extended,
        Err(e) => {
            return Err(e);
        },
    };
    match extended.standardize(&num_columns) {
        Ok(categories) => Ok(Nature::Categorical(NatureCategorical { categories })),
        Err(e) => Err(e),
    }
}

impl Component for Clamp {
    fn propagate_property<A: Fn(Operation) -> Float>(
        &self,
        _privacy_definition: &Option<PrivacyDefinition>,
        public_arguments: &Arguments<Value>,
        properties: NodeProperties,
        _node_id: u32,
        _arithmetic: &A,
    ) -> (r: Result<Warnable<ValueProperties>, Error>)
        ensures
            match r {
                Ok(derived) => Clamp::propagated(public_arguments@, properties@) == Ok::<
                    ValuePropertiesView,
                    Error,
                >(derived.value@) && derived.warnings@.len() == 0,
                Err(e) => Clamp::propagated(public_arguments@, properties@) == Err::<
                    ValuePropertiesView,
                    Error,
                >(e),
            },
    {
        let data = match properties.get("data") {
            Some(data) => data,
            None => {
                return Err(Error::Missing(Argument::Data));
            },
        };
        let data = match data.array() {
            Ok(data) => data,
            Err(e) => {
                return Err(e.within(Argument::Data));
            },
        };
        let mut data_property = data.duplicate();
        let num_columns = match data_property.num_columns {
            Some(num_columns) => num_columns,
            None => {
                return Err(Error::DataColumnsMissing);
            },
        };
        if !data_property.releasable {
            match data_property.assert_is_not_aggregated() {
                Ok(_) => {},
                Err(e) => {
                    return Err(e);
                },
            }
        }
        let nature = match public_arguments.get("categories") {
            Some(categories) => clamp_categories(public_arguments, categories, num_columns),
            None => match data_property.data_type {
                DataType::F64 => clamp_bounds::<Float>(
                    public_arguments,
                    &properties,
                    &data_property,
                    num_columns,
                ),
                DataType::I64 => clamp_bounds::<i64>(
                    public_arguments,
                    &properties,
                    &data_property,
                    num_columns,
                ),
                _ => Err(Error::ClampNotNumeric),
            },
        };
        let nature = match nature {
            Ok(nature) => nature,
            Err(e) => {
                return Err(e);
            },
        };
        data_property.nature = Some(nature);
        Ok(Warnable::new(ValueProperties::Array(data_property)))
    }
}

} // verus!
