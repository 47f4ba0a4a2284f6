//! Resizing: the number of records, or of columns, is fixed.

use crate::base::{
    repeat, repeated, Arguments, ArrayProperties, ArrayPropertiesView, DataType, NodeProperties,
    Value, ValueProperties, ValuePropertiesView, ValueView,
};
use crate::components::bounds::within;
use crate::components::impute::{impute_bounds, imputed_bounds};
use crate::components::{Component, Warnable};
use crate::errors::{Argument, Error};
use crate::float::{Float, Operation, ONE_BITS};
use crate::proto::{PrivacyDefinition, Resize};
use vstd::prelude::*;

verus! {

/// The only item of a public argument, as an integer.
pub open spec fn first_integer(value: ValueView) -> Result<i64, Error> {
    match value {
        ValueView::Array(array) => array.first_i64(),
        _ => Err(Error::ValueNotArray),
    }
}

fn first_integer_of(value: &Value) -> (r: Result<i64, Error>)
    ensures
        r == first_integer(value@),
{
    match value.array() {
        Ok(array) => array.first_i64(),
        Err(e) => Err(e),
    }
}

impl Resize {
    /// The properties after the number of columns is set, where it is: the
    /// number must not have been known and must be at least one; each column
    /// has stability 1, and no nature is known any more.
    pub open spec fn with_columns(
        public_arguments: Map<Seq<char>, ValueView>,
        data: ArrayPropertiesView,
    ) -> Result<ArrayPropertiesView, Error> {
        if !public_arguments.contains_key("number_columns"@) {
            Ok(data)
        } else if data.num_columns is Some {
            Err(Error::ColumnsKnown)
        } else {
            match first_integer(public_arguments["number_columns"@]) {
                Err(e) => Err(e),
                Ok(num_columns) => if num_columns < 1 {
                    Err(Error::NumberColumns)
                } else {
                    Ok(
                        ArrayPropertiesView {
                            num_columns: Some(num_columns),
                            nature: None,
                            c_stability: repeated(Float { bits: ONE_BITS }, num_columns as int),
                            dimensionality: 2,
                            ..data
                        },
                    )
                },
            }
        }
    }

    /// The properties after the number of rows is set, where it is: the number
    /// must be at least one, and the data is not empty.
    pub open spec fn with_rows(
        public_arguments: Map<Seq<char>, ValueView>,
        data: ArrayPropertiesView,
    ) -> Result<ArrayPropertiesView, Error> {
        if !public_arguments.contains_key("number_rows"@) {
            Ok(data)
        } else {
            match first_integer(public_arguments["number_rows"@]) {
                Err(e) => Err(e),
                Ok(num_records) => if num_records < 1 {
                    Err(Error::NumberRows)
                } else {
                    Ok(
                        ArrayPropertiesView {
                            num_records: Some(num_records),
                            is_not_empty: true,
                            ..data
                        },
                    )
                },
            }
        }
    }

    /// The properties after the minimum of rows is set, where it is: the
    /// minimum must be at least one, and the data is not empty.
    pub open spec fn with_minimum(
        public_arguments: Map<Seq<char>, ValueView>,
        data: ArrayPropertiesView,
    ) -> Result<ArrayPropertiesView, Error> {
        if !public_arguments.contains_key("minimum_rows"@) {
            Ok(data)
        } else {
            match first_integer(public_arguments["minimum_rows"@]) {
                Err(e) => Err(e),
                Ok(minimum_rows) => if minimum_rows > 0 {
                    Ok(ArrayPropertiesView { is_not_empty: true, ..data })
                } else {
                    Err(Error::MinimumRows)
                },
            }
        }
    }

    /// The properties after the shape is set: columns, then rows, then the
    /// minimum of rows.
    pub open spec fn with_shape(
        public_arguments: Map<Seq<char>, ValueView>,
        data: ArrayPropertiesView,
    ) -> Result<ArrayPropertiesView, Error> {
        match Resize::with_columns(public_arguments, data) {
            Err(e) => Err(e),
            Ok(data) => match Resize::with_rows(public_arguments, data) {
                Err(e) => Err(e),
                Ok(data) => Resize::with_minimum(public_arguments, data),
            },
        }
    }

    /// The nature of resized data, given its properties after the shape is
    /// set. With categories, which must be of the data's type and not float,
    /// no nature is known. Otherwise the data must be numeric with a known
    /// number of columns, and bounds are derived as imputation derives them.
    pub open spec fn with_nature(
        public_arguments: Map<Seq<char>, ValueView>,
        properties: Map<Seq<char>, ValuePropertiesView>,
        data: ArrayPropertiesView,
    ) -> Result<ArrayPropertiesView, Error> {
        if public_arguments.contains_key("categories"@) {
            match public_arguments["categories"@] {
                ValueView::Jagged(categories) => if data.data_type != categories.data_type() {
                    Err(Error::CategoriesType)
                } else if data.data_type == DataType::F64 {
                    Err(Error::FloatCategorical)
                } else {
                    Ok(ArrayPropertiesView { nature: None, ..data })
                },
                _ => Err(Error::ValueNotJagged),
            }
        } else {
            match data.num_columns {
                None => Err(Error::ColumnsUnknown),
                Some(num_columns) => match (
                    match data.data_type {
                        DataType::F64 => imputed_bounds::<Float>(
                            public_arguments,
                            properties,
                            data,
                            num_columns,
                        ),
                        DataType::I64 => imputed_bounds::<i64>(
                            public_arguments,
                            properties,
                            data,
                            num_columns,
                        ),
                        _ => Err(Error::ImputeNotNumeric),
                    }
                ) {
                    Ok(nature) => Ok(ArrayPropertiesView { nature: Some(nature), ..data }),
                    Err(e) => Err(e),
                },
            }
        }
    }

    /// The properties of resized data. Resizing is refused where the data is
    /// missing or no array, where it was aggregated and is not releasable, and
    /// where both the number of rows and the minimum of rows are given.
    pub open spec fn propagated(
        public_arguments: Map<Seq<char>, ValueView>,
        properties: Map<Seq<char>, ValuePropertiesView>,
    ) -> Result<ValuePropertiesView, Error> {
        if !properties.contains_key("data"@) {
            Err(Error::Missing(Argument::Data))
        } else {
            match properties["data"@] {
                ValuePropertiesView::Array(data) => if !data.releasable && data.aggregator is Some {
                    Err(Error::Aggregated)
                } else if properties.contains_key("number_rows"@) && properties.contains_key(
                    "minimum_rows"@,
                ) {
                    Err(Error::RowsOverdetermined)
                } else {
                    match Resize::with_shape(public_arguments, data) {
                        Err(e) => Err(e),
                        Ok(shaped) => match Resize::with_nature(public_arguments, properties, shaped) {
                            Err(e) => Err(e),
                            Ok(resized) => Ok(ValuePropertiesView::Array(resized)),
                        },
                    }
                },
                _ => Err(within(Argument::Data, Error::PropertiesNotArray)),
            }
        }
    }
}

fn set_shape(public_arguments: &Arguments<Value>, data_property: &mut ArrayProperties) -> (r: Result<
    (),
    Error,
>)
    ensures
        match r {
            Ok(_) => Resize::with_shape(public_arguments@, old(data_property)@) == Ok::<
                ArrayPropertiesView,
                Error,
            >(final(data_property)@),
            Err(e) => Resize::with_shape(public_arguments@, old(data_property)@) == Err::<
                ArrayPropertiesView,
                Error,
            >(e),
        },
{
    if let Some(num_columns) = public_arguments.get("number_columns") {
        if data_property.num_columns.is_some() {
            return Err(Error::ColumnsKnown);
        }
        let num_columns = match first_integer_of(num_columns) {
            Ok(num_columns) => num_columns,
            Err(e) => {
                return Err(e);
            },
        };
        if num_columns < 1 {
            return Err(Error::NumberColumns);
        }
        data_property.num_columns = Some(num_columns);
        data_property.nature = None;
        data_property.c_stability = repeat(Float::one(), num_columns);
        data_property.dimensionality = 2;
    }
    if let Some(num_records) = public_arguments.get("number_rows") {
        let num_records = match first_integer_of(num_records) {
            Ok(num_records) => num_records,
            Err(e) => {
                return Err(e);
            },
        };
        if num_records < 1 {
            return Err(Error::NumberRows);
        }
        data_property.num_records = Some(num_records);
        data_property.is_not_empty = num_records > 0;
    }
    if let Some(minimum_rows) = public_arguments.get("minimum_rows") {
        let minimum_rows = match first_integer_of(minimum_rows) {
            Ok(minimum_rows) => minimum_rows,
            Err(e) => {
                return Err(e);
            },
        };
        if minimum_rows > 0 {
            data_property.is_not_empty = true;
        } else {
            return Err(Error::MinimumRows);
        }
    }
    Ok(())
}

impl Component for Resize {
    fn propagate_property<A: Fn(Operation) -> Float>(
        &self,
        _privacy_definition: &Option<PrivacyDefinition>,
        public_arguments: &Arguments<Value>,
        properties: NodeProperties,
        _node_id: u32,
        _arithmetic: &A,
    ) -> (r: Result<Warnable<ValueProperties>, Error>)
        ensures
            match r {
                Ok(derived) => Resize::propagated(public_arguments@, properties@) == Ok::<
                    ValuePropertiesView,
                    Error,
                >(derived.value@) && derived.warnings@.len() == 0,
                Err(e) => Resize::propagated(public_arguments@, properties@) == Err::<
                    ValuePropertiesView,
                    Error,
                >(e),
            },
    {
        let data = match properties.get("data") {
            Some(data) => data,
            None => {
                return Err(Error::Missing(Argument::Data));
            },
        };
        let data = match data.array() {
            Ok(data) => data,
            Err(e) => {
                return Err(e.within(Argument::Data));
            },
        };
        let mut data_property = data.duplicate();
        if !data_property.releasable {
            match data_property.assert_is_not_aggregated() {
                Ok(_) => {},
                Err(e) => {
                    return Err(e);
                },
            }
        }
        if properties.contains_key("number_rows") && properties.contains_key("minimum_rows") {
            return Err(Error::RowsOverdetermined);
        }
        match set_shape(public_arguments, &mut data_property) {
            Ok(_) => {},
            Err(e) => {
                return Err(e);
            },
        }
        if let Some(categories) = public_arguments.get("categories") {
            let categories = match categories.jagged() {
                Ok(categories) => categories,
                Err(e) => {
                    return Err(e);
                },
            };
            if data_property.data_type != categories.data_type() {
                return Err(Error::CategoriesType);
            }
            if data_property.data_type == DataType::F64 {
                return Err(Error::FloatCategorical);
            }
            data_property.nature = None;
            return Ok(Warnable::new(ValueProperties::Array(data_property)));
        }
        let num_columns = match data_property.num_columns() {
            Ok(num_columns) => num_columns,
            Err(e) => {
                return Err(e);
            },
        };
        let nature = match data_property.data_type {
            DataType::F64 => impute_bounds::<Float>(
                public_arguments,
                &properties,
                &data_property,
                num_columns,
            ),
            DataType::I64 => impute_bounds::<i64>(
                public_arguments,
                &properties,
                &data_property,
                num_columns,
            ),
            _ => Err(Error::ImputeNotNumeric),
        };
        let nature = match nature {
            Ok(nature) => nature,
            Err(e) => {
                return Err(e);
            },
        };
        data_property.nature = Some(nature);
        Ok(Warnable::new(ValueProperties::Array(data_property)))
    }
}

} // verus!
