//! Clamping of data: numbers are held to bounds, and other values to
//! categories.

use crate::array::{columns, records, NdArray, NdArrayView};
use crate::atom::Atom;
use crate::base::{
    all_known, unwrapped, Arguments, Array, ArrayView, Jagged, JaggedView, ReleaseNode,
    ReleaseNodeView, Value, ValueView,
};
use crate::components::bounds::Numeric;
use crate::errors::{Argument, Error};
use crate::float::Float;
use crate::proto::{Clamp, PrivacyDefinition};
use crate::runtime::utilities::{
    column_at, get_num_columns, lemma_place, map_by_column, num_columns_of,
    standardize_numeric_argument, standardized_numeric,
};
use crate::runtime::Evaluable;
use crate::utilities::{
    standardize_categorical_argument, standardize_null_target_argument, standardized_categories,
    standardized_nulls,
};
use vstd::prelude::*;

verus! {

/// A number held to bounds: the larger of the lower bound and the smaller of
/// the upper bound and the number. What is no number stays as it is.
pub open spec fn clamped<T: Numeric>(item: T, lower: T, upper: T) -> T {
    if item.undefined() {
        item
    } else {
        lower.larger(upper.smaller(item))
    }
}

/// The data with every item held to the bounds of its column. It is refused
/// where the data is a scalar, and where a bound is neither one value nor one
/// for each column.
pub open spec fn clamped_data<T: Numeric>(
    data: NdArrayView<T>,
    lower: NdArrayView<T>,
    upper: NdArrayView<T>,
) -> Result<NdArrayView<T>, Error> {
    match num_columns_of(data.shape) {
        Err(e) => Err(e),
        Ok(num_columns) => match standardized_numeric(lower, num_columns) {
            Err(e) => Err(e),
            Ok(lower) => match standardized_numeric(upper, num_columns) {
                Err(e) => Err(e),
                Ok(upper) => Ok(
                    NdArrayView {
                        shape: data.shape,
                        items: Seq::new(
                            data.items.len(),
                            |place: int|
                                clamped(
                                    data.items[place],
                                    lower[column_at(data.shape, place)],
                                    upper[column_at(data.shape, place)],
                                ),
                        ),
                    },
                ),
            },
        },
    }
}

/// The data with every item held to the bounds of its column.
pub fn clamp_numeric<T: Numeric>(data: NdArray<T>, lower: &NdArray<T>, upper: &NdArray<T>) -> (r:
    Result<NdArray<T>, Error>)
    ensures
        match r {
            Ok(result) => clamped_data(data@, lower@, upper@) == Ok::<NdArrayView<T>, Error>(
                result@,
            ),
            Err(e) => clamped_data(data@, lower@, upper@) == Err::<NdArrayView<T>, Error>(e),
        },
{
    let num_columns = match get_num_columns(&data) {
        Ok(num_columns) => num_columns,
        Err(e) => {
            return Err(e);
        },
    };
    let lower_values = match standardize_numeric_argument(lower, num_columns) {
        Ok(values) => values,
        Err(e) => {
            return Err(e);
        },
    };
    let upper_values = match standardize_numeric_argument(upper, num_columns) {
        Ok(values) => values,
        Err(e) => {
            return Err(e);
        },
    };
    proof {
        assert forall|i: int| 0 <= i < lower_values@.len() implies lower_values@[i]
            == lower_values.deep_view()[i] by {
            lower_values@[i].lemma_view();
        }
        assert(lower_values@ =~= lower_values.deep_view());
        assert forall|i: int| 0 <= i < upper_values@.len() implies upper_values@[i]
            == upper_values.deep_view()[i] by {
            upper_values@[i].lemma_view();
        }
        assert(upper_values@ =~= upper_values.deep_view());
        assert(num_columns == columns(data.dimensions()));
        assert(lower_values@.len() == num_columns);
        assert(upper_values@.len() == num_columns);
    }
    let operator = |item: &T, column: usize| -> (r: T)
        requires
            column < lower_values@.len(),
            column < upper_values@.len(),
        ensures
            r == clamped(*item, lower_values@[column as int], upper_values@[column as int]),
        {
            if item.is_undefined() {
                *item
            } else {
                lower_values[column].take_larger(upper_values[column].take_smaller(*item))
            }
        };
    let height = data.num_records();
    let result = map_by_column(&data, &operator);
    proof {
        let width = columns(data@.shape);
        let expected = clamped_data(data@, lower@, upper@)->Ok_0;
        assert forall|place: int| 0 <= place < result@.items.len() implies result@.items[place]
            == expected.items[place] by {
            lemma_place(data@.shape, place);
            let record = place / width;
            let column = column_at(data@.shape, place);
            assert(call_ensures(
                operator,
                (&data.elements()[record * width + column], column as usize),
                result.elements()[record * width + column],
            ));
            data.elements()[place].lemma_view();
            result.elements()[place].lemma_view();
        }
        assert(result@.items =~= expected.items);
    }
    Ok(result)
}

/// The float data with every number held to the bounds of its column.
pub fn clamp_numeric_float(data: NdArray<Float>, lower: NdArray<Float>, upper: NdArray<Float>) -> (r:
    Result<NdArray<Float>, Error>)
    ensures
        match r {
            Ok(result) => clamped_data(data@, lower@, upper@) == Ok::<NdArrayView<Float>, Error>(
                result@,
            ),
            Err(e) => clamped_data(data@, lower@, upper@) == Err::<NdArrayView<Float>, Error>(e),
        },
{
    clamp_numeric(data, &lower, &upper)
}

/// The integer data with every number held to the bounds of its column.
pub fn clamp_numeric_integer(data: NdArray<i64>, lower: NdArray<i64>, upper: NdArray<i64>) -> (r:
    Result<NdArray<i64>, Error>)
    ensures
        match r {
            Ok(result) => clamped_data(data@, lower@, upper@) == Ok::<NdArrayView<i64>, Error>(
                result@,
            ),
            Err(e) => clamped_data(data@, lower@, upper@) == Err::<NdArrayView<i64>, Error>(e),
        },
{
    clamp_numeric(data, &lower, &upper)
}

/// Whether one of the items counts as the same value as the given one.
pub open spec fn holds_alike<T: Atom>(items: Seq<T::V>, item: T::V) -> bool {
    exists|i: int| 0 <= i < items.len() && T::alike(#[trigger] items[i], item)
}

/// Whether one of the items counts as the same value as the given one.
pub fn contains_alike<T: Atom>(items: &Vec<T>, item: &T) -> (r: bool)
    ensures
        r == holds_alike::<T>(items.deep_view(), item.deep_view()),
{
    let mut i: usize = 0;
    while i < items.len()
        invariant
            i <= items.len(),
            forall|j: int|
                0 <= j < i ==> !T::alike((#[trigger] items.deep_view()[j]), item.deep_view()),
        decreases items.len() - i,
    {
        assert(items.deep_view()[i as int] == items@[i as int].deep_view());
        if items[i].is_alike(item) {
            return true;
        }
        i += 1;
    }
    false
}

/// A value held to categories: itself where it is among them, and else the
/// null value.
pub open spec fn categorized<T: Atom>(item: T::V, categories: Seq<T::V>, null: T::V) -> T::V {
    if holds_alike::<T>(categories, item) {
        item
    } else {
        null
    }
}

/// The data with every item held to the categories of its column: what is not
/// among them becomes the null value of the column. It is refused where the
/// data is a scalar, and where the categories or the null values cannot be
/// standardized to the columns.
pub open spec fn categorized_data<T: Atom>(
    data: NdArrayView<T::V>,
    categories: Seq<Seq<T::V>>,
    null_value: NdArrayView<T::V>,
) -> Result<NdArrayView<T::V>, Error> {
    match num_columns_of(data.shape) {
        Err(e) => Err(e),
        Ok(num_columns) => match standardized_categories(
            crate::base::wrapped(categories),
            num_columns,
        ) {
            Err(e) => Err(e),
            Ok(categories) => match standardized_nulls(null_value.items, num_columns) {
                Err(e) => Err(e),
                Ok(nulls) => Ok(
                    NdArrayView {
                        shape: data.shape,
                        items: Seq::new(
                            data.items.len(),
                            |place: int|
                                categorized::<T>(
                                    data.items[place],
                                    categories[column_at(data.shape, place)],
                                    nulls[column_at(data.shape, place)],
                                ),
                        ),
                    },
                ),
            },
        },
    }
}

fn wrap_categories<T: Atom>(categories: &Vec<Vec<T>>) -> (r: Vec<Option<Vec<T>>>)
    ensures
        r.deep_view() == crate::base::wrapped(categories.deep_view()),
{
    let mut out: Vec<Option<Vec<T>>> = Vec::new();
    let mut i: usize = 0;
    while i < categories.len()
        invariant
            i <= categories.len(),
            out@.len() == i,
            forall|j: int|
                0 <= j < i ==> (#[trigger] out@[j]).deep_view() == Some(categories@[j].deep_view()),
        decreases categories.len() - i,
    {
        out.push(Some(crate::atom::duplicate_items(&categories[i])));
        i += 1;
    }
    assert(out.deep_view() =~= crate::base::wrapped(categories.deep_view()));
    out
}

/// The data with every item held to the categories of its column.
pub fn clamp_categorical<T: Atom>(data: NdArray<T>, categories: Vec<Vec<T>>, null_value: NdArray<T>) -> (r:
    Result<NdArray<T>, Error>)
    ensures
        match r {
            Ok(result) => categorized_data::<T>(data@, categories.deep_view(), null_value@) == Ok::<
                NdArrayView<T::V>,
                Error,
            >(result@),
            Err(e) => categorized_data::<T>(data@, categories.deep_view(), null_value@) == Err::<
                NdArrayView<T::V>,
                Error,
            >(e),
        },
{
    let num_columns = match get_num_columns(&data) {
        Ok(num_columns) => num_columns,
        Err(e) => {
            return Err(e);
        },
    };
    let wrapped = wrap_categories(&categories);
    let by_column = match standardize_categorical_argument(&wrapped, &num_columns) {
        Ok(categories) => categories,
        Err(e) => {
            return Err(e);
        },
    };
    let nulls = match standardize_null_target_argument(&null_value, num_columns) {
        Ok(nulls) => nulls,
        Err(e) => {
            return Err(e);
        },
    };
    proof {
        assert(by_column@.len() == by_column.deep_view().len());
        assert(nulls@.len() == nulls.deep_view().len());
        assert(num_columns == columns(data.dimensions()));
        assert(by_column@.len() == num_columns);
        assert(nulls@.len() == num_columns);
    }
    let operator = |item: &T, column: usize| -> (r: T)
        requires
            column < by_column@.len(),
            column < nulls@.len(),
        ensures
            r.deep_view() == categorized::<T>(
                item.deep_view(),
                by_column@[column as int].deep_view(),
                nulls@[column as int].deep_view(),
            ),
        {
            if contains_alike(&by_column[column], item) {
                item.duplicate()
            } else {
                nulls[column].duplicate()
            }
        };
    let height = data.num_records();
    let result = map_by_column(&data, &operator);
    proof {
        let width = columns(data@.shape);
        let expected = categorized_data::<T>(data@, categories.deep_view(), null_value@)->Ok_0;
        assert forall|place: int| 0 <= place < result@.items.len() implies result@.items[place]
            == expected.items[place] by {
            lemma_place(data@.shape, place);
            let record = place / width;
            let column = column_at(data@.shape, place);
            assert(call_ensures(
                operator,
                (&data.elements()[record * width + column], column as usize),
                result.elements()[record * width + column],
            ));
            assert(by_column.deep_view()[column] == by_column@[column].deep_view());
            assert(nulls.deep_view()[column] == nulls@[column].deep_view());
        }
        assert(result@.items =~= expected.items);
    }
    Ok(result)
}

/// The columns of a jagged matrix, all of which must be known.
pub open spec fn all_columns<T>(columns: Seq<Option<Seq<T>>>) -> Result<Seq<Seq<T>>, Error> {
    if all_known(columns) {
        Ok(unwrapped(columns))
    } else {
        Err(Error::CategoriesUndefined)
    }
}

/// The data held to the categories, as a value of the type of `T`.
pub open spec fn held_to<T: Atom>(
    data: NdArrayView<T::V>,
    categories: Seq<Option<Seq<T::V>>>,
    nulls: NdArrayView<T::V>,
) -> Result<NdArrayView<T::V>, Error> {
    match all_columns(categories) {
        Err(e) => Err(e),
        Ok(categories) => categorized_data::<T>(data, categories, nulls),
    }
}

impl Clamp {
    /// What clamping evaluates to. With categories, the data, the categories
    /// and the null value must be of one type, which is not float, and the
    /// data is held to the categories. Without, the data and the bounds must
    /// all be float or all be integer, and the data is held to the bounds.
    pub open spec fn evaluated(arguments: Map<Seq<char>, ValueView>) -> Result<ValueView, Error> {
        if arguments.contains_key("categories"@) {
            if !arguments.contains_key("data"@) {
                Err(Error::Missing(Argument::Data))
            } else if !arguments.contains_key("null_value"@) {
                Err(Error::Missing(Argument::NullValue))
            } else {
                match (arguments["data"@], arguments["categories"@], arguments["null_value"@]) {
                    (
                        ValueView::Array(data),
                        ValueView::Jagged(categories),
                        ValueView::Array(nulls),
                    ) => match (data, categories, nulls) {
                        (
                            ArrayView::Bool(data),
                            JaggedView::Bool(categories),
                            ArrayView::Bool(nulls),
                        ) => match held_to::<bool>(data, categories, nulls) {
                            Ok(held) => Ok(ValueView::Array(ArrayView::Bool(held))),
                            Err(e) => Err(e),
                        },
                        (ArrayView::F64(_), JaggedView::F64(_), ArrayView::F64(_)) => Err(
                            Error::FloatCategorical,
                        ),
                        (
                            ArrayView::I64(data),
                            JaggedView::I64(categories),
                            ArrayView::I64(nulls),
                        ) => match held_to::<i64>(data, categories, nulls) {
                            Ok(held) => Ok(ValueView::Array(ArrayView::I64(held))),
                            Err(e) => Err(e),
                        },
                        (
                            ArrayView::Str(data),
                            JaggedView::Str(categories),
                            ArrayView::Str(nulls),
                        ) => match held_to::<String>(data, categories, nulls) {
                            Ok(held) => Ok(ValueView::Array(ArrayView::Str(held))),
                            Err(e) => Err(e),
                        },
                        _ => Err(Error::NullValueType),
                    },
                    _ => Err(Error::ValueNotArray),
                }
            }
        } else if !arguments.contains_key("data"@) {
            Err(Error::Missing(Argument::Data))
        } else if !arguments.contains_key("lower"@) {
            Err(Error::Missing(Argument::Lower))
        } else if !arguments.contains_key("upper"@) {
            Err(Error::Missing(Argument::Upper))
        } else {
            match (arguments["data"@], arguments["lower"@], arguments["upper"@]) {
                (ValueView::Array(data), ValueView::Array(lower), ValueView::Array(upper)) => match (
                    data,
                    lower,
                    upper,
                ) {
                    (
                        ArrayView::F64(data),
                        ArrayView::F64(lower),
                        ArrayView::F64(upper),
                    ) => match clamped_data(data, lower, upper) {
                        Ok(held) => Ok(ValueView::Array(ArrayView::F64(held))),
                        Err(e) => Err(e),
                    },
                    (
                        ArrayView::I64(data),
                        ArrayView::I64(lower),
                        ArrayView::I64(upper),
                    ) => match clamped_data(data, lower, upper) {
                        Ok(held) => Ok(ValueView::Array(ArrayView::I64(held))),
                        Err(e) => Err(e),
                    },
                    _ => Err(Error::ClampNotNumeric),
                },
                _ => Err(Error::ValueNotArray),
            }
        }
    }
}

fn take<'a>(arguments: &'a Arguments<Value>, name: &str, argument: Argument) -> (r: Result<
    &'a Value,
    Error,
>)
    ensures
        match r {
            Ok(value) => arguments@.contains_key(name@) && arguments@[name@] == value@,
            Err(e) => !arguments@.contains_key(name@) && e == Error::Missing(argument),
        },
{
    match arguments.get(name) {
        Some(value) => Ok(value),
        None => Err(Error::Missing(argument)),
    }
}

impl Evaluable for Clamp {
    fn evaluate(
        &self,
        _privacy_definition: &Option<PrivacyDefinition>,
        arguments: &Arguments<Value>,
    ) -> (r: Result<ReleaseNode, Error>)
        ensures
            match r {
                Ok(node) => Clamp::evaluated(arguments@) == Ok::<ValueView, Error>(node@.value)
                    && node@.privacy_usages is None && !node@.public,
                Err(e) => Clamp::evaluated(arguments@) == Err::<ValueView, Error>(e),
            },
    {
        let value = if arguments.contains_key("categories") {
            let data = match take(arguments, "data", Argument::Data) {
                Ok(data) => data,
                Err(e) => {
                    return Err(e);
                },
            };
            let categories = match take(arguments, "categories", Argument::Categories) {
                Ok(categories) => categories,
                Err(e) => {
                    return Err(e);
                },
            };
            let nulls = match take(arguments, "null_value", Argument::NullValue) {
                Ok(nulls) => nulls,
                Err(e) => {
                    return Err(e);
                },
            };
            match (data, categories, nulls) {
                (Value::Array(data), Value::Jagged(categories), Value::Array(nulls)) => match (
                    data,
                    categories,
                    nulls,
                ) {
                    (Array::Bool(data), Jagged::Bool(categories), Array::Bool(nulls)) => {
                        let categories = match crate::base::known_columns(categories) {
                            Some(categories) => categories,
                            None => {
                                return Err(Error::CategoriesUndefined);
                            },
                        };
                        match clamp_categorical(data.duplicate(), categories, nulls.duplicate()) {
                            Ok(held) => Value::Array(Array::Bool(held)),
                            Err(e) => {
                                return Err(e);
                            },
                        }
                    },
                    (Array::F64(_), Jagged::F64(_), Array::F64(_)) => {
                        return Err(Error::FloatCategorical);
                    },
                    (Array::I64(data), Jagged::I64(categories), Array::I64(nulls)) => {
                        let categories = match crate::base::known_columns(categories) {
                            Some(categories) => categories,
                            None => {
                                return Err(Error::CategoriesUndefined);
                            },
                        };
                        match clamp_categorical(data.duplicate(), categories, nulls.duplicate()) {
                            Ok(held) => Value::Array(Array::I64(held)),
                            Err(e) => {
                                return Err(e);
                            },
                        }
                    },
                    (Array::Str(data), Jagged::Str(categories), Array::Str(nulls)) => {
                        let categories = match crate::base::known_columns(categories) {
                            Some(categories) => categories,
                            None => {
                                return Err(Error::CategoriesUndefined);
                            },
                        };
                        match clamp_categorical(data.duplicate(), categories, nulls.duplicate()) {
                            Ok(held) => Value::Array(Array::Str(held)),
                            Err(e) => {
                                return Err(e);
                            },
                        }
                    },
                    _ => {
                        return Err(Error::NullValueType);
                    },
                },
                _ => {
                    return Err(Error::ValueNotArray);
                },
            }
        } else {
            let data = match take(arguments, "data", Argument::Data) {
                Ok(data) => data,
                Err(e) => {
                    return Err(e);
                },
            };
            let lower = match take(arguments, "lower", Argument::Lower) {
                Ok(lower) => lower,
                Err(e) => {
                    return Err(e);
                },
            };
            let upper = match take(arguments, "upper", Argument::Upper) {
                Ok(upper) => upper,
                Err(e) => {
                    return Err(e);
                },
            };
            match (data, lower, upper) {
                (Value::Array(data), Value::Array(lower), Value::Array(upper)) => match (
                    data,
                    lower,
                    upper,
                ) {
                    (Array::F64(data), Array::F64(lower), Array::F64(upper)) => {
                        match clamp_numeric(data.duplicate(), lower, upper) {
                            Ok(held) => Value::Array(Array::F64(held)),
                            Err(e) => {
                                return Err(e);
                            },
                        }
                    },
                    (Array::I64(data), Array::I64(lower), Array::I64(upper)) => {
                        match clamp_numeric(data.duplicate(), lower, upper) {
                            Ok(held) => Value::Array(Array::I64(held)),
                            Err(e) => {
                                return Err(e);
                            },
                        }
                    },
                    _ => {
                        return Err(Error::ClampNotNumeric);
                    },
                },
                _ => {
                    return Err(Error::ValueNotArray);
                },
            }
        };
        Ok(ReleaseNode::new(value))
    }
}

} // verus!
