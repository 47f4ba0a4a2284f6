//! The properties that a value given with an analysis has.

use crate::array::{column_of, columns, records, NdArray, NdArrayView};
use crate::atom::Atom;
use crate::base::{
    repeat, repeated, Array, ArrayProperties, ArrayPropertiesView, ArrayView, DataType, Hashmap,
    HashmapProperties, HashmapPropertiesView, HashmapView, Jagged, JaggedProperties, JaggedView,
    Nature, NatureCategorical, NatureContinuous, NatureView, Value, ValueProperties,
    ValuePropertiesView, ValueView, Vector1DNullView,
};
use crate::components::bounds::Numeric;
use crate::errors::{Bound, Error};
use crate::float::{Float, ONE_BITS};
use crate::utilities::{deduplicate, first_occurrences};
use vstd::prelude::*;

verus! {

/// The smallest of the items, where `which` is the lower bound, and the
/// largest, where it is the upper.
pub open spec fn extreme<T: Numeric>(which: Bound, items: Seq<T>) -> T
    decreases items.len(),
{
    if items.len() <= 1 {
        items[0]
    } else if which == Bound::Lower {
        extreme(which, items.drop_last()).smaller(items.last())
    } else {
        extreme(which, items.drop_last()).larger(items.last())
    }
}

/// Whether one of the items is no number.
pub open spec fn any_undefined<T: Numeric>(items: Seq<T>) -> bool {
    exists|i: int| 0 <= i < items.len() && (#[trigger] items[i]).undefined()
}

/// The bound that the items of a column show: their extreme, where there are
/// items and all of them are numbers.
pub open spec fn shown_bound<T: Numeric>(which: Bound, items: Seq<T>) -> Option<T> {
    if items.len() == 0 || any_undefined(items) {
        None
    } else {
        Some(extreme(which, items))
    }
}

/// The bounds that the columns of an array show.
pub open spec fn shown_bounds<T: Numeric>(which: Bound, array: NdArrayView<T>) -> Seq<Option<T>> {
    Seq::new(
        columns(array.shape) as nat,
        |column: int| shown_bound(which, column_of(array.shape, array.items, column)),
    )
}

/// The categories that the columns of an array show: the items of each
/// column, without repetitions.
pub open spec fn shown_categories<T>(array: NdArrayView<T>) -> Seq<Option<Seq<T>>> {
    Seq::new(
        columns(array.shape) as nat,
        |column: int| Some(first_occurrences(column_of(array.shape, array.items, column))),
    )
}

/// The nature that an array shows: numbers their bounds, booleans and strings
/// their categories.
pub open spec fn shown_nature(array: ArrayView) -> NatureView {
    match array {
        ArrayView::F64(a) => NatureView::Continuous {
            lower: Vector1DNullView::F64(shown_bounds(Bound::Lower, a)),
            upper: Vector1DNullView::F64(shown_bounds(Bound::Upper, a)),
        },
        ArrayView::I64(a) => NatureView::Continuous {
            lower: Vector1DNullView::I64(shown_bounds(Bound::Lower, a)),
            upper: Vector1DNullView::I64(shown_bounds(Bound::Upper, a)),
        },
        ArrayView::Bool(a) => NatureView::Categorical {
            categories: JaggedView::Bool(shown_categories(a)),
        },
        ArrayView::Str(a) => NatureView::Categorical { categories: JaggedView::Str(shown_categories(a)) },
    }
}

/// Whether an array holds a null: a float that is no number.
pub open spec fn shows_null(array: ArrayView) -> bool {
    match array {
        ArrayView::F64(a) => any_undefined(a.items),
        _ => false,
    }
}

/// The properties of a given array: its shape, type, nature and nulls are
/// what it shows; it is releasable, of stability 1 in every column, and the
/// result of no aggregation.
pub open spec fn inferred_array(array: ArrayView, dataset_id: Option<i64>) -> ArrayPropertiesView {
    ArrayPropertiesView {
        num_records: Some(records(array.shape()) as i64),
        num_columns: Some(columns(array.shape()) as i64),
        nullity: shows_null(array),
        releasable: true,
        c_stability: repeated(Float { bits: ONE_BITS }, (columns(array.shape()) as i64) as int),
        aggregator: None,
        nature: Some(shown_nature(array)),
        data_type: array.data_type(),
        dataset_id,
        is_not_empty: records(array.shape()) != 0,
        dimensionality: array.shape().len() as u32,
    }
}

pub(crate) fn column_items<T: Atom>(array: &NdArray<T>, column: usize) -> (r: Vec<T>)
    requires
        column < columns(array@.shape),
    ensures
        r.deep_view() == column_of(array@.shape, array@.items, column as int),
{
    let height = array.num_records();
    let mut out: Vec<T> = Vec::new();
    let mut record: usize = 0;
    while record < height
        invariant
            height == records(array.dimensions()),
            column < columns(array.dimensions()),
            record <= height,
            out@.len() == record,
            forall|i: int|
                0 <= i < record ==> (#[trigger] out@[i]).deep_view() == column_of(
                    array@.shape,
                    array@.items,
                    column as int,
                )[i],
        decreases height - record,
    {
        let item = array.item(record, column);
        out.push(item.duplicate());
        record += 1;
    }
    assert(out.deep_view() =~= column_of(array@.shape, array@.items, column as int));
    out
}

fn any_is_undefined<T: Numeric>(items: &Vec<T>) -> (r: bool)
    ensures
        r == any_undefined(items@),
{
    let mut i: usize = 0;
    while i < items.len()
        invariant
            i <= items.len(),
            forall|j: int| 0 <= j < i ==> !(#[trigger] items@[j]).undefined(),
        decreases items.len() - i,
    {
        if items[i].is_undefined() {
            return true;
        }
        i += 1;
    }
    false
}

fn column_bound<T: Numeric>(which: Bound, items: &Vec<T>) -> (r: Option<T>)
    ensures
        r == shown_bound(which, items@),
{
    if items.len() == 0 || any_is_undefined(items) {
        return None;
    }
    let mut best = items[0];
    let mut i: usize = 1;
    assert(items@.take(1) =~= seq![items@[0]]);
    while i < items.len()
        invariant
            1 <= i <= items.len(),
            best == extreme(which, items@.take(i as int)),
        decreases items.len() - i,
    {
        best = match which {
            Bound::Lower => best.take_smaller(items[i]),
            Bound::Upper => best.take_larger(items[i]),
        };
        assert(items@.take(i + 1).drop_last() =~= items@.take(i as int));
        i += 1;
    }
    assert(items@.take(i as int) =~= items@);
    Some(best)
}

fn array_bounds<T: Numeric>(which: Bound, array: &NdArray<T>) -> (r: Vec<Option<T>>)
    ensures
        r@ == shown_bounds(which, array@),
{
    let width = array.num_columns();
    let mut out: Vec<Option<T>> = Vec::new();
    let mut column: usize = 0;
    while column < width
        invariant
            width == columns(array@.shape),
            column <= width,
            out@.len() == column,
            forall|j: int| 0 <= j < column ==> #[trigger] out@[j] == shown_bounds(which, array@)[j],
        decreases width - column,
    {
        let items = column_items(array, column);
        proof {
            assert forall|i: int| 0 <= i < items@.len() implies items@[i] == items.deep_view()[i] by {
                items@[i].lemma_view();
            }
            assert(items@ =~= items.deep_view());
        }
        out.push(column_bound(which, &items));
        column += 1;
    }
    assert(out@ =~= shown_bounds(which, array@));
    out
}

fn array_categories<T: Atom + Eq + core::hash::Hash + Clone>(array: &NdArray<T>) -> (r: Vec<
    Option<Vec<T>>,
>)
    ensures
        r.deep_view() == shown_categories(array@),
{
    let width = array.num_columns();
    let mut out: Vec<Option<Vec<T>>> = Vec::new();
    let mut column: usize = 0;
    while column < width
        invariant
            width == columns(array@.shape),
            column <= width,
            out@.len() == column,
            forall|j: int|
                0 <= j < column ==> (#[trigger] out@[j]).deep_view() == shown_categories(array@)[j],
        decreases width - column,
    {
        let items = column_items(array, column);
        out.push(Some(deduplicate(items)));
        column += 1;
    }
    assert(out.deep_view() =~= shown_categories(array@));
    out
}

/// The properties of a given array.
pub fn infer_array(array: &Array, dataset_id: Option<i64>) -> (r: ArrayProperties)
    ensures
        r@ == inferred_array(array@, dataset_id),
{
    let (height, width, nullity, nature) = match array {
        Array::F64(a) => {
            assert(a@.items =~= a.elements());
            (
                a.num_records(),
                a.num_columns(),
                any_is_undefined(a.items()),
                Nature::Continuous(
                    NatureContinuous {
                        lower: Float::bounds(array_bounds(Bound::Lower, a)),
                        upper: Float::bounds(array_bounds(Bound::Upper, a)),
                    },
                ),
            )
        },
        Array::I64(a) => (
            a.num_records(),
            a.num_columns(),
            false,
            Nature::Continuous(
                NatureContinuous {
                    lower: i64::bounds(array_bounds(Bound::Lower, a)),
                    upper: i64::bounds(array_bounds(Bound::Upper, a)),
                },
            ),
        ),
        Array::Bool(a) => (
            a.num_records(),
            a.num_columns(),
            false,
            Nature::Categorical(NatureCategorical { categories: Jagged::Bool(array_categories(a)) }),
        ),
        Array::Str(a) => (
            a.num_records(),
            a.num_columns(),
            false,
            Nature::Categorical(NatureCategorical { categories: Jagged::Str(array_categories(a)) }),
        ),
    };
    let shape = array.shape();
    let num_columns = #[verifier::truncate] (width as i64);
    ArrayProperties {
        num_records: Some(#[verifier::truncate] (height as i64)),
        num_columns: Some(num_columns),
        nullity,
        releasable: true,
        c_stability: repeat(Float::one(), num_columns),
        aggregator: None,
        nature: Some(nature),
        data_type: array.data_type(),
        dataset_id,
        is_not_empty: height != 0,
        dimensionality: shape.len() as u32,
    }
}

/// The properties of a given value. A jagged matrix is releasable. Of a map,
/// each value has its own properties, and the number of records over all of
/// them is not known.
pub open spec fn inferred(value: ValueView, dataset_id: Option<i64>) -> ValuePropertiesView
    decreases value,
{
    match value {
        ValueView::Array(array) => ValuePropertiesView::Array(inferred_array(array, dataset_id)),
        ValueView::Jagged(_) => ValuePropertiesView::Jagged(JaggedProperties { releasable: true }),
        ValueView::Hashmap(hashmap) => ValuePropertiesView::Hashmap(
            HashmapPropertiesView {
                num_records: None,
                disjoint: false,
                properties: match hashmap {
                    HashmapView::Bool(entries) => HashmapView::Bool(
                        Seq::new(
                            entries.len(),
                            |i: int|
                                if 0 <= i < entries.len() {
                                    (entries[i].0, inferred(entries[i].1, dataset_id))
                                } else {
                                    arbitrary()
                                },
                        ),
                    ),
                    HashmapView::I64(entries) => HashmapView::I64(
                        Seq::new(
                            entries.len(),
                            |i: int|
                                if 0 <= i < entries.len() {
                                    (entries[i].0, inferred(entries[i].1, dataset_id))
                                } else {
                                    arbitrary()
                                },
                        ),
                    ),
                    HashmapView::Str(entries) => HashmapView::Str(
                        Seq::new(
                            entries.len(),
                            |i: int|
                                if 0 <= i < entries.len() {
                                    (entries[i].0, inferred(entries[i].1, dataset_id))
                                } else {
                                    arbitrary()
                                },
                        ),
                    ),
                },
                columnar: true,
            },
        ),
    }
}

/// The properties of a given value.
pub fn infer_property(value: &Value, dataset_id: Option<i64>) -> (r: Result<ValueProperties, Error>)
    ensures
        r matches Ok(properties) && properties@ == inferred(value@, dataset_id),
    decreases value,
{
    match value {
        Value::Array(array) => Ok(ValueProperties::Array(infer_array(array, dataset_id))),
        Value::Jagged(_) => Ok(ValueProperties::Jagged(JaggedProperties { releasable: true })),
        Value::Hashmap(hashmap) => {
            proof {
                assert(decreases_to!(*value => value->Hashmap_0));
            }
            let properties = match hashmap {
                Hashmap::Bool(entries) => {
                    proof {
                        assert(decreases_to!(*hashmap => hashmap->Bool_0));
                    }
                    let mut out: Vec<(bool, ValueProperties)> = Vec::new();
                    let mut i: usize = 0;
                    while i < entries.len()
                        invariant
                            decreases_to!(*value => *entries),
                            i <= entries.len(),
                            out@.len() == i,
                            forall|j: int|
                                0 <= j < i ==> (#[trigger] out@[j]).0 == entries@[j].0 && out@[j].1@
                                    == inferred(entries@[j].1@, dataset_id),
                        decreases entries.len() - i,
                    {
                        proof {
                            assert(decreases_to!(*entries => entries@[i as int]));
                            assert(decreases_to!(entries@[i as int] => entries@[i as int].1));
                        }
                        let inner = match infer_property(&entries[i].1, dataset_id) {
                            Ok(inner) => inner,
                            Err(e) => {
                                return Err(e);
                            },
                        };
                        out.push((entries[i].0, inner));
                        i += 1;
                    }
                    Hashmap::Bool(out)
                },
                Hashmap::I64(entries) => {
                    proof {
                        assert(decreases_to!(*hashmap => hashmap->I64_0));
                    }
                    let mut out: Vec<(i64, ValueProperties)> = Vec::new();
                    let mut i: usize = 0;
                    while i < entries.len()
                        invariant
                            decreases_to!(*value => *entries),
                            i <= entries.len(),
                            out@.len() == i,
                            forall|j: int|
                                0 <= j < i ==> (#[trigger] out@[j]).0 == entries@[j].0 && out@[j].1@
                                    == inferred(entries@[j].1@, dataset_id),
                        decreases entries.len() - i,
                    {
                        proof {
                            assert(decreases_to!(*entries => entries@[i as int]));
                            assert(decreases_to!(entries@[i as int] => entries@[i as int].1));
                        }
                        let inner = match infer_property(&entries[i].1, dataset_id) {
                            Ok(inner) => inner,
                            Err(e) => {
                                return Err(e);
                            },
                        };
                        out.push((entries[i].0, inner));
                        i += 1;
                    }
                    Hashmap::I64(out)
                },
                Hashmap::Str(entries) => {
                    proof {
                        assert(decreases_to!(*hashmap => hashmap->Str_0));
                    }
                    let mut out: Vec<(String, ValueProperties)> = Vec::new();
                    let mut i: usize = 0;
                    while i < entries.len()
                        invariant
                            decreases_to!(*value => *entries),
                            i <= entries.len(),
                            out@.len() == i,
                            forall|j: int|
                                0 <= j < i ==> (#[trigger] out@[j]).0@ == entries@[j].0@ && out@[j].1@
                                    == inferred(entries@[j].1@, dataset_id),
                        decreases entries.len() - i,
                    {
                        proof {
                            assert(decreases_to!(*entries => entries@[i as int]));
                            assert(decreases_to!(entries@[i as int] => entries@[i as int].1));
                        }
                        let inner = match infer_property(&entries[i].1, dataset_id) {
                            Ok(inner) => inner,
                            Err(e) => {
                                return Err(e);
                            },
                        };
                        out.push((entries[i].0.clone(), inner));
                        i += 1;
                    }
                    Hashmap::Str(out)
                },
            };
            let r = ValueProperties::Hashmap(
                HashmapProperties { num_records: None, disjoint: false, properties, columnar: true },
            );
            proof {
                match hashmap {
                    Hashmap::Bool(_) => {
                        assert(r@->Hashmap_0.properties->Bool_0 =~= inferred(
                            value@,
                            dataset_id,
                        )->Hashmap_0.properties->Bool_0);
                    },
                    Hashmap::I64(_) => {
                        assert(r@->Hashmap_0.properties->I64_0 =~= inferred(
                            value@,
                            dataset_id,
                        )->Hashmap_0.properties->I64_0);
                    },
                    Hashmap::Str(_) => {
                        assert(r@->Hashmap_0.properties->Str_0 =~= inferred(
                            value@,
                            dataset_id,
                        )->Hashmap_0.properties->Str_0);
                    },
                }
            }
            Ok(r)
        },
    }
}

} // verus!
