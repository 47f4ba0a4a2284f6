//! Counting: the number of records, or of distinct values in each column.

use crate::array::{column_of, columns, records, NdArray, NdArrayView};
use crate::atom::Atom;
use crate::base::{Arguments, Array, ArrayView, ReleaseNode, Value, ValueView};
use crate::errors::{Argument, Error};
use crate::inference::column_items;
use crate::proto::{Count, PrivacyDefinition};
use crate::runtime::clamp::{contains_alike, holds_alike};
use crate::runtime::Evaluable;
use vstd::prelude::*;

verus! {

/// The number of records of data, as an array without axes. A scalar is no
/// data.
pub open spec fn counted(shape: Seq<usize>) -> Result<NdArrayView<i64>, Error> {
    if shape.len() == 0 {
        Err(Error::Shape)
    } else {
        Ok(NdArrayView { shape: Seq::empty(), items: seq![shape[0] as i64] })
    }
}

/// The number of records of data.
pub fn count<T>(data: &NdArray<T>) -> (r: Result<NdArray<i64>, Error>)
    ensures
        match r {
            Ok(result) => counted(data.dimensions()) == Ok::<NdArrayView<i64>, Error>(result@),
            Err(e) => counted(data.dimensions()) == Err::<NdArrayView<i64>, Error>(e),
        },
{
    let shape = data.shape();
    if shape.len() == 0 {
        return Err(Error::Shape);
    }
    let result = NdArray::scalar(#[verifier::truncate] (shape[0] as i64));
    assert(result@.items =~= seq![shape@[0] as i64]);
    Ok(result)
}

/// The number of values among the items, those that count as the same value
/// counted once.
pub open spec fn distinct<T: Atom>(items: Seq<T::V>) -> nat
    decreases items.len(),
{
    if items.len() == 0 {
        0
    } else if holds_alike::<T>(items.drop_last(), items.last()) {
        distinct::<T>(items.drop_last())
    } else {
        distinct::<T>(items.drop_last()) + 1
    }
}

/// No more values are distinct than there are items.
pub proof fn lemma_distinct_is_bounded<T: Atom>(items: Seq<T::V>)
    ensures
        distinct::<T>(items) <= items.len(),
    decreases items.len(),
{
    if items.len() > 0 {
        lemma_distinct_is_bounded::<T>(items.drop_last());
    }
}

fn count_values<T: Atom>(items: &Vec<T>) -> (r: usize)
    ensures
        r == distinct::<T>(items.deep_view()),
{
    let mut seen: Vec<T> = Vec::new();
    let mut total: usize = 0;
    let mut i: usize = 0;
    assert(items.deep_view().take(0) =~= Seq::<T::V>::empty());
    while i < items.len()
        invariant
            i <= items.len(),
            seen.deep_view() == items.deep_view().take(i as int),
            total == distinct::<T>(items.deep_view().take(i as int)),
            total <= i,
        decreases items.len() - i,
    {
        let ghost before = items.deep_view().take(i as int);
        let ghost next = items.deep_view().take(i + 1);
        proof {
            assert(next.drop_last() =~= before);
            assert(next.last() == items@[i as int].deep_view());
        }
        if !contains_alike(&seen, &items[i]) {
            total += 1;
        }
        let ghost so_far = seen.deep_view();
        seen.push(items[i].duplicate());
        proof {
            assert(seen.deep_view() =~= so_far.push(items@[i as int].deep_view()));
            assert(seen.deep_view() =~= next);
        }
        i += 1;
    }
    assert(items.deep_view().take(i as int) =~= items.deep_view());
    total
}

/// The number of distinct values in each column: as an array without axes for
/// data of one axis, and as one record for data of two. A scalar is no data.
pub open spec fn distinct_counted<T: Atom>(data: NdArrayView<T::V>) -> Result<
    NdArrayView<i64>,
    Error,
> {
    if data.shape.len() == 0 {
        Err(Error::Shape)
    } else {
        Ok(
            NdArrayView {
                shape: if data.shape.len() == 1 {
                    Seq::empty()
                } else {
                    seq![1usize, data.shape[1]]
                },
                items: Seq::new(
                    columns(data.shape) as nat,
                    |column: int| distinct::<T>(column_of(data.shape, data.items, column)) as i64,
                ),
            },
        )
    }
}

/// The number of distinct values in each column.
pub fn count_distinct<T: Atom>(data: &NdArray<T>) -> (r: Result<NdArray<i64>, Error>)
    ensures
        match r {
            Ok(result) => distinct_counted::<T>(data@) == Ok::<NdArrayView<i64>, Error>(result@),
            Err(e) => distinct_counted::<T>(data@) == Err::<NdArrayView<i64>, Error>(e),
        },
{
    if data.ndim() == 0 {
        return Err(Error::Shape);
    }
    let width = data.num_columns();
    let mut counts: Vec<i64> = Vec::new();
    let mut column: usize = 0;
    while column < width
        invariant
            width == columns(data@.shape),
            column <= width,
            counts@.len() == column,
            forall|j: int|
                0 <= j < column ==> #[trigger] counts@[j] == distinct::<T>(
                    column_of(data@.shape, data@.items, j),
                ) as i64,
        decreases width - column,
    {
        let items = column_items(data, column);
        let total = count_values(&items);
        counts.push(#[verifier::truncate] (total as i64));
        column += 1;
    }
    let result = if data.ndim() == 1 {
        assert(counts@.len() == 1);
        let mut counts = counts;
        let only = counts.pop().unwrap();
        let result = NdArray::scalar(only);
        assert(result@.items =~= distinct_counted::<T>(data@)->Ok_0.items);
        result
    } else {
        let result = NdArray::row(counts);
        assert(result@.items =~= distinct_counted::<T>(data@)->Ok_0.items);
        result
    };
    Ok(result)
}

impl Count {
    /// What counting evaluates to: the number of distinct values in each
    /// column of an array, or the number of its records.
    pub open spec fn evaluated(self, arguments: Map<Seq<char>, ValueView>) -> Result<
        ValueView,
        Error,
    > {
        if !arguments.contains_key("data"@) {
            Err(Error::Missing(Argument::Data))
        } else {
            match arguments["data"@] {
                ValueView::Array(array) => {
                    let result = if self.distinct {
                        match array {
                            ArrayView::Bool(data) => distinct_counted::<bool>(data),
                            ArrayView::F64(data) => distinct_counted::<crate::float::Float>(data),
                            ArrayView::I64(data) => distinct_counted::<i64>(data),
                            ArrayView::Str(data) => distinct_counted::<String>(data),
                        }
                    } else {
                        counted(array.shape())
                    };
                    match result {
                        Ok(counts) => Ok(ValueView::Array(ArrayView::I64(counts))),
                        Err(e) => Err(e),
                    }
                },
                _ => Err(Error::ValueNotArray),
            }
        }
    }
}

impl Evaluable for Count {
    fn evaluate(
        &self,
        _privacy_definition: &Option<PrivacyDefinition>,
        arguments: &Arguments<Value>,
    ) -> (r: Result<ReleaseNode, Error>)
        ensures
            match r {
                Ok(node) => self.evaluated(arguments@) == Ok::<ValueView, Error>(node@.value)
                    && node@.privacy_usages is None && !node@.public,
                Err(e) => self.evaluated(arguments@) == Err::<ValueView, Error>(e),
            },
    {
        let data = match arguments.get("data") {
            Some(data) => data,
            None => {
                return Err(Error::Missing(Argument::Data));
            },
        };
        let array = match data.array() {
            Ok(array) => array,
            Err(e) => {
                return Err(e);
            },
        };
        let counts = if self.distinct {
            match array {
                Array::Bool(data) => count_distinct(data),
                Array::F64(data) => count_distinct(data),
                Array::I64(data) => count_distinct(data),
                Array::Str(data) => count_distinct(data),
            }
        } else {
            match array {
                Array::Bool(data) => count(data),
                Array::F64(data) => count(data),
                Array::I64(data) => count(data),
                Array::Str(data) => count(data),
            }
        };
        match counts {
            Ok(counts) => Ok(ReleaseNode::new(Value::Array(Array::I64(counts)))),
            Err(e) => Err(e),
        }
    }
}

} // verus!
