//! The data model: values, and the properties derived of them.

use crate::array::{NdArray, NdArrayView};
use crate::atom::{duplicate_columns, duplicate_items, duplicate_options, Atom};
use crate::utilities::{deduplicate, standardize_categorical_argument};
use crate::errors::{Bound, Error};
use crate::float::{computes, total, Float, Operation};
use crate::index::{index_clone, index_get, index_insert, index_new, slots};
use crate::proto::{PrivacyUsage, Variant, VariantView};
use crate::utilities::reversed;
use indexmap::IndexMap;
use vstd::prelude::*;

verus! {

/// The atomic types of arrays and jagged matrices.
#[derive(Clone, Copy, Debug, PartialEq, Eq, Structural)]
pub enum DataType {
    Bool,
    Str,
    F64,
    I64,
}

/// An array of one atomic type.
#[derive(Debug, PartialEq, Eq)]
pub enum Array {
    Bool(NdArray<bool>),
    I64(NdArray<i64>),
    F64(NdArray<Float>),
    Str(NdArray<String>),
}

/// What an [`Array`] holds.
pub ghost enum ArrayView {
    Bool(NdArrayView<bool>),
    I64(NdArrayView<i64>),
    F64(NdArrayView<Float>),
    Str(NdArrayView<Seq<char>>),
}

impl View for Array {
    type V = ArrayView;

    open spec fn view(&self) -> ArrayView {
        match self {
            Array::Bool(a) => ArrayView::Bool(a@),
            Array::I64(a) => ArrayView::I64(a@),
            Array::F64(a) => ArrayView::F64(a@),
            Array::Str(a) => ArrayView::Str(a@),
        }
    }
}

impl DeepView for Array {
    type V = ArrayView;

    open spec fn deep_view(&self) -> ArrayView {
        self@
    }
}

/// `count` times the same item; none where `count` is negative.
pub open spec fn repeated<T>(item: T, count: int) -> Seq<T> {
    Seq::new(
        if count < 0 {
            0nat
        } else {
            count as nat
        },
        |i: int| item,
    )
}

impl ArrayView {
    /// The atomic type of the items.
    pub open spec fn data_type(self) -> DataType {
        match self {
            ArrayView::Bool(_) => DataType::Bool,
            ArrayView::I64(_) => DataType::I64,
            ArrayView::F64(_) => DataType::F64,
            ArrayView::Str(_) => DataType::Str,
        }
    }

    /// The length of each axis.
    pub open spec fn shape(self) -> Seq<usize> {
        match self {
            ArrayView::Bool(a) => a.shape,
            ArrayView::I64(a) => a.shape,
            ArrayView::F64(a) => a.shape,
            ArrayView::Str(a) => a.shape,
        }
    }

    /// The number of items.
    pub open spec fn len(self) -> nat {
        match self {
            ArrayView::Bool(a) => a.items.len(),
            ArrayView::I64(a) => a.items.len(),
            ArrayView::F64(a) => a.items.len(),
            ArrayView::Str(a) => a.items.len(),
        }
    }

    /// The number of records: the length of the first axis, and 1 without one.
    pub open spec fn num_records(self) -> int {
        if self.shape().len() == 0 {
            1
        } else {
            self.shape()[0] as int
        }
    }

    /// The number of columns: the length of the second axis, and 1 without one.
    pub open spec fn num_columns(self) -> int {
        if self.shape().len() < 2 {
            1
        } else {
            self.shape()[1] as int
        }
    }

    /// The only item as an integer, a boolean counting as 0 or 1.
    pub open spec fn first_i64(self) -> Result<i64, Error> {
        match self {
            ArrayView::Bool(a) => if a.items.len() != 1 {
                Err(Error::NotScalar)
            } else {
                Ok(
                    if a.items[0] {
                        1i64
                    } else {
                        0i64
                    },
                )
            },
            ArrayView::I64(a) => if a.items.len() != 1 {
                Err(Error::NotScalar)
            } else {
                Ok(a.items[0])
            },
            _ => Err(Error::NotNumeric),
        }
    }

    /// The only item of an array of strings.
    pub open spec fn first_string(self) -> Result<Seq<char>, Error> {
        match self {
            ArrayView::Str(a) => if a.items.len() != 1 {
                Err(Error::NotScalar)
            } else {
                Ok(a.items[0])
            },
            _ => Err(Error::NotString),
        }
    }

    /// The only item of an array of booleans.
    pub open spec fn first_bool(self) -> Result<bool, Error> {
        match self {
            ArrayView::Bool(a) => if a.items.len() != 1 {
                Err(Error::NotScalar)
            } else {
                Ok(a.items[0])
            },
            _ => Err(Error::NotBool),
        }
    }

    /// An array of integers as a vector: its items where it has one axis, and
    /// its only item as often as asked where it has none.
    pub open spec fn vec_i64(self, optional_length: Option<i64>) -> Result<Seq<i64>, Error> {
        match self {
            ArrayView::I64(a) => if a.shape.len() == 0 && a.items.len() > 0 && optional_length is Some {
                Ok(repeated(a.items[0], optional_length->0 as int))
            } else if a.shape.len() == 1 {
                Ok(a.items)
            } else {
                Err(Error::VectorCast(DataType::I64))
            },
            _ => Err(Error::AtomicType { expected: DataType::I64, actual: self.data_type() }),
        }
    }

    /// An array of floats as a vector: its items where it has one axis, and
    /// its only item as often as asked where it has none.
    pub open spec fn vec_f64(self, optional_length: Option<i64>) -> Result<Seq<Float>, Error> {
        match self {
            ArrayView::F64(a) => if a.shape.len() == 0 && a.items.len() > 0 && optional_length is Some {
                Ok(repeated(a.items[0], optional_length->0 as int))
            } else if a.shape.len() == 1 {
                Ok(a.items)
            } else {
                Err(Error::VectorCast(DataType::F64))
            },
            _ => Err(Error::AtomicType { expected: DataType::F64, actual: self.data_type() }),
        }
    }
}

/// The vector that holds `item` `count` times, and nothing where `count` is
/// negative.
pub fn repeat<T: Copy>(item: T, count: i64) -> (r: Vec<T>)
    ensures
        r@ == repeated(item, count as int),
{
    let mut out: Vec<T> = Vec::new();
    let mut i: i64 = 0;
    while i < count
        invariant
            0 <= i,
            i <= count || (count < 0 && i == 0),
            out@.len() == i,
            forall|j: int| 0 <= j < i ==> out@[j] == item,
        decreases count - i,
    {
        out.push(item);
        i += 1;
    }
    assert(out@ =~= repeated(item, count as int));
    out
}

impl Array {
    /// The atomic type of the items.
    pub fn data_type(&self) -> (r: DataType)
        ensures
            r == self@.data_type(),
    {
        match self {
            Array::Bool(_) => DataType::Bool,
            Array::I64(_) => DataType::I64,
            Array::F64(_) => DataType::F64,
            Array::Str(_) => DataType::Str,
        }
    }

    /// The array of floats, where it is one.
    pub fn float(&self) -> (r: Result<&NdArray<Float>, Error>)
        ensures
            match r {
                Ok(array) => self@ == ArrayView::F64(array@),
                Err(e) => self@ !is F64 && e == (Error::AtomicType {
                    expected: DataType::F64,
                    actual: self@.data_type(),
                }),
            },
    {
        match self {
            Array::F64(x) => Ok(x),
            Array::I64(_) => Err(Error::AtomicType { expected: DataType::F64, actual: DataType::I64 }),
            Array::Bool(_) => Err(Error::AtomicType { expected: DataType::F64, actual: DataType::Bool }),
            Array::Str(_) => Err(Error::AtomicType { expected: DataType::F64, actual: DataType::Str }),
        }
    }

    /// The only item as a float. A boolean counts as 0 or 1; an integer is
    /// cut to its lowest 32 bits and converted by `arithmetic`.
    pub fn first_f64<A: Fn(Operation) -> Float>(&self, arithmetic: &A) -> (r: Result<Float, Error>)
        requires
            total(*arithmetic),
        ensures
            match self@ {
                ArrayView::Bool(a) => if a.items.len() != 1 {
                    r == Err::<Float, Error>(Error::NotScalar)
                } else {
                    r == Ok::<Float, Error>(
                        if a.items[0] {
                            Float { bits: crate::float::ONE_BITS }
                        } else {
                            Float { bits: 0 }
                        },
                    )
                },
                ArrayView::I64(a) => if a.items.len() != 1 {
                    r == Err::<Float, Error>(Error::NotScalar)
                } else {
                    r matches Ok(v) && computes(
                        *arithmetic,
                        Operation::FromInteger((a.items[0] as i32) as i64),
                        v,
                    )
                },
                ArrayView::F64(a) => if a.items.len() != 1 {
                    r == Err::<Float, Error>(Error::NotScalar)
                } else {
                    r == Ok::<Float, Error>(a.items[0])
                },
                ArrayView::Str(_) => r == Err::<Float, Error>(Error::NotNumeric),
            },
    {
        match self {
            Array::Bool(x) => {
                if x.len() != 1 {
                    return Err(Error::NotScalar);
                }
                Ok(
                    if x.items()[0] {
                        Float::one()
                    } else {
                        Float::zero()
                    },
                )
            },
            Array::I64(x) => {
                if x.len() != 1 {
                    return Err(Error::NotScalar);
                }
                let cut: i32 = #[verifier::truncate]
                (x.items()[0] as i32);
                Ok(arithmetic(Operation::FromInteger(cut as i64)))
            },
            Array::F64(x) => {
                if x.len() != 1 {
                    return Err(Error::NotScalar);
                }
                Ok(x.items()[0])
            },
            _ => Err(Error::NotNumeric),
        }
    }

    /// The array as a vector of floats.
    pub fn vec_f64(&self, optional_length: Option<i64>) -> (r: Result<Vec<Float>, Error>)
        ensures
            match r {
                Ok(v) => self@.vec_f64(optional_length) == Ok::<Seq<Float>, Error>(v@),
                Err(e) => self@.vec_f64(optional_length) == Err::<Seq<Float>, Error>(e),
            },
    {
        let data = match self.float() {
            Ok(data) => data,
            Err(e) => {
                return Err(e);
            },
        };
        if data.ndim() == 0 {
            match (optional_length, data.first()) {
                (Some(length), Some(v)) => Ok(repeat(*v, length)),
                _ => Err(Error::VectorCast(DataType::F64)),
            }
        } else if data.ndim() == 1 {
            let items = data.items().clone();
            assert(items@ =~= self@->F64_0.items);
            Ok(items)
        } else {
            Err(Error::VectorCast(DataType::F64))
        }
    }

    /// The array of integers, where it is one.
    pub fn i64(&self) -> (r: Result<&NdArray<i64>, Error>)
        ensures
            match r {
                Ok(array) => self@ == ArrayView::I64(array@),
                Err(e) => self@ !is I64 && e == (Error::AtomicType {
                    expected: DataType::I64,
                    actual: self@.data_type(),
                }),
            },
    {
        match self {
            Array::I64(x) => Ok(x),
            Array::F64(_) => Err(Error::AtomicType { expected: DataType::I64, actual: DataType::F64 }),
            Array::Bool(_) => Err(Error::AtomicType { expected: DataType::I64, actual: DataType::Bool }),
            Array::Str(_) => Err(Error::AtomicType { expected: DataType::I64, actual: DataType::Str }),
        }
    }

    /// The only item as an integer, a boolean counting as 0 or 1.
    pub fn first_i64(&self) -> (r: Result<i64, Error>)
        ensures
            r == self@.first_i64(),
    {
        match self {
            Array::Bool(x) => {
                if x.len() != 1 {
                    return Err(Error::NotScalar);
                }
                Ok(
                    if x.items()[0] {
                        1
                    } else {
                        0
                    },
                )
            },
            Array::I64(x) => {
                if x.len() != 1 {
                    return Err(Error::NotScalar);
                }
                Ok(x.items()[0])
            },
            _ => Err(Error::NotNumeric),
        }
    }

    /// The array as a vector of integers.
    pub fn vec_i64(&self, optional_length: Option<i64>) -> (r: Result<Vec<i64>, Error>)
        ensures
            match r {
                Ok(v) => self@.vec_i64(optional_length) == Ok::<Seq<i64>, Error>(v@),
                Err(e) => self@.vec_i64(optional_length) == Err::<Seq<i64>, Error>(e),
            },
    {
        let data = match self.i64() {
            Ok(data) => data,
            Err(e) => {
                return Err(e);
            },
        };
        if data.ndim() == 0 {
            match (optional_length, data.first()) {
                (Some(length), Some(v)) => Ok(repeat(*v, length)),
                _ => Err(Error::VectorCast(DataType::I64)),
            }
        } else if data.ndim() == 1 {
            let items = data.items().clone();
            assert(items@ =~= self@->I64_0.items);
            Ok(items)
        } else {
            Err(Error::VectorCast(DataType::I64))
        }
    }

    /// The array of strings, where it is one.
    pub fn string(&self) -> (r: Result<&NdArray<String>, Error>)
        ensures
            match r {
                Ok(array) => self@ == ArrayView::Str(array@),
                Err(e) => self@ !is Str && e == (Error::AtomicType {
                    expected: DataType::Str,
                    actual: self@.data_type(),
                }),
            },
    {
        match self {
            Array::Str(x) => Ok(x),
            Array::I64(_) => Err(Error::AtomicType { expected: DataType::Str, actual: DataType::I64 }),
            Array::Bool(_) => Err(Error::AtomicType { expected: DataType::Str, actual: DataType::Bool }),
            Array::F64(_) => Err(Error::AtomicType { expected: DataType::Str, actual: DataType::F64 }),
        }
    }

    /// The only item of an array of strings.
    pub fn first_string(&self) -> (r: Result<String, Error>)
        ensures
            match r {
                Ok(s) => self@.first_string() == Ok::<Seq<char>, Error>(s@),
                Err(e) => self@.first_string() == Err::<Seq<char>, Error>(e),
            },
    {
        match self {
            Array::Str(x) => {
                if x.len() != 1 {
                    return Err(Error::NotScalar);
                }
                Ok(x.items()[0].clone())
            },
            _ => Err(Error::NotString),
        }
    }

    /// The array of booleans, where it is one.
    pub fn bool(&self) -> (r: Result<&NdArray<bool>, Error>)
        ensures
            match r {
                Ok(array) => self@ == ArrayView::Bool(array@),
                Err(e) => self@ !is Bool && e == (Error::AtomicType {
                    expected: DataType::Bool,
                    actual: self@.data_type(),
                }),
            },
    {
        match self {
            Array::Bool(x) => Ok(x),
            Array::I64(_) => Err(Error::AtomicType { expected: DataType::Bool, actual: DataType::I64 }),
            Array::Str(_) => Err(Error::AtomicType { expected: DataType::Bool, actual: DataType::Str }),
            Array::F64(_) => Err(Error::AtomicType { expected: DataType::Bool, actual: DataType::F64 }),
        }
    }

    /// The only item of an array of booleans.
    pub fn first_bool(&self) -> (r: Result<bool, Error>)
        ensures
            r == self@.first_bool(),
    {
        match self {
            Array::Bool(x) => {
                if x.len() != 1 {
                    return Err(Error::NotScalar);
                }
                Ok(x.items()[0])
            },
            _ => Err(Error::NotBool),
        }
    }

    fn dimensions(&self) -> (r: &Vec<usize>)
        ensures
            r@ == self@.shape(),
            r@.len() <= 2,
    {
        match self {
            Array::Bool(array) => array.shape(),
            Array::F64(array) => array.shape(),
            Array::I64(array) => array.shape(),
            Array::Str(array) => array.shape(),
        }
    }

    /// The length of each axis.
    pub fn shape(&self) -> (r: Vec<i64>)
        ensures
            r@.len() == self@.shape().len(),
            r@.len() <= 2,
            forall|i: int| 0 <= i < r@.len() ==> r@[i] == self@.shape()[i] as i64,
    {
        let dimensions = self.dimensions();
        let mut shape: Vec<i64> = Vec::new();
        let mut i: usize = 0;
        while i < dimensions.len()
            invariant
                i <= dimensions.len(),
                shape@.len() == i,
                forall|j: int| 0 <= j < i ==> shape@[j] == dimensions@[j] as i64,
            decreases dimensions.len() - i,
        {
            shape.push(#[verifier::truncate] (dimensions[i] as i64));
            i += 1;
        }
        shape
    }

    /// The number of records: the length of the first axis, and 1 without one.
    pub fn num_records(&self) -> (r: Result<i64, Error>)
        ensures
            r == Ok::<i64, Error>(self@.num_records() as i64),
    {
        let shape = self.shape();
        if shape.len() == 0 {
            Ok(1)
        } else {
            Ok(shape[0])
        }
    }

    /// The number of columns: the length of the second axis, and 1 without one.
    pub fn num_columns(&self) -> (r: Result<i64, Error>)
        ensures
            r == Ok::<i64, Error>(self@.num_columns() as i64),
    {
        let shape = self.shape();
        if shape.len() < 2 {
            Ok(1)
        } else {
            Ok(shape[1])
        }
    }

    /// A copy that holds what this value holds.
    pub fn duplicate(&self) -> (r: Array)
        ensures
            r@ == self@,
    {
        match self {
            Array::Bool(array) => Array::Bool(array.duplicate()),
            Array::I64(array) => Array::I64(array.duplicate()),
            Array::F64(array) => Array::F64(array.duplicate()),
            Array::Str(array) => Array::Str(array.duplicate()),
        }
    }
}

/// A matrix whose columns may differ in length, and may be unknown.
#[derive(Debug, PartialEq, Eq)]
pub enum Jagged {
    Bool(Vec<Option<Vec<bool>>>),
    I64(Vec<Option<Vec<i64>>>),
    F64(Vec<Option<Vec<Float>>>),
    Str(Vec<Option<Vec<String>>>),
}

/// What a [`Jagged`] holds.
pub ghost enum JaggedView {
    Bool(Seq<Option<Seq<bool>>>),
    I64(Seq<Option<Seq<i64>>>),
    F64(Seq<Option<Seq<Float>>>),
    Str(Seq<Option<Seq<Seq<char>>>>),
}

impl View for Jagged {
    type V = JaggedView;

    open spec fn view(&self) -> JaggedView {
        match self {
            Jagged::Bool(columns) => JaggedView::Bool(columns.deep_view()),
            Jagged::I64(columns) => JaggedView::I64(columns.deep_view()),
            Jagged::F64(columns) => JaggedView::F64(columns.deep_view()),
            Jagged::Str(columns) => JaggedView::Str(columns.deep_view()),
        }
    }
}

impl DeepView for Jagged {
    type V = JaggedView;

    open spec fn deep_view(&self) -> JaggedView {
        self@
    }
}

/// Every column is known.
pub open spec fn all_known<T>(columns: Seq<Option<T>>) -> bool {
    forall|i: int| 0 <= i < columns.len() ==> (#[trigger] columns[i]) is Some
}

/// The columns, each taken out of its `Some`.
pub open spec fn unwrapped<T>(columns: Seq<Option<T>>) -> Seq<T> {
    Seq::new(columns.len(), |i: int| columns[i]->0)
}

/// The columns, each put into a `Some`.
pub open spec fn wrapped<T>(columns: Seq<T>) -> Seq<Option<T>> {
    Seq::new(columns.len(), |i: int| Some(columns[i]))
}

/// The length of each column, where it is known.
pub open spec fn column_lengths<T>(columns: Seq<Option<Seq<T>>>) -> Seq<Option<i64>> {
    Seq::new(
        columns.len(),
        |i: int|
            match columns[i] {
                Some(column) => Some(column.len() as i64),
                None => None,
            },
    )
}

/// The columns as vectors, where all of them are known.
pub fn known_columns<T: Atom>(columns: &Vec<Option<Vec<T>>>) -> (r: Option<Vec<Vec<T>>>)
    ensures
        r is Some <==> all_known(columns.deep_view()),
        r matches Some(known) ==> known.deep_view() == unwrapped(columns.deep_view()),
{
    let mut known: Vec<Vec<T>> = Vec::new();
    let mut i: usize = 0;
    while i < columns.len()
        invariant
            i <= columns.len(),
            known@.len() == i,
            forall|j: int| 0 <= j < i ==> (#[trigger] columns@[j]) is Some,
            forall|j: int|
                0 <= j < i ==> (#[trigger] known@[j]).deep_view() == columns@[j]->0.deep_view(),
        decreases columns.len() - i,
    {
        match &columns[i] {
            Some(column) => {
                known.push(duplicate_items(column));
            },
            None => {
                assert(columns.deep_view()[i as int] is None);
                return None;
            },
        }
        i += 1;
    }
    proof {
        assert forall|j: int| 0 <= j < columns.deep_view().len() implies (
        #[trigger] columns.deep_view()[j]) is Some by {
            assert(columns@[j] is Some);
        }
        assert(known.deep_view() =~= unwrapped(columns.deep_view()));
    }
    Some(known)
}

fn lengths_of<T>(columns: &Vec<Option<Vec<T>>>) -> (r: Vec<Option<i64>>)
    ensures
        r@.len() == columns@.len(),
        forall|i: int|
            0 <= i < r@.len() ==> #[trigger] r@[i] == match columns@[i] {
                Some(column) => Some(column@.len() as i64),
                None => None::<i64>,
            },
{
    let mut lengths: Vec<Option<i64>> = Vec::new();
    let mut i: usize = 0;
    while i < columns.len()
        invariant
            i <= columns.len(),
            lengths@.len() == i,
            forall|j: int|
                0 <= j < i ==> #[trigger] lengths@[j] == match columns@[j] {
                    Some(column) => Some(column@.len() as i64),
                    None => None::<i64>,
                },
        decreases columns.len() - i,
    {
        let length = match &columns[i] {
            Some(column) => Some(#[verifier::truncate] (column.len() as i64)),
            None => None,
        };
        lengths.push(length);
        i += 1;
    }
    lengths
}

fn deduplicate_columns<T: Atom + Eq + core::hash::Hash + Clone>(columns: &Vec<Option<Vec<T>>>) -> (r: Vec<
    Option<Vec<T>>,
>)
    ensures
        r.deep_view() == deduplicated(columns.deep_view()),
{
    let mut out: Vec<Option<Vec<T>>> = Vec::new();
    let mut i: usize = 0;
    while i < columns.len()
        invariant
            i <= columns.len(),
            out@.len() == i,
            forall|j: int|
                0 <= j < i ==> (#[trigger] out@[j]).deep_view() == deduplicated(columns.deep_view())[j],
        decreases columns.len() - i,
    {
        let column = match &columns[i] {
            Some(column) => Some(deduplicate(duplicate_items(column))),
            None => None,
        };
        assert(columns.deep_view()[i as int] == columns@[i as int].deep_view());
        out.push(column);
        i += 1;
    }
    assert(out.deep_view() =~= deduplicated(columns.deep_view()));
    out
}

fn wrap_columns<T: DeepView>(columns: Vec<Vec<T>>) -> (r: Vec<Option<Vec<T>>>)
    ensures
        r.deep_view() == wrapped(columns.deep_view()),
{
    let ghost before = columns.deep_view();
    let mut columns = columns;
    let mut out: Vec<Option<Vec<T>>> = Vec::new();
    let mut rest: Vec<Option<Vec<T>>> = Vec::new();
    while columns.len() > 0
        invariant
            columns@.len() + rest@.len() == before.len(),
            columns.deep_view() == before.take(columns@.len() as int),
            forall|j: int|
                0 <= j < rest@.len() ==> (#[trigger] rest@[j]).deep_view() == Some(
                    before[before.len() - 1 - j],
                ),
        decreases columns@.len(),
    {
        let ghost previous = columns.deep_view();
        let column = columns.pop().unwrap();
        assert(column.deep_view() == previous[previous.len() - 1]);
        assert(columns.deep_view() =~= before.take(columns@.len() as int));
        rest.push(Some(column));
    }
    while rest.len() > 0
        invariant
            out@.len() + rest@.len() == before.len(),
            forall|j: int|
                0 <= j < rest@.len() ==> (#[trigger] rest@[j]).deep_view() == Some(
                    before[before.len() - 1 - j],
                ),
            forall|j: int| 0 <= j < out@.len() ==> (#[trigger] out@[j]).deep_view() == Some(before[j]),
        decreases rest@.len(),
    {
        let column = rest.pop().unwrap();
        out.push(column);
    }
    assert(out.deep_view() =~= wrapped(before));
    out
}

/// Each known column without the items that occurred before in it.
pub open spec fn deduplicated<T>(columns: Seq<Option<Seq<T>>>) -> Seq<Option<Seq<T>>> {
    Seq::new(
        columns.len(),
        |i: int|
            match columns[i] {
                Some(column) => Some(crate::utilities::first_occurrences(column)),
                None => None,
            },
    )
}

impl JaggedView {
    /// The atomic type of the items.
    pub open spec fn data_type(self) -> DataType {
        match self {
            JaggedView::Bool(_) => DataType::Bool,
            JaggedView::I64(_) => DataType::I64,
            JaggedView::F64(_) => DataType::F64,
            JaggedView::Str(_) => DataType::Str,
        }
    }

    /// The number of columns.
    pub open spec fn num_columns(self) -> nat {
        match self {
            JaggedView::Bool(columns) => columns.len(),
            JaggedView::I64(columns) => columns.len(),
            JaggedView::F64(columns) => columns.len(),
            JaggedView::Str(columns) => columns.len(),
        }
    }

    /// The length of each column, where it is known.
    pub open spec fn lengths_option(self) -> Seq<Option<i64>> {
        match self {
            JaggedView::Bool(columns) => column_lengths(columns),
            JaggedView::I64(columns) => column_lengths(columns),
            JaggedView::F64(columns) => column_lengths(columns),
            JaggedView::Str(columns) => column_lengths(columns),
        }
    }

    /// Each known column without the items that occurred before in it. Floats
    /// have no categories.
    pub open spec fn deduplicate(self) -> Result<JaggedView, Error> {
        match self {
            JaggedView::F64(_) => Err(Error::FloatCategorical),
            JaggedView::I64(columns) => Ok(JaggedView::I64(deduplicated(columns))),
            JaggedView::Bool(columns) => Ok(JaggedView::Bool(deduplicated(columns))),
            JaggedView::Str(columns) => Ok(JaggedView::Str(deduplicated(columns))),
        }
    }

    /// One list of categories for each of `num_columns` columns. Floats have
    /// no categories.
    pub open spec fn standardize(self, num_columns: i64) -> Result<JaggedView, Error> {
        match self {
            JaggedView::F64(_) => Err(Error::FloatCategorical),
            JaggedView::I64(columns) => match crate::utilities::standardized_categories(
                columns,
                num_columns,
            ) {
                Ok(columns) => Ok(JaggedView::I64(wrapped(columns))),
                Err(e) => Err(e),
            },
            JaggedView::Bool(columns) => match crate::utilities::standardized_categories(
                columns,
                num_columns,
            ) {
                Ok(columns) => Ok(JaggedView::Bool(wrapped(columns))),
                Err(e) => Err(e),
            },
            JaggedView::Str(columns) => match crate::utilities::standardized_categories(
                columns,
                num_columns,
            ) {
                Ok(columns) => Ok(JaggedView::Str(wrapped(columns))),
                Err(e) => Err(e),
            },
        }
    }
}

impl Jagged {
    /// The atomic type of the items.
    pub fn data_type(&self) -> (r: DataType)
        ensures
            r == self@.data_type(),
    {
        match self {
            Jagged::Bool(_) => DataType::Bool,
            Jagged::I64(_) => DataType::I64,
            Jagged::F64(_) => DataType::F64,
            Jagged::Str(_) => DataType::Str,
        }
    }

    /// The columns of a matrix of floats, where all are known.
    pub fn float(&self) -> (r: Result<Vec<Vec<Float>>, Error>)
        ensures
            match r {
                Ok(columns) => self@ matches JaggedView::F64(c) && all_known(c)
                    && columns.deep_view() == unwrapped(c),
                Err(e) => match self@ {
                    JaggedView::F64(c) => !all_known(c) && e == Error::JaggedColumnUnknown(
                        DataType::F64,
                    ),
                    _ => e == Error::JaggedType(DataType::F64),
                },
            },
    {
        match self.f64_option() {
            Ok(columns) => match known_columns(columns) {
                Some(known) => Ok(known),
                None => Err(Error::JaggedColumnUnknown(DataType::F64)),
            },
            Err(e) => Err(e),
        }
    }

    /// The columns of a matrix of floats.
    pub fn f64_option(&self) -> (r: Result<&Vec<Option<Vec<Float>>>, Error>)
        ensures
            match r {
                Ok(columns) => self@ == JaggedView::F64(columns.deep_view()),
                Err(e) => self@ !is F64 && e == Error::JaggedType(DataType::F64),
            },
    {
        match self {
            Jagged::F64(data) => Ok(data),
            _ => Err(Error::JaggedType(DataType::F64)),
        }
    }

    /// The columns of a matrix of integers, where all are known.
    pub fn i64(&self) -> (r: Result<Vec<Vec<i64>>, Error>)
        ensures
            match r {
                Ok(columns) => self@ matches JaggedView::I64(c) && all_known(c)
                    && columns.deep_view() == unwrapped(c),
                Err(e) => match self@ {
                    JaggedView::I64(c) => !all_known(c) && e == Error::JaggedColumnUnknown(
                        DataType::I64,
                    ),
                    _ => e == Error::JaggedType(DataType::I64),
                },
            },
    {
        match self {
            Jagged::I64(data) => match known_columns(data) {
                Some(known) => Ok(known),
                None => Err(Error::JaggedColumnUnknown(DataType::I64)),
            },
            _ => Err(Error::JaggedType(DataType::I64)),
        }
    }

    /// The columns of a matrix of strings, where all are known.
    pub fn string(&self) -> (r: Result<Vec<Vec<String>>, Error>)
        ensures
            match r {
                Ok(columns) => self@ matches JaggedView::Str(c) && all_known(c)
                    && columns.deep_view() == unwrapped(c),
                Err(e) => match self@ {
                    JaggedView::Str(c) => !all_known(c) && e == Error::JaggedColumnUnknown(
                        DataType::Str,
                    ),
                    _ => e == Error::JaggedType(DataType::Str),
                },
            },
    {
        match self {
            Jagged::Str(data) => match known_columns(data) {
                Some(known) => Ok(known),
                None => Err(Error::JaggedColumnUnknown(DataType::Str)),
            },
            _ => Err(Error::JaggedType(DataType::Str)),
        }
    }

    /// The columns of a matrix of booleans, where all are known.
    pub fn bool(&self) -> (r: Result<Vec<Vec<bool>>, Error>)
        ensures
            match r {
                Ok(columns) => self@ matches JaggedView::Bool(c) && all_known(c)
                    && columns.deep_view() == unwrapped(c),
                Err(e) => match self@ {
                    JaggedView::Bool(c) => !all_known(c) && e == Error::JaggedColumnUnknown(
                        DataType::Bool,
                    ),
                    _ => e == Error::JaggedType(DataType::Bool),
                },
            },
    {
        match self {
            Jagged::Bool(data) => match known_columns(data) {
                Some(known) => Ok(known),
                None => Err(Error::JaggedColumnUnknown(DataType::Bool)),
            },
            _ => Err(Error::JaggedType(DataType::Bool)),
        }
    }

    /// The number of columns.
    pub fn num_columns(&self) -> (r: i64)
        ensures
            r == self@.num_columns() as i64,
    {
        match self {
            Jagged::Bool(vector) => #[verifier::truncate] (vector.len() as i64),
            Jagged::F64(vector) => #[verifier::truncate] (vector.len() as i64),
            Jagged::I64(vector) => #[verifier::truncate] (vector.len() as i64),
            Jagged::Str(vector) => #[verifier::truncate] (vector.len() as i64),
        }
    }

    /// The length of each column, where it is known.
    pub fn lengths_option(&self) -> (r: Vec<Option<i64>>)
        ensures
            r@ == self@.lengths_option(),
    {
        let lengths = match self {
            Jagged::Bool(value) => {
                let lengths = lengths_of(value);
                assert(lengths@ =~= column_lengths(value.deep_view()));
                lengths
            },
            Jagged::F64(value) => {
                let lengths = lengths_of(value);
                assert(lengths@ =~= column_lengths(value.deep_view()));
                lengths
            },
            Jagged::I64(value) => {
                let lengths = lengths_of(value);
                assert(lengths@ =~= column_lengths(value.deep_view()));
                lengths
            },
            Jagged::Str(value) => {
                let lengths = lengths_of(value);
                assert(lengths@ =~= column_lengths(value.deep_view()));
                lengths
            },
        };
        lengths
    }

    /// The length of each column, where all are known.
    pub fn lengths(&self) -> (r: Result<Vec<i64>, Error>)
        ensures
            match r {
                Ok(lengths) => all_known(self@.lengths_option()) && lengths@ == unwrapped(
                    self@.lengths_option(),
                ),
                Err(e) => !all_known(self@.lengths_option()) && e == Error::JaggedLengthUnknown,
            },
    {
        let options = self.lengths_option();
        let mut lengths: Vec<i64> = Vec::new();
        let mut i: usize = 0;
        while i < options.len()
            invariant
                options@ == self@.lengths_option(),
                i <= options.len(),
                lengths@.len() == i,
                forall|j: int| 0 <= j < i ==> (#[trigger] options@[j]) is Some,
                forall|j: int| 0 <= j < i ==> #[trigger] lengths@[j] == options@[j]->0,
            decreases options.len() - i,
        {
            match options[i] {
                Some(length) => lengths.push(length),
                None => {
                    assert(options@[i as int] is None);
                    assert(!all_known(options@));
                    return Err(Error::JaggedLengthUnknown);
                },
            }
            i += 1;
        }
        assert(lengths@ =~= unwrapped(options@));
        Ok(lengths)
    }

    /// Each known column without the items that occurred before in it.
    pub fn deduplicate(&self) -> (r: Result<Jagged, Error>)
        ensures
            match r {
                Ok(jagged) => self@.deduplicate() == Ok::<JaggedView, Error>(jagged@),
                Err(e) => self@.deduplicate() == Err::<JaggedView, Error>(e),
            },
    {
        match self {
            Jagged::F64(_) => Err(Error::FloatCategorical),
            Jagged::I64(categories) => Ok(Jagged::I64(deduplicate_columns(categories))),
            Jagged::Bool(categories) => Ok(Jagged::Bool(deduplicate_columns(categories))),
            Jagged::Str(categories) => Ok(Jagged::Str(deduplicate_columns(categories))),
        }
    }

    /// One list of categories for each of `num_columns` columns.
    pub fn standardize(&self, num_columns: &i64) -> (r: Result<Jagged, Error>)
        ensures
            match r {
                Ok(jagged) => self@.standardize(*num_columns) == Ok::<JaggedView, Error>(jagged@),
                Err(e) => self@.standardize(*num_columns) == Err::<JaggedView, Error>(e),
            },
    {
        match self {
            Jagged::F64(_) => Err(Error::FloatCategorical),
            Jagged::I64(categories) => match standardize_categorical_argument(
                categories,
                num_columns,
            ) {
                Ok(columns) => Ok(Jagged::I64(wrap_columns(columns))),
                Err(e) => Err(e),
            },
            Jagged::Bool(categories) => match standardize_categorical_argument(
                categories,
                num_columns,
            ) {
                Ok(columns) => Ok(Jagged::Bool(wrap_columns(columns))),
                Err(e) => Err(e),
            },
            Jagged::Str(categories) => match standardize_categorical_argument(
                categories,
                num_columns,
            ) {
                Ok(columns) => Ok(Jagged::Str(wrap_columns(columns))),
                Err(e) => Err(e),
            },
        }
    }

    /// A copy that holds what this value holds.
    pub fn duplicate(&self) -> (r: Jagged)
        ensures
            r@ == self@,
    {
        match self {
            Jagged::Bool(columns) => Jagged::Bool(duplicate_columns(columns)),
            Jagged::I64(columns) => Jagged::I64(duplicate_columns(columns)),
            Jagged::F64(columns) => Jagged::F64(duplicate_columns(columns)),
            Jagged::Str(columns) => Jagged::Str(duplicate_columns(columns)),
        }
    }
}

/// Values under the names of the arguments they are given for, in the order
/// in which the names came.
#[derive(Debug, PartialEq)]
pub struct Arguments<T> {
    index: IndexMap<String, usize>,
    entries: Vec<(String, T)>,
}

impl<T> Arguments<T> {
    /// Whether there is a value under the name: the index keeps a slot for the
    /// name, and the slot holds the name.
    pub closed spec fn contains(&self, name: Seq<char>) -> bool {
        &&& slots(self.index).contains_key(name)
        &&& slots(self.index)[name] < self.entries@.len()
        &&& self.entries@[slots(self.index)[name] as int].0@ == name
    }

    /// The value under the name.
    pub closed spec fn value(&self, name: Seq<char>) -> T {
        self.entries@[slots(self.index)[name] as int].1
    }

    /// No arguments.
    pub fn new() -> (r: Arguments<T>)
        ensures
            forall|name: Seq<char>| !r.contains(name),
    {
        Arguments { index: index_new(), entries: Vec::new() }
    }

    fn slot(&self, name: &String) -> (r: Option<usize>)
        ensures
            r is Some <==> self.contains(name@),
            r matches Some(slot) ==> slot < self.entries@.len() && slot == slots(self.index)[name@],
    {
        match index_get(&self.index, name.as_str()) {
            Some(slot) => if slot < self.entries.len() && self.entries[slot].0 == *name {
                Some(slot)
            } else {
                None
            },
            None => None,
        }
    }

    /// The value under the name, if there is one.
    pub fn get(&self, name: &str) -> (r: Option<&T>)
        ensures
            r == (if self.contains(name@) {
                Some(&self.value(name@))
            } else {
                None
            }),
    {
        let name = name.to_owned();
        match self.slot(&name) {
            Some(slot) => Some(&self.entries[slot].1),
            None => None,
        }
    }

    /// Whether there is a value under the name.
    pub fn contains_key(&self, name: &str) -> (r: bool)
        ensures
            r == self.contains(name@),
    {
        self.get(name).is_some()
    }

    /// The names under which there are values.
    pub fn names(&self) -> (r: Vec<String>)
        ensures
            forall|i: int| 0 <= i < r@.len() ==> self.contains((#[trigger] r@[i])@),
            forall|name: Seq<char>|
                self.contains(name) ==> exists|i: int| 0 <= i < r@.len() && (#[trigger] r@[i])@ == name,
    {
        let mut out: Vec<String> = Vec::new();
        let mut i: usize = 0;
        while i < self.entries.len()
            invariant
                i <= self.entries.len(),
                forall|k: int| 0 <= k < out@.len() ==> self.contains((#[trigger] out@[k])@),
                forall|j: int|
                    0 <= j < i && self.contains(self.entries@[j].0@) && slots(self.index)[(
                    #[trigger] self.entries@[j]).0@] == j ==> exists|k: int|
                        0 <= k < out@.len() && (#[trigger] out@[k])@ == self.entries@[j].0@,
            decreases self.entries.len() - i,
        {
            match self.slot(&self.entries[i].0) {
                Some(slot) => {
                    if slot == i {
                        let ghost before = out@;
                        out.push(self.entries[i].0.clone());
                        proof {
                            let last = out@.len() - 1;
                            assert(out@[last]@ == self.entries@[i as int].0@);
                            assert forall|j: int|
                                0 <= j < i + 1 && self.contains(self.entries@[j].0@) && slots(
                                    self.index,
                                )[(#[trigger] self.entries@[j]).0@] == j implies exists|k: int|
                                0 <= k < out@.len() && (#[trigger] out@[k])@ == self.entries@[j].0@ by {
                                if j < i {
                                    let k = choose|k: int|
                                        0 <= k < before.len() && (#[trigger] before[k])@
                                            == self.entries@[j].0@;
                                    assert(out@[k]@ == self.entries@[j].0@);
                                } else {
                                    assert(out@[last]@ == self.entries@[j].0@);
                                }
                            }
                        }
                    }
                },
                None => {},
            }
            i += 1;
        }
        proof {
            assert forall|name: Seq<char>| self.contains(name) implies exists|i: int|
                0 <= i < out@.len() && (#[trigger] out@[i])@ == name by {
                let j = slots(self.index)[name] as int;
                assert(self.entries@[j].0@ == name);
            }
        }
        out
    }

    /// Puts the value under the name, in place of the one that was there.
    pub fn insert(&mut self, name: &str, value: T)
        ensures
            forall|other: Seq<char>|
                final(self).contains(other) == (old(self).contains(other) || other == name@),
            final(self).value(name@) == value,
            forall|other: Seq<char>|
                old(self).contains(other) && other != name@ ==> final(self).value(other) == old(
                    self,
                ).value(other),
    {
        let name = name.to_owned();
        match self.slot(&name) {
            Some(slot) => {
                self.entries.set(slot, (name, value));
            },
            None => {
                let last = self.entries.len();
                let key = name.clone();
                self.entries.push((name, value));
                index_insert(&mut self.index, key, last);
            },
        }
    }
}

/// Whether one of the properties is that of partitioned data: a map of
/// values.
pub open spec fn holds_partitioned(properties: Map<Seq<char>, ValuePropertiesView>) -> bool {
    exists|name: Seq<char>| properties.contains_key(name) && (#[trigger] properties[name]) is Hashmap
}

impl Arguments<ValueProperties> {
    /// Whether one of the arguments is partitioned data: a map of values.
    pub open spec fn partitioned(&self) -> bool {
        exists|name: Seq<char>| self.contains(name) && (#[trigger] self.value(name)) is Hashmap
    }

    /// Partitioned data shows in what the arguments hold.
    pub proof fn lemma_partitioned(&self)
        ensures
            self.partitioned() == holds_partitioned(self@),
    {
        if self.partitioned() {
            let name = choose|name: Seq<char>|
                self.contains(name) && (#[trigger] self.value(name)) is Hashmap;
            assert(self@.contains_key(name) && self@[name] is Hashmap);
        }
        if holds_partitioned(self@) {
            let name = choose|name: Seq<char>|
                self@.contains_key(name) && (#[trigger] self@[name]) is Hashmap;
            assert(self.contains(name) && self.value(name) is Hashmap);
        }
    }

    /// Whether one of the arguments is partitioned data: a map of values.
    pub fn any_partitioned(&self) -> (r: bool)
        ensures
            r == self.partitioned(),
            r == holds_partitioned(self@),
    {
        proof {
            self.lemma_partitioned();
        }
        let mut i: usize = 0;
        while i < self.entries.len()
            invariant
                self.partitioned() == holds_partitioned(self@),
                i <= self.entries.len(),
                forall|j: int|
                    0 <= j < i ==> !(self.contains(self.entries@[j].0@) && slots(self.index)[(
                    #[trigger] self.entries@[j]).0@] == j && self.entries@[j].1 is Hashmap),
            decreases self.entries.len() - i,
        {
            match self.slot(&self.entries[i].0) {
                Some(slot) => {
                    if slot == i {
                        if let ValueProperties::Hashmap(_) = &self.entries[i].1 {
                            assert(self.contains(self.entries@[i as int].0@) && self.value(
                                self.entries@[i as int].0@,
                            ) is Hashmap);
                            return true;
                        }
                    }
                },
                None => {},
            }
            i += 1;
        }
        proof {
            assert forall|name: Seq<char>| self.contains(name) implies !((
            #[trigger] self.value(name)) is Hashmap) by {
                let j = slots(self.index)[name] as int;
                assert(self.entries@[j].0@ == name);
            }
        }
        false
    }
}

impl<T: Copy + DeepView> Arguments<T> {
    /// A copy that holds what this value holds.
    pub fn duplicate(&self) -> (r: Arguments<T>)
        ensures
            r@ == self@,
    {
        let mut entries: Vec<(String, T)> = Vec::new();
        let mut i: usize = 0;
        while i < self.entries.len()
            invariant
                i <= self.entries.len(),
                entries@.len() == i,
                forall|j: int|
                    0 <= j < i ==> (#[trigger] entries@[j]).0@ == self.entries@[j].0@ && entries@[j].1
                        == self.entries@[j].1,
            decreases self.entries.len() - i,
        {
            entries.push((self.entries[i].0.clone(), self.entries[i].1));
            i += 1;
        }
        let r = Arguments { index: index_clone(&self.index), entries };
        assert(r@ =~= self@);
        r
    }
}

impl<T: DeepView> View for Arguments<T> {
    type V = Map<Seq<char>, T::V>;

    open spec fn view(&self) -> Map<Seq<char>, T::V> {
        Map::new(|name: Seq<char>| self.contains(name), |name: Seq<char>| self.value(name).deep_view())
    }
}

/// Values under keys of one type, in the order of the keys.
#[derive(Debug, PartialEq)]
pub enum Hashmap<T> {
    Bool(Vec<(bool, T)>),
    I64(Vec<(i64, T)>),
    Str(Vec<(String, T)>),
}

/// What a [`Hashmap`] holds, each value by its view.
pub ghost enum HashmapView<V> {
    Bool(Seq<(bool, V)>),
    I64(Seq<(i64, V)>),
    Str(Seq<(Seq<char>, V)>),
}

/// The keys of a [`Hashmap`].
pub ghost enum KeysView {
    Bool(Seq<bool>),
    I64(Seq<i64>),
    Str(Seq<Seq<char>>),
}

impl KeysView {
    /// The number of keys.
    pub open spec fn len(self) -> nat {
        match self {
            KeysView::Bool(keys) => keys.len(),
            KeysView::I64(keys) => keys.len(),
            KeysView::Str(keys) => keys.len(),
        }
    }

    /// The first `count` keys.
    pub open spec fn take(self, count: int) -> KeysView {
        match self {
            KeysView::Bool(keys) => KeysView::Bool(keys.take(count)),
            KeysView::I64(keys) => KeysView::I64(keys.take(count)),
            KeysView::Str(keys) => KeysView::Str(keys.take(count)),
        }
    }

    /// The first keys of ordered keys are ordered.
    pub proof fn lemma_take_ordered(self, count: int)
        requires
            self.ordered(),
            0 <= count <= self.len(),
        ensures
            self.take(count).ordered(),
    {
        match self {
            KeysView::Bool(keys) => {
                let taken = keys.take(count);
                if taken.len() == 2 {
                    assert(taken[0] == keys[0] && taken[1] == keys[1]);
                }
            },
            KeysView::I64(keys) => {
                let taken = keys.take(count);
                assert forall|i: int, j: int|
                    #![trigger taken[i], taken[j]]
                    0 <= i < j < taken.len() implies taken[i] < taken[j] by {
                    assert(taken[i] == keys[i] && taken[j] == keys[j]);
                }
                assert(self.take(count) == KeysView::I64(taken));
            },
            KeysView::Str(keys) => {
                let taken = keys.take(count);
                assert forall|i: int|
                    #![trigger taken[i]]
                    0 <= i && i + 1 < taken.len() implies text_below(taken[i], taken[i + 1]) by {
                    assert(taken[i] == keys[i] && taken[i + 1] == keys[i + 1]);
                }
                assert(self.take(count) == KeysView::Str(taken));
            },
        }
    }

    /// The keys stand in rising order: false before true, each integer below
    /// the next, each text below the next. So no key occurs twice.
    pub open spec fn ordered(self) -> bool {
        match self {
            KeysView::Bool(keys) => keys.len() <= 2 && (keys.len() == 2 ==> !keys[0] && keys[1]),
            KeysView::I64(keys) => forall|i: int, j: int|
                #![trigger keys[i], keys[j]]
                0 <= i < j < keys.len() ==> keys[i] < keys[j],
            KeysView::Str(keys) => forall|i: int|
                #![trigger keys[i]]
                0 <= i && i + 1 < keys.len() ==> text_below(keys[i], keys[i + 1]),
        }
    }
}

/// One text stands before another: at the first place where they differ it
/// has the character of the lower code, or it ends there and the other goes
/// on.
pub open spec fn text_below(first: Seq<char>, second: Seq<char>) -> bool {
    ||| exists|place: int|
        {
            &&& 0 <= place < first.len()
            &&& place < second.len()
            &&& first.take(place) == second.take(place)
            &&& (#[trigger] first[place] as u32) < second[place] as u32
        }
    ||| first.len() < second.len() && first == second.take(first.len() as int)
}

/// Whether one text stands before another.
pub fn is_text_below(first: &str, second: &str) -> (r: bool)
    ensures
        r == text_below(first@, second@),
{
    let length = first.unicode_len();
    let other = second.unicode_len();
    let mut i: usize = 0;
    while i < length && i < other
        invariant
            i <= length,
            i <= other,
            length == first@.len(),
            other == second@.len(),
            first@.take(i as int) == second@.take(i as int),
        decreases length - i,
    {
        let a = first.get_char(i);
        let b = second.get_char(i);
        if a != b {
            proof {
                assert forall|place: int|
                    0 <= place < first@.len() && place < second@.len() && first@.take(place)
                        == second@.take(place) implies place <= i by {
                    if place > i {
                        assert(first@.take(place)[i as int] == second@.take(place)[i as int]);
                    }
                }
                assert forall|place: int|
                    0 <= place < i implies (first@[place] as u32) == second@[place] as u32 by {
                    assert(first@.take(i as int)[place] == second@.take(i as int)[place]);
                }
                if first@.len() < second@.len() && first@ == second@.take(first@.len() as int) {
                    assert(second@.take(first@.len() as int)[i as int] == second@[i as int]);
                }
            }
            return (a as u32) < (b as u32);
        }
        proof {
            assert(first@.take(i + 1) =~= first@.take(i as int).push(a));
            assert(second@.take(i + 1) =~= second@.take(i as int).push(b));
        }
        i += 1;
    }
    proof {
        assert forall|place: int|
            0 <= place < first@.len() && place < second@.len() implies (first@[place] as u32)
            == second@[place] as u32 by {
            assert(first@.take(i as int)[place] == second@.take(i as int)[place]);
        }
        if length < other {
            assert(first@.take(i as int) =~= first@);
        } else {
            assert(second@.take(i as int) =~= second@);
            if first@.len() < second@.len() {
            }
        }
    }
    length < other
}

/// The keys of pairs, in the order of the pairs.
pub open spec fn keys_of_pairs<K, T>(entries: Seq<(K, T)>) -> Seq<K> {
    Seq::new(entries.len(), |i: int| entries[i].0)
}

/// The keys of pairs with texts for keys, in the order of the pairs.
pub open spec fn texts_of_pairs<T>(entries: Seq<(String, T)>) -> Seq<Seq<char>> {
    Seq::new(entries.len(), |i: int| entries[i].0@)
}

fn integers_rise<T>(entries: &Vec<(i64, T)>) -> (r: bool)
    ensures
        r == KeysView::I64(keys_of_pairs(entries@)).ordered(),
{
    let ghost keys = keys_of_pairs(entries@);
    let mut i: usize = 1;
    while i < entries.len()
        invariant
            1 <= i,
            keys == keys_of_pairs(entries@),
            forall|a: int, b: int|
                #![trigger keys[a], keys[b]]
                0 <= a < b < i && b < keys.len() ==> keys[a] < keys[b],
        decreases entries.len() - i,
    {
        if entries[i - 1].0 >= entries[i].0 {
            proof {
                let stated = KeysView::I64(keys_of_pairs(entries@));
                assert(stated is I64 && stated->I64_0 == keys);
                assert(keys[i - 1] >= keys[i as int]);
            }
            return false;
        }
        assert(keys[i - 1] < keys[i as int]);
        i += 1;
    }
    proof {
        let stated = KeysView::I64(keys_of_pairs(entries@));
        assert(stated is I64 && stated->I64_0 == keys);
    }
    true
}

fn texts_rise<T>(entries: &Vec<(String, T)>) -> (r: bool)
    ensures
        r == KeysView::Str(texts_of_pairs(entries@)).ordered(),
{
    let ghost keys = texts_of_pairs(entries@);
    let mut i: usize = 1;
    while i < entries.len()
        invariant
            1 <= i,
            keys == texts_of_pairs(entries@),
            forall|a: int|
                #![trigger keys[a]]
                0 <= a && a + 1 < i && a + 1 < keys.len() ==> text_below(keys[a], keys[a + 1]),
        decreases entries.len() - i,
    {
        if !is_text_below(entries[i - 1].0.as_str(), entries[i].0.as_str()) {
            proof {
                let stated = KeysView::Str(texts_of_pairs(entries@));
                assert(stated is Str && stated->Str_0 == keys);
                assert(!text_below(keys[i - 1], keys[i - 1 + 1]));
            }
            return false;
        }
        assert(text_below(keys[i - 1], keys[i - 1 + 1]));
        i += 1;
    }
    proof {
        let stated = KeysView::Str(texts_of_pairs(entries@));
        assert(stated is Str && stated->Str_0 == keys);
    }
    true
}

impl<T> Hashmap<T> {
    /// The keys, in their order.
    pub open spec fn keys(&self) -> KeysView {
        match self {
            Hashmap::Bool(entries) => KeysView::Bool(keys_of_pairs(entries@)),
            Hashmap::I64(entries) => KeysView::I64(keys_of_pairs(entries@)),
            Hashmap::Str(entries) => KeysView::Str(texts_of_pairs(entries@)),
        }
    }

    /// The values, in the order of their keys.
    pub open spec fn items(&self) -> Seq<T> {
        match self {
            Hashmap::Bool(entries) => Seq::new(entries@.len(), |i: int| entries@[i].1),
            Hashmap::I64(entries) => Seq::new(entries@.len(), |i: int| entries@[i].1),
            Hashmap::Str(entries) => Seq::new(entries@.len(), |i: int| entries@[i].1),
        }
    }

    /// What a map keyed in order has: its keys in rising order, none twice.
    pub open spec fn well_formed(&self) -> bool {
        self.keys().ordered()
    }

    /// Whether the keys stand in rising order.
    pub fn is_well_formed(&self) -> (r: bool)
        ensures
            r == self.well_formed(),
    {
        match self {
            Hashmap::Bool(entries) => {
                entries.len() < 2 || (entries.len() == 2 && !entries[0].0 && entries[1].0)
            },
            Hashmap::I64(entries) => integers_rise(entries),
            Hashmap::Str(entries) => texts_rise(entries),
        }
    }

    /// The map itself, where its keys stand in rising order.
    pub fn checked(self) -> (r: Option<Hashmap<T>>)
        ensures
            match r {
                Some(map) => self.well_formed() && map == self,
                None => !self.well_formed(),
            },
    {
        if self.is_well_formed() {
            Some(self)
        } else {
            None
        }
    }

    /// The number of keys.
    pub fn keys_length(&self) -> (r: i64)
        ensures
            r == self.keys().len() as i64,
            self.keys().len() == self.items().len(),
    {
        match self {
            Hashmap::Bool(value) => #[verifier::truncate] (value.len() as i64),
            Hashmap::I64(value) => #[verifier::truncate] (value.len() as i64),
            Hashmap::Str(value) => #[verifier::truncate] (value.len() as i64),
        }
    }

    /// The values, in the rising order of their keys: the value under the
    /// lowest key first.
    pub fn values(&self) -> (r: Vec<&T>)
        requires
            self.well_formed(),
        ensures
            self.keys().ordered(),
            r@.len() == self.keys().len(),
            r@.len() == self.items().len(),
            forall|i: int| 0 <= i < r@.len() ==> *(#[trigger] r@[i]) == self.items()[i],
    {
        let mut out: Vec<&T> = Vec::new();
        match self {
            Hashmap::Bool(value) => {
                let mut i: usize = 0;
                while i < value.len()
                    invariant
                        i <= value.len(),
                        out@.len() == i,
                        forall|j: int| 0 <= j < i ==> *(#[trigger] out@[j]) == value@[j].1,
                    decreases value.len() - i,
                {
                    out.push(&value[i].1);
                    i += 1;
                }
            },
            Hashmap::I64(value) => {
                let mut i: usize = 0;
                while i < value.len()
                    invariant
                        i <= value.len(),
                        out@.len() == i,
                        forall|j: int| 0 <= j < i ==> *(#[trigger] out@[j]) == value@[j].1,
                    decreases value.len() - i,
                {
                    out.push(&value[i].1);
                    i += 1;
                }
            },
            Hashmap::Str(value) => {
                let mut i: usize = 0;
                while i < value.len()
                    invariant
                        i <= value.len(),
                        out@.len() == i,
                        forall|j: int| 0 <= j < i ==> *(#[trigger] out@[j]) == value@[j].1,
                    decreases value.len() - i,
                {
                    out.push(&value[i].1);
                    i += 1;
                }
            },
        }
        out
    }

    /// The map that pairs the keys of this one, in their order, with the
    /// values given; as many pairs as there are of the fewer.
    pub fn from_values(&self, values: Vec<T>) -> (r: Hashmap<T>) where T: Clone
        requires
            self.well_formed(),
        ensures
            r.keys() == self.keys().take(r.items().len() as int),
            r.items() == values@.take(r.items().len() as int),
            r.items().len() == (if self.keys().len() <= values@.len() {
                self.keys().len()
            } else {
                values@.len()
            }),
            r.well_formed(),
    {
        let ghost given = values@;
        let mut rest = reversed(values);
        match self {
            Hashmap::Bool(value) => {
                let mut out: Vec<(bool, T)> = Vec::new();
                let mut i: usize = 0;
                while i < value.len() && rest.len() > 0
                    invariant
                        i <= value.len(),
                        i + rest@.len() == given.len(),
                        out@.len() == i,
                        forall|j: int| 0 <= j < rest@.len() ==> #[trigger] rest@[j] == given[given.len() - 1 - j],
                        forall|j: int|
                            0 <= j < i ==> (#[trigger] out@[j]).0 == value@[j].0 && out@[j].1 == given[j],
                    decreases rest@.len(),
                {
                    let item = rest.pop().unwrap();
                    out.push((value[i].0, item));
                    i += 1;
                }
                let r = Hashmap::Bool(out);
                assert(r.keys()->Bool_0 =~= self.keys()->Bool_0.take(i as int));
                assert(r.items() =~= given.take(i as int));
                proof {
                    if self.well_formed() {
                        self.keys().lemma_take_ordered(i as int);
                    }
                }
                r
            },
            Hashmap::I64(value) => {
                let mut out: Vec<(i64, T)> = Vec::new();
                let mut i: usize = 0;
                while i < value.len() && rest.len() > 0
                    invariant
                        i <= value.len(),
                        i + rest@.len() == given.len(),
                        out@.len() == i,
                        forall|j: int| 0 <= j < rest@.len() ==> #[trigger] rest@[j] == given[given.len() - 1 - j],
                        forall|j: int|
                            0 <= j < i ==> (#[trigger] out@[j]).0 == value@[j].0 && out@[j].1 == given[j],
                    decreases rest@.len(),
                {
                    let item = rest.pop().unwrap();
                    out.push((value[i].0, item));
                    i += 1;
                }
                let r = Hashmap::I64(out);
                assert(r.keys()->I64_0 =~= self.keys()->I64_0.take(i as int));
                assert(r.items() =~= given.take(i as int));
                proof {
                    if self.well_formed() {
                        self.keys().lemma_take_ordered(i as int);
                    }
                }
                r
            },
            Hashmap::Str(value) => {
                let mut out: Vec<(String, T)> = Vec::new();
                let mut i: usize = 0;
                while i < value.len() && rest.len() > 0
                    invariant
                        i <= value.len(),
                        i + rest@.len() == given.len(),
                        out@.len() == i,
                        forall|j: int| 0 <= j < rest@.len() ==> #[trigger] rest@[j] == given[given.len() - 1 - j],
                        forall|j: int|
                            0 <= j < i ==> (#[trigger] out@[j]).0@ == value@[j].0@ && out@[j].1 == given[j],
                    decreases rest@.len(),
                {
                    let item = rest.pop().unwrap();
                    out.push((value[i].0.clone(), item));
                    i += 1;
                }
                let r = Hashmap::Str(out);
                assert(r.keys()->Str_0 =~= self.keys()->Str_0.take(i as int));
                assert(r.items() =~= given.take(i as int));
                proof {
                    if self.well_formed() {
                        self.keys().lemma_take_ordered(i as int);
                    }
                }
                r
            },
        }
    }
}

/// The universal data representation: an array, a jagged matrix, or a map of
/// values.
#[derive(Debug, PartialEq)]
pub enum Value {
    Array(Array),
    Hashmap(Hashmap<Value>),
    Jagged(Jagged),
}

/// What a [`Value`] holds.
pub ghost enum ValueView {
    Array(ArrayView),
    Hashmap(HashmapView<ValueView>),
    Jagged(JaggedView),
}

/// What a value holds.
pub open spec fn value_view(value: Value) -> ValueView
    decreases value,
{
    match value {
        Value::Array(array) => ValueView::Array(array@),
        Value::Jagged(jagged) => ValueView::Jagged(jagged@),
        Value::Hashmap(hashmap) => ValueView::Hashmap(
            match hashmap {
                Hashmap::Bool(entries) => HashmapView::Bool(
                    Seq::new(
                        entries@.len(),
                        |i: int|
                            if 0 <= i < entries@.len() {
                                (entries@[i].0, value_view(entries@[i].1))
                            } else {
                                arbitrary()
                            },
                    ),
                ),
                Hashmap::I64(entries) => HashmapView::I64(
                    Seq::new(
                        entries@.len(),
                        |i: int|
                            if 0 <= i < entries@.len() {
                                (entries@[i].0, value_view(entries@[i].1))
                            } else {
                                arbitrary()
                            },
                    ),
                ),
                Hashmap::Str(entries) => HashmapView::Str(
                    Seq::new(
                        entries@.len(),
                        |i: int|
                            if 0 <= i < entries@.len() {
                                (entries@[i].0@, value_view(entries@[i].1))
                            } else {
                                arbitrary()
                            },
                    ),
                ),
            },
        ),
    }
}

impl View for Value {
    type V = ValueView;

    open spec fn view(&self) -> ValueView {
        value_view(*self)
    }
}

impl DeepView for Value {
    type V = ValueView;

    open spec fn deep_view(&self) -> ValueView {
        value_view(*self)
    }
}

impl ValueView {
    /// The only item as an integer.
    pub open spec fn first_i64(self) -> Result<i64, Error> {
        match self {
            ValueView::Array(array) => array.first_i64(),
            _ => Err(Error::FirstUnavailable(DataType::I64)),
        }
    }

    /// The only item of an array of strings.
    pub open spec fn first_string(self) -> Result<Seq<char>, Error> {
        match self {
            ValueView::Array(array) => array.first_string(),
            _ => Err(Error::FirstUnavailable(DataType::Str)),
        }
    }

    /// The only item of an array of booleans.
    pub open spec fn first_bool(self) -> Result<bool, Error> {
        match self {
            ValueView::Array(array) => array.first_bool(),
            _ => Err(Error::FirstUnavailable(DataType::Bool)),
        }
    }
}

impl Value {
    /// The array, where the value is one.
    pub fn array(&self) -> (r: Result<&Array, Error>)
        ensures
            match r {
                Ok(array) => self@ == ValueView::Array(array@),
                Err(e) => self@ !is Array && e == Error::ValueNotArray,
            },
    {
        match self {
            Value::Array(array) => Ok(array),
            _ => Err(Error::ValueNotArray),
        }
    }

    /// The jagged matrix, where the value is one.
    pub fn jagged(&self) -> (r: Result<&Jagged, Error>)
        ensures
            match r {
                Ok(jagged) => self@ == ValueView::Jagged(jagged@),
                Err(e) => self@ !is Jagged && e == Error::ValueNotJagged,
            },
    {
        match self {
            Value::Jagged(jagged) => Ok(jagged),
            _ => Err(Error::ValueNotJagged),
        }
    }

    /// The only item of an array, as a float.
    pub fn first_f64<A: Fn(Operation) -> Float>(&self, arithmetic: &A) -> (r: Result<Float, Error>)
        requires
            total(*arithmetic),
        ensures
            match self@ {
                ValueView::Array(ArrayView::Bool(a)) => if a.items.len() != 1 {
                    r == Err::<Float, Error>(Error::NotScalar)
                } else {
                    r == Ok::<Float, Error>(
                        if a.items[0] {
                            Float { bits: crate::float::ONE_BITS }
                        } else {
                            Float { bits: 0 }
                        },
                    )
                },
                ValueView::Array(ArrayView::I64(a)) => if a.items.len() != 1 {
                    r == Err::<Float, Error>(Error::NotScalar)
                } else {
                    r matches Ok(v) && computes(
                        *arithmetic,
                        Operation::FromInteger((a.items[0] as i32) as i64),
                        v,
                    )
                },
                ValueView::Array(ArrayView::F64(a)) => if a.items.len() != 1 {
                    r == Err::<Float, Error>(Error::NotScalar)
                } else {
                    r == Ok::<Float, Error>(a.items[0])
                },
                ValueView::Array(ArrayView::Str(_)) => r == Err::<Float, Error>(Error::NotNumeric),
                _ => r == Err::<Float, Error>(Error::FirstUnavailable(DataType::F64)),
            },
    {
        match self {
            Value::Array(array) => array.first_f64(arithmetic),
            _ => Err(Error::FirstUnavailable(DataType::F64)),
        }
    }

    /// The only item of an array, as an integer.
    pub fn first_i64(&self) -> (r: Result<i64, Error>)
        ensures
            r == self@.first_i64(),
    {
        match self {
            Value::Array(array) => array.first_i64(),
            _ => Err(Error::FirstUnavailable(DataType::I64)),
        }
    }

    /// The only item of an array of strings.
    pub fn first_string(&self) -> (r: Result<String, Error>)
        ensures
            match r {
                Ok(s) => self@.first_string() == Ok::<Seq<char>, Error>(s@),
                Err(e) => self@.first_string() == Err::<Seq<char>, Error>(e),
            },
    {
        match self {
            Value::Array(array) => array.first_string(),
            _ => Err(Error::FirstUnavailable(DataType::Str)),
        }
    }

    /// The only item of an array of booleans.
    pub fn first_bool(&self) -> (r: Result<bool, Error>)
        ensures
            r == self@.first_bool(),
    {
        match self {
            Value::Array(array) => array.first_bool(),
            _ => Err(Error::FirstUnavailable(DataType::Bool)),
        }
    }

    /// A copy that holds what this value holds.
    pub fn duplicate(&self) -> (r: Value)
        ensures
            r@ == self@,
        decreases self,
    {
        match self {
            Value::Array(array) => Value::Array(array.duplicate()),
            Value::Jagged(jagged) => Value::Jagged(jagged.duplicate()),
            Value::Hashmap(hashmap) => {
                proof {
                    assert(decreases_to!(*self => self->Hashmap_0));
                }
                match hashmap {
                    Hashmap::Bool(entries) => {
                        let mut out: Vec<(bool, Value)> = Vec::new();
                        let mut i: usize = 0;
                        while i < entries.len()
                            invariant
                                decreases_to!(*self => *entries),
                                i <= entries.len(),
                                out@.len() == i,
                                forall|j: int|
                                    0 <= j < i ==> (#[trigger] out@[j]).0 == entries@[j].0
                                        && out@[j].1@ == entries@[j].1@,
                            decreases entries.len() - i,
                        {
                            proof {
                                assert(decreases_to!(*entries => entries@[i as int]));
                                assert(decreases_to!(entries@[i as int] => entries@[i as int].1));
                            }
                            let copy = entries[i].1.duplicate();
                            out.push((entries[i].0, copy));
                            i += 1;
                        }
                        let r = Value::Hashmap(Hashmap::Bool(out));
                        assert(r@->Hashmap_0->Bool_0 =~= self@->Hashmap_0->Bool_0);
                        r
                    },
                    Hashmap::I64(entries) => {
                        let mut out: Vec<(i64, Value)> = Vec::new();
                        let mut i: usize = 0;
                        while i < entries.len()
                            invariant
                                decreases_to!(*self => *entries),
                                i <= entries.len(),
                                out@.len() == i,
                                forall|j: int|
                                    0 <= j < i ==> (#[trigger] out@[j]).0 == entries@[j].0
                                        && out@[j].1@ == entries@[j].1@,
                            decreases entries.len() - i,
                        {
                            proof {
                                assert(decreases_to!(*entries => entries@[i as int]));
                                assert(decreases_to!(entries@[i as int] => entries@[i as int].1));
                            }
                            let copy = entries[i].1.duplicate();
                            out.push((entries[i].0, copy));
                            i += 1;
                        }
                        let r = Value::Hashmap(Hashmap::I64(out));
                        assert(r@->Hashmap_0->I64_0 =~= self@->Hashmap_0->I64_0);
                        r
                    },
                    Hashmap::Str(entries) => {
                        let mut out: Vec<(String, Value)> = Vec::new();
                        let mut i: usize = 0;
                        while i < entries.len()
                            invariant
                                decreases_to!(*self => *entries),
                                i <= entries.len(),
                                out@.len() == i,
                                forall|j: int|
                                    0 <= j < i ==> (#[trigger] out@[j]).0@ == entries@[j].0@
                                        && out@[j].1@ == entries@[j].1@,
                            decreases entries.len() - i,
                        {
                            proof {
                                assert(decreases_to!(*entries => entries@[i as int]));
                                assert(decreases_to!(entries@[i as int] => entries@[i as int].1));
                            }
                            let copy = entries[i].1.duplicate();
                            out.push((entries[i].0.clone(), copy));
                            i += 1;
                        }
                        let r = Value::Hashmap(Hashmap::Str(out));
                        assert(r@->Hashmap_0->Str_0 =~= self@->Hashmap_0->Str_0);
                        r
                    },
                }
            },
        }
    }
}

/// A vector of one atomic type, of which some items may be unknown.
#[derive(Debug, PartialEq, Eq)]
pub enum Vector1DNull {
    Bool(Vec<Option<bool>>),
    I64(Vec<Option<i64>>),
    F64(Vec<Option<Float>>),
    Str(Vec<Option<String>>),
}

/// What a [`Vector1DNull`] holds.
pub ghost enum Vector1DNullView {
    Bool(Seq<Option<bool>>),
    I64(Seq<Option<i64>>),
    F64(Seq<Option<Float>>),
    Str(Seq<Option<Seq<char>>>),
}

impl View for Vector1DNull {
    type V = Vector1DNullView;

    open spec fn view(&self) -> Vector1DNullView {
        match self {
            Vector1DNull::Bool(items) => Vector1DNullView::Bool(items.deep_view()),
            Vector1DNull::I64(items) => Vector1DNullView::I64(items.deep_view()),
            Vector1DNull::F64(items) => Vector1DNullView::F64(items.deep_view()),
            Vector1DNull::Str(items) => Vector1DNullView::Str(items.deep_view()),
        }
    }
}

impl Vector1DNull {
    /// The vector of floats, where it is one.
    pub fn float(&self) -> (r: Result<&Vec<Option<Float>>, Error>)
        ensures
            match r {
                Ok(items) => self@ == Vector1DNullView::F64(items.deep_view()),
                Err(e) => self@ !is F64 && e == Error::VectorType(DataType::F64),
            },
    {
        match self {
            Vector1DNull::F64(x) => Ok(x),
            _ => Err(Error::VectorType(DataType::F64)),
        }
    }

    /// The vector of integers, where it is one.
    pub fn i64(&self) -> (r: Result<&Vec<Option<i64>>, Error>)
        ensures
            match r {
                Ok(items) => self@ == Vector1DNullView::I64(items.deep_view()),
                Err(e) => self@ !is I64 && e == Error::VectorType(DataType::I64),
            },
    {
        match self {
            Vector1DNull::I64(x) => Ok(x),
            _ => Err(Error::VectorType(DataType::I64)),
        }
    }

    /// A copy that holds what this value holds.
    pub fn duplicate(&self) -> (r: Vector1DNull)
        ensures
            r@ == self@,
    {
        match self {
            Vector1DNull::Bool(items) => Vector1DNull::Bool(duplicate_options(items)),
            Vector1DNull::I64(items) => Vector1DNull::I64(duplicate_options(items)),
            Vector1DNull::F64(items) => Vector1DNull::F64(duplicate_options(items)),
            Vector1DNull::Str(items) => Vector1DNull::Str(duplicate_options(items)),
        }
    }
}

/// A vector of one atomic type.
#[derive(Debug, PartialEq, Eq)]
pub enum Vector1D {
    Bool(Vec<bool>),
    I64(Vec<i64>),
    F64(Vec<Float>),
    Str(Vec<String>),
}

/// What a [`Vector1D`] holds.
pub ghost enum Vector1DView {
    Bool(Seq<bool>),
    I64(Seq<i64>),
    F64(Seq<Float>),
    Str(Seq<Seq<char>>),
}

impl View for Vector1D {
    type V = Vector1DView;

    open spec fn view(&self) -> Vector1DView {
        match self {
            Vector1D::Bool(items) => Vector1DView::Bool(items.deep_view()),
            Vector1D::I64(items) => Vector1DView::I64(items.deep_view()),
            Vector1D::F64(items) => Vector1DView::F64(items.deep_view()),
            Vector1D::Str(items) => Vector1DView::Str(items.deep_view()),
        }
    }
}

/// Bounds on the data of each column.
#[derive(Debug, PartialEq, Eq)]
pub struct NatureContinuous {
    pub lower: Vector1DNull,
    pub upper: Vector1DNull,
}

/// The values that the data of each column may take.
#[derive(Debug, PartialEq, Eq)]
pub struct NatureCategorical {
    pub categories: Jagged,
}

/// What is known of the values of the data.
#[derive(Debug, PartialEq, Eq)]
pub enum Nature {
    Continuous(NatureContinuous),
    Categorical(NatureCategorical),
}

/// What a [`Nature`] holds.
pub ghost enum NatureView {
    Continuous { lower: Vector1DNullView, upper: Vector1DNullView },
    Categorical { categories: JaggedView },
}

impl View for Nature {
    type V = NatureView;

    open spec fn view(&self) -> NatureView {
        match self {
            Nature::Continuous(bounds) => NatureView::Continuous {
                lower: bounds.lower@,
                upper: bounds.upper@,
            },
            Nature::Categorical(nature) => NatureView::Categorical { categories: nature.categories@ },
        }
    }
}

impl DeepView for Nature {
    type V = NatureView;

    open spec fn deep_view(&self) -> NatureView {
        self@
    }
}

impl Nature {
    /// The bounds, where the nature is continuous.
    pub fn continuous(&self) -> (r: Result<&NatureContinuous, Error>)
        ensures
            match r {
                Ok(bounds) => *self == Nature::Continuous(*bounds),
                Err(e) => self is Categorical && e == Error::NatureNotContinuous,
            },
    {
        match self {
            Nature::Continuous(continuous) => Ok(continuous),
            _ => Err(Error::NatureNotContinuous),
        }
    }

    /// The categories, where the nature is categorical.
    pub fn categorical(&self) -> (r: Result<&NatureCategorical, Error>)
        ensures
            match r {
                Ok(nature) => *self == Nature::Categorical(*nature),
                Err(e) => self is Continuous && e == Error::NatureNotCategorical,
            },
    {
        match self {
            Nature::Categorical(categorical) => Ok(categorical),
            _ => Err(Error::NatureNotCategorical),
        }
    }

    /// A copy that holds what this value holds.
    pub fn duplicate(&self) -> (r: Nature)
        ensures
            r@ == self@,
    {
        match self {
            Nature::Continuous(bounds) => Nature::Continuous(
                NatureContinuous { lower: bounds.lower.duplicate(), upper: bounds.upper.duplicate() },
            ),
            Nature::Categorical(nature) => Nature::Categorical(
                NatureCategorical { categories: nature.categories.duplicate() },
            ),
        }
    }
}

/// The spaces in which sensitivity is measured.
#[derive(Clone, Copy, Debug, PartialEq, Eq, Structural)]
pub enum SensitivitySpace {
    /// The norm of the given order: 1 is L1, 2 is L2.
    KNorm(u32),
    /// The infinity norm.
    InfNorm,
    /// The space of the exponential mechanism.
    Exponential,
}

/// Derived properties of a jagged matrix.
#[derive(Clone, Copy, Debug, PartialEq, Eq, Structural)]
pub struct JaggedProperties {
    pub releasable: bool,
}

/// The aggregation that produced a value: the component, the properties of its
/// arguments, and a Lipschitz constant for each column of the result.
#[derive(Debug, PartialEq)]
pub struct AggregatorProperties {
    pub component: Variant,
    pub properties: Arguments<ValueProperties>,
    pub lipschitz_constants: Value,
}

/// Derived properties of an array.
#[derive(Debug, PartialEq)]
pub struct ArrayProperties {
    /// The number of records, where it is known.
    pub num_records: Option<i64>,
    /// The number of columns, where it is known.
    pub num_columns: Option<i64>,
    /// Whether the data may hold nulls.
    pub nullity: bool,
    /// Whether the data has passed a mechanism.
    pub releasable: bool,
    /// For each column, by how much a record's influence may have grown.
    pub c_stability: Vec<Float>,
    /// The aggregation that produced the data, if one did.
    pub aggregator: Option<AggregatorProperties>,
    /// Bounds or categories, where known.
    pub nature: Option<Nature>,
    pub data_type: DataType,
    /// The node at which the data set was made.
    pub dataset_id: Option<i64>,
    /// Whether the data holds at least one record.
    pub is_not_empty: bool,
    /// The number of axes.
    pub dimensionality: u32,
}

/// Derived properties of a map of values.
#[derive(Debug, PartialEq)]
pub struct HashmapProperties {
    /// The number of records over all partitions.
    pub num_records: Option<i64>,
    /// Whether the values hold the rows of a partition.
    pub disjoint: bool,
    /// The properties of each value.
    pub properties: Hashmap<ValueProperties>,
    pub columnar: bool,
}

/// Derived properties of a value.
#[derive(Debug, PartialEq)]
pub enum ValueProperties {
    Hashmap(HashmapProperties),
    Array(ArrayProperties),
    Jagged(JaggedProperties),
}

/// The properties of each argument of a node, by the argument's name.
pub type NodeProperties = Arguments<ValueProperties>;

/// What an [`AggregatorProperties`] holds.
pub ghost struct AggregatorPropertiesView {
    pub component: VariantView,
    pub properties: Map<Seq<char>, ValuePropertiesView>,
    pub lipschitz_constants: ValueView,
}

/// What an [`ArrayProperties`] holds.
pub ghost struct ArrayPropertiesView {
    pub num_records: Option<i64>,
    pub num_columns: Option<i64>,
    pub nullity: bool,
    pub releasable: bool,
    pub c_stability: Seq<Float>,
    pub aggregator: Option<AggregatorPropertiesView>,
    pub nature: Option<NatureView>,
    pub data_type: DataType,
    pub dataset_id: Option<i64>,
    pub is_not_empty: bool,
    pub dimensionality: u32,
}

/// What a [`HashmapProperties`] holds.
pub ghost struct HashmapPropertiesView {
    pub num_records: Option<i64>,
    pub disjoint: bool,
    pub properties: HashmapView<ValuePropertiesView>,
    pub columnar: bool,
}

/// What a [`ValueProperties`] holds.
pub ghost enum ValuePropertiesView {
    Hashmap(HashmapPropertiesView),
    Array(ArrayPropertiesView),
    Jagged(JaggedProperties),
}

/// What the properties of a value hold.
pub open spec fn properties_view(properties: ValueProperties) -> ValuePropertiesView
    decreases properties,
{
    match properties {
        ValueProperties::Jagged(jagged) => ValuePropertiesView::Jagged(jagged),
        ValueProperties::Array(array) => ValuePropertiesView::Array(
            ArrayPropertiesView {
                num_records: array.num_records,
                num_columns: array.num_columns,
                nullity: array.nullity,
                releasable: array.releasable,
                c_stability: array.c_stability@,
                aggregator: match array.aggregator {
                    Some(aggregator) => Some(
                        AggregatorPropertiesView {
                            component: aggregator.component@,
                            properties: Map::new(
                                |name: Seq<char>| aggregator.properties.contains(name),
                                |name: Seq<char>|
                                    if aggregator.properties.contains(name) {
                                        properties_view(aggregator.properties.value(name))
                                    } else {
                                        arbitrary()
                                    },
                            ),
                            lipschitz_constants: aggregator.lipschitz_constants@,
                        },
                    ),
                    None => None,
                },
                nature: match array.nature {
                    Some(nature) => Some(nature@),
                    None => None,
                },
                data_type: array.data_type,
                dataset_id: array.dataset_id,
                is_not_empty: array.is_not_empty,
                dimensionality: array.dimensionality,
            },
        ),
        ValueProperties::Hashmap(hashmap) => ValuePropertiesView::Hashmap(
            HashmapPropertiesView {
                num_records: hashmap.num_records,
                disjoint: hashmap.disjoint,
                properties: match hashmap.properties {
                    Hashmap::Bool(entries) => HashmapView::Bool(
                        Seq::new(
                            entries@.len(),
                            |i: int|
                                if 0 <= i < entries@.len() {
                                    (entries@[i].0, properties_view(entries@[i].1))
                                } else {
                                    arbitrary()
                                },
                        ),
                    ),
                    Hashmap::I64(entries) => HashmapView::I64(
                        Seq::new(
                            entries@.len(),
                            |i: int|
                                if 0 <= i < entries@.len() {
                                    (entries@[i].0, properties_view(entries@[i].1))
                                } else {
                                    arbitrary()
                                },
                        ),
                    ),
                    Hashmap::Str(entries) => HashmapView::Str(
                        Seq::new(
                            entries@.len(),
                            |i: int|
                                if 0 <= i < entries@.len() {
                                    (entries@[i].0@, properties_view(entries@[i].1))
                                } else {
                                    arbitrary()
                                },
                        ),
                    ),
                },
                columnar: hashmap.columnar,
            },
        ),
    }
}

impl View for ValueProperties {
    type V = ValuePropertiesView;

    open spec fn view(&self) -> ValuePropertiesView {
        properties_view(*self)
    }
}

impl DeepView for ValueProperties {
    type V = ValuePropertiesView;

    open spec fn deep_view(&self) -> ValuePropertiesView {
        properties_view(*self)
    }
}

impl View for ArrayProperties {
    type V = ArrayPropertiesView;

    open spec fn view(&self) -> ArrayPropertiesView {
        properties_view(ValueProperties::Array(*self))->Array_0
    }
}

impl View for HashmapProperties {
    type V = HashmapPropertiesView;

    open spec fn view(&self) -> HashmapPropertiesView {
        properties_view(ValueProperties::Hashmap(*self))->Hashmap_0
    }
}

impl View for AggregatorProperties {
    type V = AggregatorPropertiesView;

    open spec fn view(&self) -> AggregatorPropertiesView {
        AggregatorPropertiesView {
            component: self.component@,
            properties: self.properties@,
            lipschitz_constants: self.lipschitz_constants@,
        }
    }
}

/// The items, where all of them are known.
pub fn known_items<T: Atom>(items: &Vec<Option<T>>) -> (r: Option<Vec<T>>)
    ensures
        r is Some <==> all_known(items.deep_view()),
        r matches Some(known) ==> known.deep_view() == unwrapped(items.deep_view()),
{
    let mut known: Vec<T> = Vec::new();
    let mut i: usize = 0;
    while i < items.len()
        invariant
            i <= items.len(),
            known@.len() == i,
            forall|j: int| 0 <= j < i ==> (#[trigger] items@[j]) is Some,
            forall|j: int|
                0 <= j < i ==> (#[trigger] known@[j]).deep_view() == items@[j]->0.deep_view(),
        decreases items.len() - i,
    {
        match &items[i] {
            Some(item) => {
                known.push(item.duplicate());
            },
            None => {
                assert(items.deep_view()[i as int] is None);
                return None;
            },
        }
        i += 1;
    }
    proof {
        assert forall|j: int| 0 <= j < items.deep_view().len() implies (#[trigger] items.deep_view()[j])
            is Some by {
            assert(items@[j] is Some);
        }
        assert(known.deep_view() =~= unwrapped(items.deep_view()));
    }
    Some(known)
}

impl ArrayPropertiesView {
    /// The bound on each column of float data, where the column has one.
    pub open spec fn f64_bound_option(self, which: Bound) -> Result<Seq<Option<Float>>, Error> {
        match self.nature {
            Some(NatureView::Continuous { lower, upper }) => match (
                if which == Bound::Lower {
                    lower
                } else {
                    upper
                }
            ) {
                Vector1DNullView::F64(bound) => Ok(bound),
                _ => Err(Error::BoundType(which, DataType::F64)),
            },
            Some(_) => Err(Error::BoundNotContinuous(which)),
            None => Err(Error::BoundUndefined(which)),
        }
    }

    /// The bound on each column of float data, where every column has one.
    pub open spec fn f64_bound(self, which: Bound) -> Result<Seq<Float>, Error> {
        match self.f64_bound_option(which) {
            Ok(bound) => if all_known(bound) {
                Ok(unwrapped(bound))
            } else {
                Err(Error::BoundUnknown(which))
            },
            Err(e) => Err(e),
        }
    }

    /// The bound on each column of integer data, where the column has one.
    pub open spec fn i64_bound_option(self, which: Bound) -> Result<Seq<Option<i64>>, Error> {
        match self.nature {
            Some(NatureView::Continuous { lower, upper }) => match (
                if which == Bound::Lower {
                    lower
                } else {
                    upper
                }
            ) {
                Vector1DNullView::I64(bound) => Ok(bound),
                _ => Err(Error::BoundType(which, DataType::I64)),
            },
            Some(_) => Err(Error::BoundNotContinuous(which)),
            None => Err(Error::BoundUndefined(which)),
        }
    }

    /// The bound on each column of integer data, where every column has one.
    pub open spec fn i64_bound(self, which: Bound) -> Result<Seq<i64>, Error> {
        match self.i64_bound_option(which) {
            Ok(bound) => if all_known(bound) {
                Ok(unwrapped(bound))
            } else {
                Err(Error::BoundUnknown(which))
            },
            Err(e) => Err(e),
        }
    }

    /// The categories of each column.
    pub open spec fn categories(self) -> Result<JaggedView, Error> {
        match self.nature {
            Some(NatureView::Categorical { categories }) => Ok(categories),
            Some(_) => Err(Error::CategoriesUndefined),
            None => Err(Error::CategoricalUndefined),
        }
    }

    /// The data has categories, and those of every column are known.
    pub open spec fn assert_categorical(self) -> Result<(), Error> {
        match self.categories() {
            Ok(categories) => if all_known(categories.lengths_option()) {
                Ok(())
            } else {
                Err(Error::JaggedLengthUnknown)
            },
            Err(e) => Err(e),
        }
    }
}

impl ArrayProperties {
    /// The view of the aggregator is the view of what the field holds.
    pub proof fn lemma_aggregator_view(&self)
        ensures
            self@.aggregator == match self.aggregator {
                Some(aggregator) => Some(aggregator@),
                None => None::<AggregatorPropertiesView>,
            },
    {
        match self.aggregator {
            Some(aggregator) => {
                assert(self@.aggregator->0.properties =~= aggregator@.properties);
            },
            None => {},
        }
    }

    fn f64_bound_option(&self, which: Bound) -> (r: Result<Vec<Option<Float>>, Error>)
        ensures
            match r {
                Ok(bound) => self@.f64_bound_option(which) == Ok::<Seq<Option<Float>>, Error>(
                    bound.deep_view(),
                ),
                Err(e) => self@.f64_bound_option(which) == Err::<Seq<Option<Float>>, Error>(e),
            },
    {
        match &self.nature {
            Some(value) => match value {
                Nature::Continuous(continuous) => {
                    let side = match which {
                        Bound::Lower => &continuous.lower,
                        Bound::Upper => &continuous.upper,
                    };
                    match side {
                        Vector1DNull::F64(bound) => Ok(duplicate_options(bound)),
                        _ => Err(Error::BoundType(which, DataType::F64)),
                    }
                },
                _ => Err(Error::BoundNotContinuous(which)),
            },
            None => Err(Error::BoundUndefined(which)),
        }
    }

    fn f64_bound(&self, which: Bound) -> (r: Result<Vec<Float>, Error>)
        ensures
            match r {
                Ok(bound) => self@.f64_bound(which) == Ok::<Seq<Float>, Error>(bound@),
                Err(e) => self@.f64_bound(which) == Err::<Seq<Float>, Error>(e),
            },
    {
        let bound = match self.f64_bound_option(which) {
            Ok(bound) => bound,
            Err(e) => {
                return Err(e);
            },
        };
        match known_items(&bound) {
            Some(value) => {
                assert(value@ =~= value.deep_view());
                Ok(value)
            },
            None => Err(Error::BoundUnknown(which)),
        }
    }

    fn i64_bound_option(&self, which: Bound) -> (r: Result<Vec<Option<i64>>, Error>)
        ensures
            match r {
                Ok(bound) => self@.i64_bound_option(which) == Ok::<Seq<Option<i64>>, Error>(
                    bound.deep_view(),
                ),
                Err(e) => self@.i64_bound_option(which) == Err::<Seq<Option<i64>>, Error>(e),
            },
    {
        match &self.nature {
            Some(value) => match value {
                Nature::Continuous(continuous) => {
                    let side = match which {
                        Bound::Lower => &continuous.lower,
                        Bound::Upper => &continuous.upper,
                    };
                    match side {
                        Vector1DNull::I64(bound) => Ok(duplicate_options(bound)),
                        _ => Err(Error::BoundType(which, DataType::I64)),
                    }
                },
                _ => Err(Error::BoundNotContinuous(which)),
            },
            None => Err(Error::BoundUndefined(which)),
        }
    }

    fn i64_bound(&self, which: Bound) -> (r: Result<Vec<i64>, Error>)
        ensures
            match r {
                Ok(bound) => self@.i64_bound(which) == Ok::<Seq<i64>, Error>(bound@),
                Err(e) => self@.i64_bound(which) == Err::<Seq<i64>, Error>(e),
            },
    {
        let bound = match self.i64_bound_option(which) {
            Ok(bound) => bound,
            Err(e) => {
                return Err(e);
            },
        };
        match known_items(&bound) {
            Some(value) => {
                assert(value@ =~= value.deep_view());
                Ok(value)
            },
            None => Err(Error::BoundUnknown(which)),
        }
    }

    /// The lower bound of each column of float data, where the column has one.
    pub fn lower_f64_option(&self) -> (r: Result<Vec<Option<Float>>, Error>)
        ensures
            match r {
                Ok(bound) => self@.f64_bound_option(Bound::Lower) == Ok::<Seq<Option<Float>>, Error>(
                    bound.deep_view(),
                ),
                Err(e) => self@.f64_bound_option(Bound::Lower) == Err::<Seq<Option<Float>>, Error>(e),
            },
    {
        self.f64_bound_option(Bound::Lower)
    }

    /// The lower bound of each column of float data.
    pub fn lower_f64(&self) -> (r: Result<Vec<Float>, Error>)
        ensures
            match r {
                Ok(bound) => self@.f64_bound(Bound::Lower) == Ok::<Seq<Float>, Error>(bound@),
                Err(e) => self@.f64_bound(Bound::Lower) == Err::<Seq<Float>, Error>(e),
            },
    {
        self.f64_bound(Bound::Lower)
    }

    /// The upper bound of each column of float data, where the column has one.
    pub fn upper_f64_option(&self) -> (r: Result<Vec<Option<Float>>, Error>)
        ensures
            match r {
                Ok(bound) => self@.f64_bound_option(Bound::Upper) == Ok::<Seq<Option<Float>>, Error>(
                    bound.deep_view(),
                ),
                Err(e) => self@.f64_bound_option(Bound::Upper) == Err::<Seq<Option<Float>>, Error>(e),
            },
    {
        self.f64_bound_option(Bound::Upper)
    }

    /// The upper bound of each column of float data.
    pub fn upper_f64(&self) -> (r: Result<Vec<Float>, Error>)
        ensures
            match r {
                Ok(bound) => self@.f64_bound(Bound::Upper) == Ok::<Seq<Float>, Error>(bound@),
                Err(e) => self@.f64_bound(Bound::Upper) == Err::<Seq<Float>, Error>(e),
            },
    {
        self.f64_bound(Bound::Upper)
    }

    /// The lower bound of each column of integer data, where the column has one.
    pub fn lower_i64_option(&self) -> (r: Result<Vec<Option<i64>>, Error>)
        ensures
            match r {
                Ok(bound) => self@.i64_bound_option(Bound::Lower) == Ok::<Seq<Option<i64>>, Error>(
                    bound.deep_view(),
                ),
                Err(e) => self@.i64_bound_option(Bound::Lower) == Err::<Seq<Option<i64>>, Error>(e),
            },
    {
        self.i64_bound_option(Bound::Lower)
    }

    /// The lower bound of each column of integer data.
    pub fn lower_i64(&self) -> (r: Result<Vec<i64>, Error>)
        ensures
            match r {
                Ok(bound) => self@.i64_bound(Bound::Lower) == Ok::<Seq<i64>, Error>(bound@),
                Err(e) => self@.i64_bound(Bound::Lower) == Err::<Seq<i64>, Error>(e),
            },
    {
        self.i64_bound(Bound::Lower)
    }

    /// The upper bound of each column of integer data, where the column has one.
    pub fn upper_i64_option(&self) -> (r: Result<Vec<Option<i64>>, Error>)
        ensures
            match r {
                Ok(bound) => self@.i64_bound_option(Bound::Upper) == Ok::<Seq<Option<i64>>, Error>(
                    bound.deep_view(),
                ),
                Err(e) => self@.i64_bound_option(Bound::Upper) == Err::<Seq<Option<i64>>, Error>(e),
            },
    {
        self.i64_bound_option(Bound::Upper)
    }

    /// The upper bound of each column of integer data.
    pub fn upper_i64(&self) -> (r: Result<Vec<i64>, Error>)
        ensures
            match r {
                Ok(bound) => self@.i64_bound(Bound::Upper) == Ok::<Seq<i64>, Error>(bound@),
                Err(e) => self@.i64_bound(Bound::Upper) == Err::<Seq<i64>, Error>(e),
            },
    {
        self.i64_bound(Bound::Upper)
    }

    /// The categories of each column.
    pub fn categories(&self) -> (r: Result<Jagged, Error>)
        ensures
            match r {
                Ok(categories) => self@.categories() == Ok::<JaggedView, Error>(categories@),
                Err(e) => self@.categories() == Err::<JaggedView, Error>(e),
            },
    {
        match &self.nature {
            Some(nature) => match nature {
                Nature::Categorical(nature) => Ok(nature.categories.duplicate()),
                _ => Err(Error::CategoriesUndefined),
            },
            None => Err(Error::CategoricalUndefined),
        }
    }

    /// Refuses data without categories known for every column.
    pub fn assert_categorical(&self) -> (r: Result<(), Error>)
        ensures
            r == self@.assert_categorical(),
    {
        let categories = match self.categories() {
            Ok(categories) => categories,
            Err(e) => {
                return Err(e);
            },
        };
        match categories.lengths() {
            Ok(_) => Ok(()),
            Err(e) => Err(e),
        }
    }

    /// Refuses data that may hold nulls.
    pub fn assert_non_null(&self) -> (r: Result<(), Error>)
        ensures
            r == (if self@.nullity {
                Err::<(), Error>(Error::Nullity)
            } else {
                Ok::<(), Error>(())
            }),
    {
        if self.nullity {
            Err(Error::Nullity)
        } else {
            Ok(())
        }
    }

    /// Refuses data that may be empty.
    pub fn assert_is_not_empty(&self) -> (r: Result<(), Error>)
        ensures
            r == (if self@.is_not_empty {
                Ok::<(), Error>(())
            } else {
                Err::<(), Error>(Error::Empty)
            }),
    {
        if self.is_not_empty {
            Ok(())
        } else {
            Err(Error::Empty)
        }
    }

    /// Refuses data that is not releasable.
    pub fn assert_is_releasable(&self) -> (r: Result<(), Error>)
        ensures
            r == (if self@.releasable {
                Ok::<(), Error>(())
            } else {
                Err::<(), Error>(Error::NotReleasable)
            }),
    {
        if self.releasable {
            Ok(())
        } else {
            Err(Error::NotReleasable)
        }
    }

    /// The number of columns, where it is known.
    pub fn num_columns(&self) -> (r: Result<i64, Error>)
        ensures
            r == match self@.num_columns {
                Some(n) => Ok::<i64, Error>(n),
                None => Err::<i64, Error>(Error::ColumnsUnknown),
            },
    {
        match self.num_columns {
            Some(n) => Ok(n),
            None => Err(Error::ColumnsUnknown),
        }
    }

    /// The number of records, where it is known.
    pub fn num_records(&self) -> (r: Result<i64, Error>)
        ensures
            r == match self@.num_records {
                Some(n) => Ok::<i64, Error>(n),
                None => Err::<i64, Error>(Error::RecordsUnknown),
            },
    {
        match self.num_records {
            Some(n) => Ok(n),
            None => Err(Error::RecordsUnknown),
        }
    }

    /// Refuses data that an aggregation produced.
    pub fn assert_is_not_aggregated(&self) -> (r: Result<(), Error>)
        ensures
            r == (if self@.aggregator is Some {
                Err::<(), Error>(Error::Aggregated)
            } else {
                Ok::<(), Error>(())
            }),
    {
        if self.aggregator.is_some() {
            Err(Error::Aggregated)
        } else {
            Ok(())
        }
    }

    /// A copy that holds what this value holds.
    pub fn duplicate(&self) -> (r: ArrayProperties)
        ensures
            r@ == self@,
        decreases self,
    {
        let aggregator = match &self.aggregator {
            Some(aggregator) => {
                proof {
                    assert(decreases_to!(*self => self.aggregator));
                    assert(decreases_to!(self.aggregator => self.aggregator->0));
                    assert(decreases_to!(*aggregator => aggregator.properties));
                }
                Some(
                    AggregatorProperties {
                        component: aggregator.component.duplicate(),
                        properties: duplicate_properties(&aggregator.properties),
                        lipschitz_constants: aggregator.lipschitz_constants.duplicate(),
                    },
                )
            },
            None => None,
        };
        let nature = match &self.nature {
            Some(nature) => Some(nature.duplicate()),
            None => None,
        };
        let c_stability = self.c_stability.clone();
        assert(c_stability@ =~= self.c_stability@);
        let r = ArrayProperties {
            num_records: self.num_records,
            num_columns: self.num_columns,
            nullity: self.nullity,
            releasable: self.releasable,
            c_stability,
            aggregator,
            nature,
            data_type: self.data_type,
            dataset_id: self.dataset_id,
            is_not_empty: self.is_not_empty,
            dimensionality: self.dimensionality,
        };
        proof {
            r.lemma_aggregator_view();
            self.lemma_aggregator_view();
        }
        r
    }
}

/// A copy of the properties of a node's arguments.
pub fn duplicate_properties(properties: &Arguments<ValueProperties>) -> (r: Arguments<ValueProperties>)
    ensures
        r@ == properties@,
    decreases properties,
{
    let mut entries: Vec<(String, ValueProperties)> = Vec::new();
    let mut i: usize = 0;
    while i < properties.entries.len()
        invariant
            i <= properties.entries.len(),
            entries@.len() == i,
            forall|j: int|
                0 <= j < i ==> (#[trigger] entries@[j]).0@ == properties.entries@[j].0@
                    && entries@[j].1@ == properties.entries@[j].1@,
        decreases properties.entries.len() - i,
    {
        proof {
            assert(decreases_to!(*properties => properties.entries));
            assert(decreases_to!(properties.entries => properties.entries@[i as int]));
            assert(decreases_to!(properties.entries@[i as int] => properties.entries@[i as int].1));
        }
        let copy = properties.entries[i].1.duplicate();
        entries.push((properties.entries[i].0.clone(), copy));
        i += 1;
    }
    let r = Arguments { index: index_clone(&properties.index), entries };
    assert(r@ =~= properties@);
    r
}

impl AggregatorProperties {
    /// The aggregation by `component` of arguments with the given properties,
    /// with the Lipschitz constant 1 for each of `num_columns` columns.
    pub fn new(component: Variant, properties: Arguments<ValueProperties>, num_columns: i64) -> (r:
        AggregatorProperties)
        ensures
            r@ == (AggregatorPropertiesView {
                component: component@,
                properties: properties@,
                lipschitz_constants: unit_constants(num_columns),
            }),
    {
        let ones = repeat(Float::one(), num_columns);
        let row = NdArray::row(ones);
        assert(row@.items =~= repeated(Float { bits: crate::float::ONE_BITS }, num_columns as int));
        AggregatorProperties {
            component,
            properties,
            lipschitz_constants: Value::Array(Array::F64(row)),
        }
    }

    /// A copy that holds what this value holds.
    pub fn duplicate(&self) -> (r: AggregatorProperties)
        ensures
            r@ == self@,
    {
        AggregatorProperties {
            component: self.component.duplicate(),
            properties: duplicate_properties(&self.properties),
            lipschitz_constants: self.lipschitz_constants.duplicate(),
        }
    }
}

/// One record that holds the constant 1 for each of `num_columns` columns.
pub open spec fn unit_constants(num_columns: i64) -> ValueView {
    let ones = repeated(Float { bits: crate::float::ONE_BITS }, num_columns as int);
    ValueView::Array(
        ArrayView::F64(NdArrayView { shape: seq![1usize, ones.len() as usize], items: ones }),
    )
}

impl HashmapProperties {
    /// Refuses partitions that are marked disjoint.
    pub fn assert_is_disjoint(&self) -> (r: Result<(), Error>)
        ensures
            r == (if self@.disjoint {
                Err::<(), Error>(Error::Disjoint)
            } else {
                Ok::<(), Error>(())
            }),
    {
        if self.disjoint {
            Err(Error::Disjoint)
        } else {
            Ok(())
        }
    }

    /// Refuses partitions by columns.
    pub fn assert_is_not_columnar(&self) -> (r: Result<(), Error>)
        ensures
            r == (if self@.columnar {
                Err::<(), Error>(Error::Columnar)
            } else {
                Ok::<(), Error>(())
            }),
    {
        if self.columnar {
            Err(Error::Columnar)
        } else {
            Ok(())
        }
    }

    /// The number of records over all partitions, where it is known.
    pub fn num_records(&self) -> (r: Result<i64, Error>)
        ensures
            r == match self@.num_records {
                Some(n) => Ok::<i64, Error>(n),
                None => Err::<i64, Error>(Error::PartitionRecordsUnknown),
            },
    {
        match self.num_records {
            Some(n) => Ok(n),
            None => Err(Error::PartitionRecordsUnknown),
        }
    }
}

impl ValueProperties {
    /// The properties of an array, where they are such.
    pub fn array(&self) -> (r: Result<&ArrayProperties, Error>)
        ensures
            match r {
                Ok(array) => *self == ValueProperties::Array(*array) && self@
                    == ValuePropertiesView::Array(array@),
                Err(e) => self@ !is Array && e == Error::PropertiesNotArray,
            },
    {
        match self {
            ValueProperties::Array(array) => Ok(array),
            _ => Err(Error::PropertiesNotArray),
        }
    }

    /// The properties of a map, where they are such.
    pub fn hashmap(&self) -> (r: Result<&HashmapProperties, Error>)
        ensures
            match r {
                Ok(hashmap) => *self == ValueProperties::Hashmap(*hashmap) && self@
                    == ValuePropertiesView::Hashmap(hashmap@),
                Err(e) => self@ !is Hashmap && e == Error::PropertiesNotHashmap,
            },
    {
        match self {
            ValueProperties::Hashmap(value) => Ok(value),
            _ => Err(Error::PropertiesNotHashmap),
        }
    }

    /// The properties of a jagged matrix, where they are such.
    pub fn jagged(&self) -> (r: Result<&JaggedProperties, Error>)
        ensures
            match r {
                Ok(jagged) => self@ == ValuePropertiesView::Jagged(*jagged),
                Err(e) => self@ !is Jagged && e == Error::PropertiesNotJagged,
            },
    {
        match self {
            ValueProperties::Jagged(value) => Ok(value),
            _ => Err(Error::PropertiesNotJagged),
        }
    }

    /// A copy that holds what this value holds.
    pub fn duplicate(&self) -> (r: ValueProperties)
        ensures
            r@ == self@,
        decreases self,
    {
        match self {
            ValueProperties::Jagged(jagged) => ValueProperties::Jagged(*jagged),
            ValueProperties::Array(array) => {
                proof {
                    assert(decreases_to!(*self => self->Array_0));
                }
                ValueProperties::Array(array.duplicate())
            },
            ValueProperties::Hashmap(hashmap) => {
                proof {
                    assert(decreases_to!(*self => self->Hashmap_0));
                    assert(decreases_to!(*hashmap => hashmap.properties));
                }
                let properties = match &hashmap.properties {
                    Hashmap::Bool(entries) => {
                        proof {
                            assert(decreases_to!(hashmap.properties => hashmap.properties->Bool_0));
                        }
                        let mut out: Vec<(bool, ValueProperties)> = Vec::new();
                        let mut i: usize = 0;
                        while i < entries.len()
                            invariant
                                decreases_to!(*self => *entries),
                                i <= entries.len(),
                                out@.len() == i,
                                forall|j: int|
                                    0 <= j < i ==> (#[trigger] out@[j]).0 == entries@[j].0
                                        && out@[j].1@ == entries@[j].1@,
                            decreases entries.len() - i,
                        {
                            proof {
                                assert(decreases_to!(*entries => entries@[i as int]));
                                assert(decreases_to!(entries@[i as int] => entries@[i as int].1));
                            }
                            let copy = entries[i].1.duplicate();
                            out.push((entries[i].0, copy));
                            i += 1;
                        }
                        Hashmap::Bool(out)
                    },
                    Hashmap::I64(entries) => {
                        proof {
                            assert(decreases_to!(hashmap.properties => hashmap.properties->I64_0));
                        }
                        let mut out: Vec<(i64, ValueProperties)> = Vec::new();
                        let mut i: usize = 0;
                        while i < entries.len()
                            invariant
                                decreases_to!(*self => *entries),
                                i <= entries.len(),
                                out@.len() == i,
                                forall|j: int|
                                    0 <= j < i ==> (#[trigger] out@[j]).0 == entries@[j].0
                                        && out@[j].1@ == entries@[j].1@,
                            decreases entries.len() - i,
                        {
                            proof {
                                assert(decreases_to!(*entries => entries@[i as int]));
                                assert(decreases_to!(entries@[i as int] => entries@[i as int].1));
                            }
                            let copy = entries[i].1.duplicate();
                            out.push((entries[i].0, copy));
                            i += 1;
                        }
                        Hashmap::I64(out)
                    },
                    Hashmap::Str(entries) => {
                        proof {
                            assert(decreases_to!(hashmap.properties => hashmap.properties->Str_0));
                        }
                        let mut out: Vec<(String, ValueProperties)> = Vec::new();
                        let mut i: usize = 0;
                        while i < entries.len()
                            invariant
                                decreases_to!(*self => *entries),
                                i <= entries.len(),
                                out@.len() == i,
                                forall|j: int|
                                    0 <= j < i ==> (#[trigger] out@[j]).0@ == entries@[j].0@
                                        && out@[j].1@ == entries@[j].1@,
                            decreases entries.len() - i,
                        {
                            proof {
                                assert(decreases_to!(*entries => entries@[i as int]));
                                assert(decreases_to!(entries@[i as int] => entries@[i as int].1));
                            }
                            let copy = entries[i].1.duplicate();
                            out.push((entries[i].0.clone(), copy));
                            i += 1;
                        }
                        Hashmap::Str(out)
                    },
                };
                let r = ValueProperties::Hashmap(
                    HashmapProperties {
                        num_records: hashmap.num_records,
                        disjoint: hashmap.disjoint,
                        properties,
                        columnar: hashmap.columnar,
                    },
                );
                proof {
                    match hashmap.properties {
                        Hashmap::Bool(_) => {
                            assert(r@->Hashmap_0.properties->Bool_0 =~= self@->Hashmap_0.properties->Bool_0);
                        },
                        Hashmap::I64(_) => {
                            assert(r@->Hashmap_0.properties->I64_0 =~= self@->Hashmap_0.properties->I64_0);
                        },
                        Hashmap::Str(_) => {
                            assert(r@->Hashmap_0.properties->Str_0 =~= self@->Hashmap_0.properties->Str_0);
                        },
                    }
                }
                r
            },
        }
    }
}

/// The value of a node, what producing it spent, and whether it is public.
#[derive(Debug, PartialEq)]
pub struct ReleaseNode {
    pub value: Value,
    pub privacy_usages: Option<Vec<PrivacyUsage>>,
    pub public: bool,
}

/// What a [`ReleaseNode`] holds.
pub ghost struct ReleaseNodeView {
    pub value: ValueView,
    pub privacy_usages: Option<Seq<PrivacyUsage>>,
    pub public: bool,
}

impl View for ReleaseNode {
    type V = ReleaseNodeView;

    open spec fn view(&self) -> ReleaseNodeView {
        ReleaseNodeView {
            value: self.value@,
            privacy_usages: match self.privacy_usages {
                Some(usages) => Some(usages@),
                None => None,
            },
            public: self.public,
        }
    }
}

impl DeepView for ReleaseNode {
    type V = ReleaseNodeView;

    open spec fn deep_view(&self) -> ReleaseNodeView {
        self@
    }
}

impl ReleaseNode {
    /// A private value on which no privacy was spent.
    pub fn new(value: Value) -> (r: ReleaseNode)
        ensures
            r@ == (ReleaseNodeView { value: value@, privacy_usages: None, public: false }),
    {
        ReleaseNode { value, privacy_usages: None, public: false }
    }
}

} // verus!
