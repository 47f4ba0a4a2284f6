//! Helpers that the evaluation of several components shares.

use crate::array::{columns, extent, records, NdArray, NdArrayView};
use crate::atom::Atom;
use crate::errors::Error;
use vstd::prelude::*;

verus! {

/// The number of columns of data: 1 for one axis, the length of the second
/// axis for two. A scalar is no data, and neither is what has more columns
/// than a signed integer counts.
pub open spec fn num_columns_of(shape: Seq<usize>) -> Result<i64, Error> {
    if shape.len() == 0 {
        Err(Error::Shape)
    } else if shape.len() == 1 {
        Ok(1i64)
    } else if shape[1] > i64::MAX {
        Err(Error::Shape)
    } else {
        Ok(shape[1] as i64)
    }
}

/// The number of columns of data.
pub fn get_num_columns<T>(data: &NdArray<T>) -> (r: Result<i64, Error>)
    ensures
        r == num_columns_of(data.dimensions()),
{
    let shape = data.shape();
    if shape.len() == 0 {
        Err(Error::Shape)
    } else if shape.len() == 1 {
        Ok(1)
    } else if shape[1] as u64 > i64::MAX as u64 {
        Err(Error::Shape)
    } else {
        Ok(shape[1] as i64)
    }
}

/// The shape with `ndim` axes that holds the same items: axes of length one
/// are added at the end, or taken from the end.
pub open spec fn reshaped(shape: Seq<usize>, ndim: int) -> Result<Seq<usize>, Error> {
    if ndim < 0 || ndim > 2 {
        Err(Error::Shape)
    } else if ndim >= shape.len() {
        Ok(shape + Seq::new((ndim - shape.len()) as nat, |i: int| 1usize))
    } else if forall|i: int| ndim <= i < shape.len() ==> shape[i] == 1 {
        Ok(shape.take(ndim))
    } else {
        Err(Error::Shape)
    }
}

/// The array with `ndim` axes that holds the same items. Only axes of length
/// one can be taken away.
pub fn to_nd<T>(array: NdArray<T>, ndim: &usize) -> (r: Result<NdArray<T>, Error>)
    ensures
        match r {
            Ok(result) => reshaped(array.dimensions(), *ndim as int) == Ok::<Seq<usize>, Error>(
                result.dimensions(),
            ) && result.elements() == array.elements(),
            Err(e) => reshaped(array.dimensions(), *ndim as int) == Err::<Seq<usize>, Error>(e),
        },
{
    let (shape, items) = array.into_parts();
    if *ndim > 2 {
        return Err(Error::Shape);
    }
    let mut shape = shape;
    let ghost given = shape@;
    if *ndim >= shape.len() {
        while shape.len() < *ndim
            invariant
                given.len() <= shape@.len() <= *ndim <= 2,
                extent(shape@) == extent(given),
                shape@ == given + Seq::new((shape@.len() - given.len()) as nat, |i: int| 1usize),
            decreases *ndim - shape.len(),
        {
            let ghost before = shape@;
            shape.push(1);
            proof {
                assert(shape@ =~= given + Seq::new(
                    (shape@.len() - given.len()) as nat,
                    |i: int| 1usize,
                ));
                assert(extent(shape@) == extent(before)) by (nonlinear_arith)
                    requires
                        before.len() < 2,
                        shape@ == before.push(1usize),
                        extent(shape@) == (if shape@.len() == 1 {
                            shape@[0] as int
                        } else {
                            shape@[0] * shape@[1]
                        }),
                        extent(before) == (if before.len() == 0 {
                            1
                        } else {
                            before[0] as int
                        }),
                        shape@[shape@.len() - 1] == 1,
                        before.len() == 1 ==> shape@[0] == before[0],
                ;
            }
        }
    } else {
        while shape.len() > *ndim
            invariant
                given == array.dimensions(),
                *ndim <= shape@.len() <= given.len() <= 2,
                extent(shape@) == extent(given),
                shape@ == given.take(shape@.len() as int),
                forall|i: int| shape@.len() <= i < given.len() ==> given[i] == 1,
            decreases shape.len(),
        {
            let last = shape[shape.len() - 1];
            if last != 1 {
                proof {
                    assert(given[shape@.len() - 1] != 1);
                }
                return Err(Error::Shape);
            }
            let ghost before = shape@;
            shape.pop();
            proof {
                assert(shape@ =~= given.take(shape@.len() as int));
                assert(extent(shape@) == extent(before)) by (nonlinear_arith)
                    requires
                        1 <= before.len() <= 2,
                        shape@ == before.drop_last(),
                        before[before.len() - 1] == 1,
                        extent(before) == (if before.len() == 1 {
                            before[0] as int
                        } else {
                            before[0] * before[1]
                        }),
                        extent(shape@) == (if shape@.len() == 0 {
                            1
                        } else {
                            shape@[0] as int
                        }),
                        before.len() == 2 ==> shape@[0] == before[0],
                ;
            }
        }
    }
    Ok(NdArray::assemble(shape, items))
}

/// Whether an array of the given shape, with axes of length one added at its
/// end, can be broadcast to the target: it has as many records as the target,
/// or one, and as many columns, or one.
pub open spec fn broadcasts_to(shape: Seq<usize>, target: Seq<usize>) -> bool {
    &&& shape.len() <= target.len()
    &&& records(shape) == records(target) || records(shape) == 1
    &&& columns(shape) == columns(target) || columns(shape) == 1
}

/// The place in an array that is broadcast to the given record and column:
/// of an array of one record its only record, and of an array of one column
/// its only column.
pub open spec fn broadcast_index(shape: Seq<usize>, record: int, column: int) -> int {
    (if records(shape) == 1 {
        0
    } else {
        record
    }) * columns(shape) + (if columns(shape) == 1 {
        0
    } else {
        column
    })
}

fn broadcast_item<'a, T>(array: &'a NdArray<T>, target: &Vec<usize>, record: usize, column: usize) -> (r:
    &'a T)
    requires
        target@.len() <= 2,
        broadcasts_to(array.dimensions(), target@),
        record < records(target@),
        column < columns(target@),
    ensures
        0 <= broadcast_index(array.dimensions(), record as int, column as int)
            < array.elements().len(),
        *r == array.elements()[broadcast_index(array.dimensions(), record as int, column as int)],
{
    let height = array.num_records();
    let width = array.num_columns();
    let row = if height == 1 {
        0
    } else {
        record
    };
    let offset = if width == 1 {
        0
    } else {
        column
    };
    array.item(row, offset)
}

/// `results` holds, for each record and column of the shape, what the operator
/// may give for the items that the two arrays are broadcast to there.
pub open spec fn is_broadcast_map<T, U, F: Fn(&T, &T) -> U>(
    operator: F,
    left: NdArray<T>,
    right: NdArray<T>,
    shape: Seq<usize>,
    results: Seq<U>,
) -> bool {
    &&& results.len() == records(shape) * columns(shape)
    &&& forall|record: int, column: int|
        0 <= record < records(shape) && 0 <= column < columns(shape) ==> call_ensures(
            operator,
            (
                &left.elements()[broadcast_index(left.dimensions(), record, column)],
                &right.elements()[broadcast_index(right.dimensions(), record, column)],
            ),
            #[trigger] results[record * columns(shape) + column],
        )
}

/// The shape that two arrays are broadcast to.
pub open spec fn target_shape<T>(left: NdArray<T>, right: NdArray<T>) -> Seq<usize> {
    if left.dimensions().len() < right.dimensions().len() {
        right.dimensions()
    } else if left.dimensions().len() > right.dimensions().len() {
        left.dimensions()
    } else if left.elements().len() > right.elements().len() {
        left.dimensions()
    } else {
        right.dimensions()
    }
}

/// Maps an operator over the pairs of items of two arrays, each array
/// broadcast to the shape of the larger. It is refused where an array cannot
/// be broadcast: where along an axis it is neither as long as the other nor
/// of length one.
pub fn broadcast_map<T, U, F: Fn(&T, &T) -> U>(left: &NdArray<T>, right: &NdArray<T>, operator: &F) -> (r:
    Result<NdArray<U>, Error>)
    requires
        forall|l: &T, r: &T| call_requires(*operator, (l, r)),
    ensures
        match r {
            Ok(mapped) => {
                &&& broadcasts_to(left.dimensions(), target_shape(*left, *right))
                &&& broadcasts_to(right.dimensions(), target_shape(*left, *right))
                &&& mapped.dimensions() == target_shape(*left, *right)
                &&& is_broadcast_map(
                    *operator,
                    *left,
                    *right,
                    target_shape(*left, *right),
                    mapped.elements(),
                )
            },
            Err(e) => e == Error::Shape && !(broadcasts_to(
                left.dimensions(),
                target_shape(*left, *right),
            ) && broadcasts_to(right.dimensions(), target_shape(*left, *right))),
        },
{
    let shape = if left.ndim() < right.ndim() {
        right.shape().clone()
    } else if left.ndim() > right.ndim() {
        left.shape().clone()
    } else if left.len() > right.len() {
        left.shape().clone()
    } else {
        right.shape().clone()
    };
    assert(shape@ =~= target_shape(*left, *right));
    let height = if shape.len() == 0 {
        1
    } else {
        shape[0]
    };
    let width = if shape.len() < 2 {
        1
    } else {
        shape[1]
    };
    let fits = (left.num_records() == height || left.num_records() == 1) && (left.num_columns()
        == width || left.num_columns() == 1) && (right.num_records() == height
        || right.num_records() == 1) && (right.num_columns() == width || right.num_columns() == 1);
    if !fits {
        return Err(Error::Shape);
    }
    let count = if left.ndim() < right.ndim() {
        right.len()
    } else if left.ndim() > right.ndim() {
        left.len()
    } else if left.len() > right.len() {
        left.len()
    } else {
        right.len()
    };
    proof {
        assert(count == extent(shape@));
        assert(extent(shape@) == height * width) by (nonlinear_arith)
            requires
                shape@.len() <= 2,
                extent(shape@) == (if shape@.len() == 0 {
                    1
                } else if shape@.len() == 1 {
                    shape@[0] as int
                } else {
                    shape@[0] * shape@[1]
                }),
                height == (if shape@.len() == 0 {
                    1
                } else {
                    shape@[0] as int
                }),
                width == (if shape@.len() < 2 {
                    1
                } else {
                    shape@[1] as int
                }),
        ;
    }
    let mut out: Vec<U> = Vec::new();
    let mut record: usize = 0;
    while record < height
        invariant
            forall|l: &T, r: &T| call_requires(*operator, (l, r)),
            shape@.len() <= 2,
            height == records(shape@),
            width == columns(shape@),
            height * width == count,
            broadcasts_to(left.dimensions(), shape@),
            broadcasts_to(right.dimensions(), shape@),
            record <= height,
            out@.len() == record * width,
            forall|i: int, j: int|
                0 <= i < record && 0 <= j < width ==> call_ensures(
                    *operator,
                    (
                        &left.elements()[broadcast_index(left.dimensions(), i, j)],
                        &right.elements()[broadcast_index(right.dimensions(), i, j)],
                    ),
                    #[trigger] out@[i * width + j],
                ),
        decreases height - record,
    {
        let mut column: usize = 0;
        while column < width
            invariant
                forall|l: &T, r: &T| call_requires(*operator, (l, r)),
                shape@.len() <= 2,
                height == records(shape@),
                width == columns(shape@),
                height * width == count,
                broadcasts_to(left.dimensions(), shape@),
                broadcasts_to(right.dimensions(), shape@),
                record < height,
                column <= width,
                out@.len() == record * width + column,
                forall|i: int, j: int|
                    (0 <= i < record && 0 <= j < width) || (i == record && 0 <= j < column)
                        ==> call_ensures(
                        *operator,
                        (
                            &left.elements()[broadcast_index(left.dimensions(), i, j)],
                            &right.elements()[broadcast_index(right.dimensions(), i, j)],
                        ),
                        #[trigger] out@[i * width + j],
                    ),
            decreases width - column,
        {
            let l = broadcast_item(left, &shape, record, column);
            let r = broadcast_item(right, &shape, record, column);
            let ghost before = out@;
            out.push(operator(l, r));
            proof {
                assert forall|i: int, j: int|
                    (0 <= i < record && 0 <= j < width) || (i == record && 0 <= j < column
                        + 1) implies call_ensures(
                    *operator,
                    (
                        &left.elements()[broadcast_index(left.dimensions(), i, j)],
                        &right.elements()[broadcast_index(right.dimensions(), i, j)],
                    ),
                    #[trigger] out@[i * width + j],
                ) by {
                    assert(0 <= i * width + j <= record * width + column) by (nonlinear_arith)
                        requires
                            0 <= i <= record,
                            0 <= j,
                            (i < record && j < width) || (i == record && j <= column),
                            0 <= width,
                    ;
                    if i * width + j < record * width + column {
                        assert(out@[i * width + j] == before[i * width + j]);
                        assert(i != record || j != column) by (nonlinear_arith)
                            requires
                                i * width + j < record * width + column,
                        ;
                    } else {
                        assert(i == record && j == column) by (nonlinear_arith)
                            requires
                                i * width + j == record * width + column,
                                0 <= i <= record,
                                0 <= j,
                                (i < record && j < width) || (i == record && j <= column),
                                0 <= width,
                        ;
                    }
                }
            }
            column += 1;
        }
        proof {
            assert((record + 1) * width == record * width + width) by (nonlinear_arith);
        }
        record += 1;
    }
    proof {
        assert(out@.len() == height * width) by (nonlinear_arith)
            requires
                out@.len() == record * width,
                record == height,
        ;
    }
    Ok(NdArray::assemble(shape, out))
}

/// `results` holds, for each record and column of the data, what the operator
/// may give for the item there and the number of its column.
pub open spec fn is_mapped_by_column<T, U, F: Fn(&T, usize) -> U>(
    operator: F,
    data: NdArray<T>,
    results: Seq<U>,
) -> bool {
    &&& results.len() == data.elements().len()
    &&& forall|record: int, column: int|
        0 <= record < records(data.dimensions()) && 0 <= column < columns(data.dimensions())
            ==> call_ensures(
            operator,
            (
                &data.elements()[record * columns(data.dimensions()) + column],
                column as usize,
            ),
            #[trigger] results[record * columns(data.dimensions()) + column],
        )
}

/// Maps an operator over the items of data, each with the number of its
/// column.
pub fn map_by_column<T, U, F: Fn(&T, usize) -> U>(data: &NdArray<T>, operator: &F) -> (r: NdArray<U>)
    requires
        forall|item: &T, column: usize|
            column < columns(data.dimensions()) ==> call_requires(*operator, (item, column)),
    ensures
        r.dimensions() == data.dimensions(),
        is_mapped_by_column(*operator, *data, r.elements()),
{
    let height = data.num_records();
    let width = data.num_columns();
    let count = data.len();
    let mut out: Vec<U> = Vec::new();
    let mut record: usize = 0;
    while record < height
        invariant
            forall|item: &T, column: usize|
                column < columns(data.dimensions()) ==> call_requires(*operator, (item, column)),
            height == records(data.dimensions()),
            width == columns(data.dimensions()),
            height * width == count,
            count == data.elements().len(),
            record <= height,
            out@.len() == record * width,
            forall|i: int, j: int|
                0 <= i < record && 0 <= j < width ==> call_ensures(
                    *operator,
                    (&data.elements()[i * width + j], j as usize),
                    #[trigger] out@[i * width + j],
                ),
        decreases height - record,
    {
        let mut column: usize = 0;
        while column < width
            invariant
                forall|item: &T, column: usize|
                    column < columns(data.dimensions()) ==> call_requires(*operator, (item, column)),
                height == records(data.dimensions()),
                width == columns(data.dimensions()),
                height * width == count,
                count == data.elements().len(),
                record < height,
                column <= width,
                out@.len() == record * width + column,
                forall|i: int, j: int|
                    (0 <= i < record && 0 <= j < width) || (i == record && 0 <= j < column)
                        ==> call_ensures(
                        *operator,
                        (&data.elements()[i * width + j], j as usize),
                        #[trigger] out@[i * width + j],
                    ),
            decreases width - column,
        {
            let item = data.item(record, column);
            let ghost before = out@;
            out.push(operator(item, column));
            proof {
                assert forall|i: int, j: int|
                    (0 <= i < record && 0 <= j < width) || (i == record && 0 <= j < column
                        + 1) implies call_ensures(
                    *operator,
                    (&data.elements()[i * width + j], j as usize),
                    #[trigger] out@[i * width + j],
                ) by {
                    assert(0 <= i * width + j <= record * width + column) by (nonlinear_arith)
                        requires
                            0 <= i <= record,
                            0 <= j,
                            (i < record && j < width) || (i == record && j <= column),
                            0 <= width,
                    ;
                    if i * width + j < record * width + column {
                        assert(out@[i * width + j] == before[i * width + j]);
                        assert(i != record || j != column) by (nonlinear_arith)
                            requires
                                i * width + j < record * width + column,
                        ;
                    } else {
                        assert(i == record && j == column) by (nonlinear_arith)
                            requires
                                i * width + j == record * width + column,
                                0 <= i <= record,
                                0 <= j,
                                (i < record && j < width) || (i == record && j <= column),
                                0 <= width,
                        ;
                    }
                }
            }
            column += 1;
        }
        proof {
            assert((record + 1) * width == record * width + width) by (nonlinear_arith);
        }
        record += 1;
    }
    proof {
        assert(out@.len() == height * width) by (nonlinear_arith)
            requires
                out@.len() == record * width,
                record == height,
        ;
    }
    let shape = data.shape().clone();
    assert(shape@ =~= data.dimensions());
    NdArray::assemble(shape, out)
}

/// A numeric argument as one value for each of `length` columns: the values
/// of a scalar or a vector as given where there are `length` of them, and the
/// one value `length` times where only one is given.
pub open spec fn standardized_numeric<T>(value: NdArrayView<T>, length: i64) -> Result<Seq<T>, Error> {
    if value.shape.len() > 1 {
        Err(Error::Shape)
    } else if value.items.len() == length {
        Ok(value.items)
    } else if value.items.len() == 1 {
        Ok(crate::base::repeated(value.items[0], length as int))
    } else {
        Err(Error::Shape)
    }
}

/// A numeric argument as one value for each of `length` columns.
pub fn standardize_numeric_argument<T: Atom>(value: &NdArray<T>, length: i64) -> (r: Result<
    Vec<T>,
    Error,
>)
    ensures
        match r {
            Ok(values) => standardized_numeric(value@, length) == Ok::<Seq<T::V>, Error>(
                values.deep_view(),
            ),
            Err(e) => standardized_numeric(value@, length) == Err::<Seq<T::V>, Error>(e),
        },
{
    if value.ndim() > 1 {
        return Err(Error::Shape);
    }
    let items = value.items();
    assert(value@.items =~= items.deep_view());
    if length >= 0 && items.len() as u64 == length as u64 {
        return Ok(crate::atom::duplicate_items(items));
    }
    if items.len() == 1 {
        let mut out: Vec<T> = Vec::new();
        let mut i: i64 = 0;
        while i < length
            invariant
                0 <= i,
                i <= length || (length < 0 && i == 0),
                items@.len() == 1,
                out@.len() == i,
                forall|j: int| 0 <= j < i ==> (#[trigger] out@[j]).deep_view() == items@[0].deep_view(),
            decreases length - i,
        {
            out.push(items[0].duplicate());
            i += 1;
        }
        assert(out.deep_view() =~= crate::base::repeated(items.deep_view()[0], length as int));
        return Ok(out);
    }
    Err(Error::Shape)
}

/// The column of the item at the given place of an array.
pub open spec fn column_at(shape: Seq<usize>, place: int) -> int {
    place % columns(shape)
}

/// A place of an array lies in one record and one column.
pub proof fn lemma_place(shape: Seq<usize>, place: int)
    requires
        0 <= place < records(shape) * columns(shape),
    ensures
        0 <= place / columns(shape) < records(shape),
        0 <= column_at(shape, place) < columns(shape),
        (place / columns(shape)) * columns(shape) + column_at(shape, place) == place,
{
    let width = columns(shape);
    assert(width > 0) by (nonlinear_arith)
        requires
            0 <= place < records(shape) * width,
            width >= 0,
            records(shape) >= 0,
    ;
    vstd::arithmetic::div_mod::lemma_fundamental_div_mod(place, width);
    vstd::arithmetic::div_mod::lemma_mod_bound(place, width);
    vstd::arithmetic::div_mod::lemma_div_pos_is_pos(place, width);
    assert(place / width < records(shape)) by (nonlinear_arith)
        requires
            place == width * (place / width) + place % width,
            0 <= place % width < width,
            place < records(shape) * width,
            width > 0,
    ;
    assert((place / width) * width == width * (place / width)) by (nonlinear_arith);
}

} // verus!
