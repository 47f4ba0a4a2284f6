//! Resizing of data: records and columns are added from synthetic data, or
//! taken away by a selection that is drawn.

use crate::array::{columns, records, NdArray, NdArrayView};
use crate::atom::Atom;
use crate::errors::Error;
use crate::runtime::utilities::{get_num_columns, num_columns_of};
use vstd::prelude::*;

verus! {

/// `results` holds, for each record and column of a table, what the operator
/// may give for them.
pub open spec fn is_tabulated<T, F: Fn(usize, usize) -> T>(
    operator: F,
    height: int,
    width: int,
    results: Seq<T>,
) -> bool {
    &&& results.len() == height * width
    &&& forall|record: int, column: int|
        0 <= record < height && 0 <= column < width ==> call_ensures(
            operator,
            (record as usize, column as usize),
            #[trigger] results[record * width + column],
        )
}

/// The array of two axes that holds, for each record and column, what the
/// operator gives for them.
pub fn tabulate<T, F: Fn(usize, usize) -> T>(height: usize, width: usize, operator: &F) -> (r: Result<
    NdArray<T>,
    Error,
>)
    requires
        forall|record: usize, column: usize|
            record < height && column < width ==> call_requires(*operator, (record, column)),
    ensures
        match r {
            Ok(table) => {
                &&& height * width <= usize::MAX
                &&& table.dimensions() == seq![height, width]
                &&& is_tabulated(*operator, height as int, width as int, table.elements())
            },
            Err(e) => e == Error::Shape && height * width > usize::MAX,
        },
{
    let count = match height.checked_mul(width) {
        Some(count) => count,
        None => {
            return Err(Error::Shape);
        },
    };
    let mut out: Vec<T> = Vec::new();
    let mut record: usize = 0;
    while record < height
        invariant
            forall|record: usize, column: usize|
                record < height && column < width ==> call_requires(*operator, (record, column)),
            height * width == count,
            record <= height,
            out@.len() == record * width,
            forall|i: int, j: int|
                0 <= i < record && 0 <= j < width ==> call_ensures(
                    *operator,
                    (i as usize, j as usize),
                    #[trigger] out@[i * width + j],
                ),
        decreases height - record,
    {
        let mut column: usize = 0;
        while column < width
            invariant
                forall|record: usize, column: usize|
                    record < height && column < width ==> call_requires(*operator, (record, column)),
                height * width == count,
                record < height,
                column <= width,
                out@.len() == record * width + column,
                forall|i: int, j: int|
                    (0 <= i < record && 0 <= j < width) || (i == record && 0 <= j < column)
                        ==> call_ensures(
                        *operator,
                        (i as usize, j as usize),
                        #[trigger] out@[i * width + j],
                    ),
            decreases width - column,
        {
            let ghost before = out@;
            out.push(operator(record, column));
            proof {
                assert forall|i: int, j: int|
                    (0 <= i < record && 0 <= j < width) || (i == record && 0 <= j < column
                        + 1) implies call_ensures(
                    *operator,
                    (i as usize, j as usize),
                    #[trigger] out@[i * width + j],
                ) by {
                    assert(0 <= i * width + j <= record * width + column) by (nonlinear_arith)
                        requires
                            0 <= i <= record,
                            0 <= j,
                            (i < record && j < width) || (i == record && j <= column),
                            0 <= width,
                    ;
                    if i * width + j < record * width + column {
                        assert(out@[i * width + j] == before[i * width + j]);
                        assert(i != record || j != column) by (nonlinear_arith)
                            requires
                                i * width + j < record * width + column,
                        ;
                    } else {
                        assert(i == record && j == column) by (nonlinear_arith)
                            requires
                                i * width + j == record * width + column,
                                0 <= i <= record,
                                0 <= j,
                                (i < record && j < width) || (i == record && j <= column),
                                0 <= width,
                        ;
                    }
                }
            }
            column += 1;
        }
        proof {
            assert((record + 1) * width == record * width + width) by (nonlinear_arith);
        }
        record += 1;
    }
    proof {
        assert(out@.len() == height * width) by (nonlinear_arith)
            requires
                out@.len() == record * width,
                record == height,
        ;
    }
    let mut shape: Vec<usize> = Vec::new();
    shape.push(height);
    shape.push(width);
    Ok(NdArray::assemble(shape, out))
}

/// The item of an array at a record and a column.
pub open spec fn at<T>(array: NdArrayView<T>, record: int, column: int) -> T {
    array.items[record * columns(array.shape) + column]
}

/// `result` is a table of the given height and width that holds, at each
/// record and column, the item that `cell` names.
pub open spec fn is_table<T>(
    result: NdArrayView<T>,
    height: int,
    width: int,
    cell: spec_fn(int, int) -> T,
) -> bool {
    &&& result.shape == seq![height as usize, width as usize]
    &&& result.items.len() == height * width
    &&& forall|record: int, column: int|
        0 <= record < height && 0 <= column < width ==> #[trigger] at(result, record, column)
            == cell(record, column)
}

/// Data of the two shapes has as many columns, and its records together have
/// room in one array.
pub open spec fn stacks_rows(top: Seq<usize>, bottom: Seq<usize>) -> bool {
    &&& columns(top) == columns(bottom)
    &&& records(top) + records(bottom) <= usize::MAX
    &&& (records(top) + records(bottom)) * columns(top) <= usize::MAX
}

/// Data of the two shapes has as many records, and its columns together have
/// room in one array.
pub open spec fn stacks_columns(left: Seq<usize>, right: Seq<usize>) -> bool {
    &&& records(left) == records(right)
    &&& columns(left) + columns(right) <= usize::MAX
    &&& records(left) * (columns(left) + columns(right)) <= usize::MAX
}

/// Every index is below `length`, and as many slices of `breadth` items each
/// have room in one array.
pub open spec fn selects(indices: Seq<usize>, length: int, breadth: int) -> bool {
    all_within(indices, length) && indices.len() * breadth <= usize::MAX
}

/// `result` holds the records of `top` above those of `bottom`.
pub open spec fn is_stacked_rows<T>(
    top: NdArrayView<T>,
    bottom: NdArrayView<T>,
    result: NdArrayView<T>,
) -> bool {
    is_table(
        result,
        records(top.shape) + records(bottom.shape),
        columns(top.shape),
        |record: int, column: int|
            if record < records(top.shape) {
                at(top, record, column)
            } else {
                at(bottom, record - records(top.shape), column)
            },
    )
}

/// `result` holds the columns of `left` before those of `right`.
pub open spec fn is_stacked_columns<T>(
    left: NdArrayView<T>,
    right: NdArrayView<T>,
    result: NdArrayView<T>,
) -> bool {
    is_table(
        result,
        records(left.shape),
        columns(left.shape) + columns(right.shape),
        |record: int, column: int|
            if column < columns(left.shape) {
                at(left, record, column)
            } else {
                at(right, record, column - columns(left.shape))
            },
    )
}

/// `result` holds the records of `data` that the indices name, in their order.
pub open spec fn is_selected_rows<T>(
    data: NdArrayView<T>,
    indices: Seq<usize>,
    result: NdArrayView<T>,
) -> bool {
    is_table(
        result,
        indices.len() as int,
        columns(data.shape),
        |record: int, column: int| at(data, indices[record] as int, column),
    )
}

/// `result` holds the columns of `data` that the indices name, in their
/// order.
pub open spec fn is_selected_columns<T>(
    data: NdArrayView<T>,
    indices: Seq<usize>,
    result: NdArrayView<T>,
) -> bool {
    is_table(
        result,
        records(data.shape),
        indices.len() as int,
        |record: int, column: int| at(data, record, indices[column] as int),
    )
}

/// Whether every index names one of `count` places.
pub open spec fn all_within(indices: Seq<usize>, count: int) -> bool {
    forall|i: int| 0 <= i < indices.len() ==> (#[trigger] indices[i]) < count
}

fn check_within(indices: &Vec<usize>, count: usize) -> (r: bool)
    ensures
        r == all_within(indices@, count as int),
{
    let mut i: usize = 0;
    while i < indices.len()
        invariant
            i <= indices.len(),
            forall|j: int| 0 <= j < i ==> (#[trigger] indices@[j]) < count,
        decreases indices.len() - i,
    {
        if indices[i] >= count {
            return false;
        }
        i += 1;
    }
    true
}

fn finish<T: Atom, F: Fn(usize, usize) -> T>(
    height: usize,
    width: usize,
    operator: &F,
    Ghost(cell): Ghost<spec_fn(int, int) -> T::V>,
) -> (r: Result<NdArray<T>, Error>)
    requires
        forall|record: usize, column: usize|
            record < height && column < width ==> call_requires(*operator, (record, column)),
        forall|record: usize, column: usize, item: T|
            record < height && column < width && call_ensures(*operator, (record, column), item)
                ==> item.deep_view() == cell(record as int, column as int),
    ensures
        match r {
            Ok(table) => height * width <= usize::MAX && is_table(
                table@,
                height as int,
                width as int,
                cell,
            ),
            Err(e) => e == Error::Shape && height * width > usize::MAX,
        },
{
    match tabulate(height, width, operator) {
        Ok(table) => {
            proof {
                assert forall|record: int, column: int|
                    0 <= record < height && 0 <= column < width implies #[trigger] at(
                    table@,
                    record,
                    column,
                ) == cell(record, column) by {
                    assert(0 <= record * width + column < height * width) by (nonlinear_arith)
                        requires
                            0 <= record < height,
                            0 <= column < width,
                    ;
                    assert(call_ensures(
                        *operator,
                        (record as usize, column as usize),
                        table.elements()[record * width + column],
                    ));
                }
            }
            Ok(table)
        },
        Err(e) => Err(e),
    }
}

/// The records of `top` above those of `bottom`, which must have as many
/// columns.
pub fn stack_rows<T: Atom>(top: &NdArray<T>, bottom: &NdArray<T>) -> (r: Result<NdArray<T>, Error>)
    ensures
        match r {
            Ok(result) => stacks_rows(top@.shape, bottom@.shape) && is_stacked_rows(
                top@,
                bottom@,
                result@,
            ),
            Err(e) => e == Error::Shape && !stacks_rows(top@.shape, bottom@.shape),
        },
{
    let width = top.num_columns();
    if bottom.num_columns() != width {
        return Err(Error::Shape);
    }
    let above = top.num_records();
    let below = bottom.num_records();
    let height = match above.checked_add(below) {
        Some(height) => height,
        None => {
            return Err(Error::Shape);
        },
    };
    let operator = |record: usize, column: usize| -> (r: T)
        requires
            record < above + below,
            column < width,
        ensures
            r.deep_view() == (if record < above {
                at(top@, record as int, column as int)
            } else {
                at(bottom@, record - above, column as int)
            }),
        {
            if record < above {
                top.item(record, column).duplicate()
            } else {
                bottom.item(record - above, column).duplicate()
            }
        };
    finish(
        height,
        width,
        &operator,
        Ghost(
            |record: int, column: int|
                if record < records(top@.shape) {
                    at(top@, record, column)
                } else {
                    at(bottom@, record - records(top@.shape), column)
                },
        ),
    )
}

/// The columns of `left` before those of `right`, which must have as many
/// records.
pub fn stack_columns<T: Atom>(left: &NdArray<T>, right: &NdArray<T>) -> (r: Result<NdArray<T>, Error>)
    ensures
        match r {
            Ok(result) => stacks_columns(left@.shape, right@.shape) && is_stacked_columns(
                left@,
                right@,
                result@,
            ),
            Err(e) => e == Error::Shape && !stacks_columns(left@.shape, right@.shape),
        },
{
    let height = left.num_records();
    if right.num_records() != height {
        return Err(Error::Shape);
    }
    let before = left.num_columns();
    let after = right.num_columns();
    let width = match before.checked_add(after) {
        Some(width) => width,
        None => {
            return Err(Error::Shape);
        },
    };
    let operator = |record: usize, column: usize| -> (r: T)
        requires
            record < height,
            column < before + after,
        ensures
            r.deep_view() == (if column < before {
                at(left@, record as int, column as int)
            } else {
                at(right@, record as int, column - before)
            }),
        {
            if column < before {
                left.item(record, column).duplicate()
            } else {
                right.item(record, column - before).duplicate()
            }
        };
    finish(
        height,
        width,
        &operator,
        Ghost(
            |record: int, column: int|
                if column < columns(left@.shape) {
                    at(left@, record, column)
                } else {
                    at(right@, record, column - columns(left@.shape))
                },
        ),
    )
}

/// The records of `data` that the indices name, in their order.
pub fn select_rows<T: Atom>(data: &NdArray<T>, indices: &Vec<usize>) -> (r: Result<NdArray<T>, Error>)
    ensures
        match r {
            Ok(result) => selects(indices@, records(data@.shape), columns(data@.shape))
                && is_selected_rows(data@, indices@, result@),
            Err(e) => e == Error::Shape && !selects(
                indices@,
                records(data@.shape),
                columns(data@.shape),
            ),
        },
{
    let height = data.num_records();
    let width = data.num_columns();
    if !check_within(indices, height) {
        return Err(Error::Shape);
    }
    let operator = |record: usize, column: usize| -> (r: T)
        requires
            record < indices@.len(),
            column < width,
        ensures
            r.deep_view() == at(data@, indices@[record as int] as int, column as int),
        {
            data.item(indices[record], column).duplicate()
        };
    finish(
        indices.len(),
        width,
        &operator,
        Ghost(|record: int, column: int| at(data@, indices@[record] as int, column)),
    )
}

/// The columns of `data` that the indices name, in their order.
pub fn select_columns<T: Atom>(data: &NdArray<T>, indices: &Vec<usize>) -> (r: Result<
    NdArray<T>,
    Error,
>)
    ensures
        match r {
            Ok(result) => selects(indices@, columns(data@.shape), records(data@.shape))
                && is_selected_columns(data@, indices@, result@),
            Err(e) => e == Error::Shape && !selects(
                indices@,
                columns(data@.shape),
                records(data@.shape),
            ),
        },
{
    let height = data.num_records();
    let width = data.num_columns();
    if !check_within(indices, width) {
        return Err(Error::Shape);
    }
    let operator = |record: usize, column: usize| -> (r: T)
        requires
            record < height,
            column < indices@.len(),
        ensures
            r.deep_view() == at(data@, record as int, indices@[column as int] as int),
        {
            data.item(record, indices[column]).duplicate()
        };
    finish(
        height,
        indices.len(),
        &operator,
        Ghost(|record: int, column: int| at(data@, record, indices@[column] as int)),
    )
}

/// Along which axis data is resized.
#[derive(Clone, Copy, Debug, PartialEq, Eq, Structural)]
pub enum Axis {
    /// The axis of the records.
    Records,
    /// The axis of the columns.
    Columns,
}

/// The length of an axis of data.
pub open spec fn length_along(axis: Axis, shape: Seq<usize>) -> int {
    match axis {
        Axis::Records => records(shape),
        Axis::Columns => columns(shape),
    }
}

/// The records and columns of the synthetic data that brings data of a shape
/// to the target length along an axis.
pub open spec fn lacking(axis: Axis, shape: Seq<usize>, target: usize) -> (usize, usize) {
    match axis {
        Axis::Records => ((target - records(shape)) as usize, columns(shape) as usize),
        Axis::Columns => (records(shape) as usize, (target - columns(shape)) as usize),
    }
}

/// `result` is the data with synthetic data added along the axis.
pub open spec fn is_extended<T>(
    axis: Axis,
    data: NdArrayView<T>,
    synthetic: NdArrayView<T>,
    result: NdArrayView<T>,
) -> bool {
    match axis {
        Axis::Records => is_stacked_rows(data, synthetic, result),
        Axis::Columns => is_stacked_columns(data, synthetic, result),
    }
}

/// Synthetic data of a shape can be added to data of a shape along the axis.
pub open spec fn extends(axis: Axis, data: Seq<usize>, synthetic: Seq<usize>) -> bool {
    match axis {
        Axis::Records => stacks_rows(data, synthetic),
        Axis::Columns => stacks_columns(data, synthetic),
    }
}

/// The indices select of data of a shape along the axis.
pub open spec fn cuts(axis: Axis, data: Seq<usize>, indices: Seq<usize>) -> bool {
    match axis {
        Axis::Records => selects(indices, records(data), columns(data)),
        Axis::Columns => selects(indices, columns(data), records(data)),
    }
}

/// `result` is what the indices select of the data along the axis.
pub open spec fn is_selection<T>(
    axis: Axis,
    data: NdArrayView<T>,
    indices: Seq<usize>,
    result: NdArrayView<T>,
) -> bool {
    match axis {
        Axis::Records => is_selected_rows(data, indices, result),
        Axis::Columns => is_selected_columns(data, indices, result),
    }
}

/// `result` is the data brought to the target length along an axis. Data of
/// that length stays as it is. Shorter data is extended by what `synthesize`
/// gives for the records and columns that lack; longer data is cut down to
/// what `sample` selects of it. What either refuses is refused, and so is what
/// does not fit the data.
pub open spec fn is_resized_along<
    T: Atom,
    S: Fn(usize, usize) -> Result<NdArray<T>, Error>,
    I: Fn(usize, usize) -> Result<Vec<usize>, Error>,
>(
    synthesize: S,
    sample: I,
    axis: Axis,
    data: NdArrayView<T::V>,
    target: usize,
    result: Result<NdArray<T>, Error>,
) -> bool {
    let length = length_along(axis, data.shape);
    if length == target {
        result matches Ok(same) && same@ == data
    } else if length < target {
        exists|outcome: Result<NdArray<T>, Error>|
            {
                &&& #[trigger] call_ensures(synthesize, lacking(axis, data.shape, target), outcome)
                &&& match outcome {
                    Err(e) => result == Err::<NdArray<T>, Error>(e),
                    Ok(synthetic) => match result {
                        Ok(extended) => extends(axis, data.shape, synthetic@.shape) && is_extended(
                            axis,
                            data,
                            synthetic@,
                            extended@,
                        ),
                        Err(e) => e == Error::Shape && !extends(axis, data.shape, synthetic@.shape),
                    },
                }
            }
    } else {
        exists|outcome: Result<Vec<usize>, Error>|
            {
                &&& #[trigger] call_ensures(sample, (target, length as usize), outcome)
                &&& match outcome {
                    Err(e) => result == Err::<NdArray<T>, Error>(e),
                    Ok(indices) => match result {
                        Ok(selected) => cuts(axis, data.shape, indices@) && is_selection(
                            axis,
                            data,
                            indices@,
                            selected@,
                        ),
                        Err(e) => e == Error::Shape && !cuts(axis, data.shape, indices@),
                    },
                }
            }
    }
}

/// The data brought to the target length along an axis.
pub fn resize_along<
    T: Atom,
    S: Fn(usize, usize) -> Result<NdArray<T>, Error>,
    I: Fn(usize, usize) -> Result<Vec<usize>, Error>,
>(data: NdArray<T>, axis: Axis, target: usize, synthesize: &S, sample: &I) -> (r: Result<
    NdArray<T>,
    Error,
>)
    requires
        forall|height: usize, width: usize| call_requires(*synthesize, (height, width)),
        forall|count: usize, among: usize| call_requires(*sample, (count, among)),
    ensures
        is_resized_along(*synthesize, *sample, axis, data@, target, r),
{
    let height = data.num_records();
    let width = data.num_columns();
    let length = match axis {
        Axis::Records => height,
        Axis::Columns => width,
    };
    if length == target {
        Ok(data)
    } else if length < target {
        let outcome = match axis {
            Axis::Records => synthesize(target - length, width),
            Axis::Columns => synthesize(height, target - length),
        };
        let result = match &outcome {
            Ok(synthetic) => match axis {
                Axis::Records => stack_rows(&data, synthetic),
                Axis::Columns => stack_columns(&data, synthetic),
            },
            Err(_) => Err(Error::Shape),
        };
        match outcome {
            Ok(synthetic) => {
                proof {
                    assert(call_ensures(
                        *synthesize,
                        lacking(axis, data@.shape, target),
                        Ok::<NdArray<T>, Error>(synthetic),
                    ));
                }
                result
            },
            Err(e) => {
                proof {
                    assert(call_ensures(
                        *synthesize,
                        lacking(axis, data@.shape, target),
                        Err::<NdArray<T>, Error>(e),
                    ));
                }
                Err(e)
            },
        }
    } else {
        let outcome = sample(target, length);
        let result = match &outcome {
            Ok(indices) => match axis {
                Axis::Records => select_rows(&data, indices),
                Axis::Columns => select_columns(&data, indices),
            },
            Err(_) => Err(Error::Shape),
        };
        match outcome {
            Ok(indices) => {
                proof {
                    assert(call_ensures(
                        *sample,
                        (target, length),
                        Ok::<Vec<usize>, Error>(indices),
                    ));
                }
                result
            },
            Err(e) => {
                proof {
                    assert(call_ensures(*sample, (target, length), Err::<Vec<usize>, Error>(e)));
                }
                Err(e)
            },
        }
    }
}

/// `result` is the data with its columns brought to the number asked for,
/// where one is: data without columns to count is refused, and so is a
/// negative number or one that no array holds.
pub open spec fn is_resized_columns<
    T: Atom,
    S: Fn(usize, usize) -> Result<NdArray<T>, Error>,
    I: Fn(usize, usize) -> Result<Vec<usize>, Error>,
>(
    synthesize: S,
    sample: I,
    data: NdArrayView<T::V>,
    number_cols: Option<i64>,
    result: Result<NdArray<T>, Error>,
) -> bool {
    match number_cols {
        None => result matches Ok(same) && same@ == data,
        Some(target) => match num_columns_of(data.shape) {
            Err(e) => result == Err::<NdArray<T>, Error>(e),
            Ok(_) => if target < 0 {
                result == Err::<NdArray<T>, Error>(Error::NumberColumns)
            } else if target > usize::MAX {
                result == Err::<NdArray<T>, Error>(Error::Shape)
            } else {
                is_resized_along(synthesize, sample, Axis::Columns, data, target as usize, result)
            },
        },
    }
}

/// `result` is the data with its records brought to the number asked for,
/// where one is. Data with fewer records than the minimum stays as it is. A
/// negative number is refused, and so is one that no array holds.
pub open spec fn is_resized_rows<
    T: Atom,
    S: Fn(usize, usize) -> Result<NdArray<T>, Error>,
    I: Fn(usize, usize) -> Result<Vec<usize>, Error>,
>(
    synthesize: S,
    sample: I,
    data: NdArrayView<T::V>,
    number_rows: Option<i64>,
    minimum_rows: Option<i64>,
    result: Result<NdArray<T>, Error>,
) -> bool {
    match number_rows {
        None => result matches Ok(same) && same@ == data,
        Some(target) => if minimum_rows matches Some(minimum) && minimum > records(data.shape) {
            result matches Ok(same) && same@ == data
        } else if target < 0 {
            result == Err::<NdArray<T>, Error>(Error::NumberRows)
        } else if target > usize::MAX {
            result == Err::<NdArray<T>, Error>(Error::Shape)
        } else {
            is_resized_along(synthesize, sample, Axis::Records, data, target as usize, result)
        },
    }
}

/// `result` is the data resized: first its columns, then its records.
pub open spec fn is_resized<
    T: Atom,
    S: Fn(usize, usize) -> Result<NdArray<T>, Error>,
    I: Fn(usize, usize) -> Result<Vec<usize>, Error>,
>(
    synthesize: S,
    sample: I,
    data: NdArrayView<T::V>,
    number_rows: Option<i64>,
    number_cols: Option<i64>,
    minimum_rows: Option<i64>,
    result: Result<NdArray<T>, Error>,
) -> bool {
    exists|middle: Result<NdArray<T>, Error>|
        {
            &&& #[trigger] is_resized_columns(synthesize, sample, data, number_cols, middle)
            &&& match middle {
                Err(e) => result == Err::<NdArray<T>, Error>(e),
                Ok(narrowed) => is_resized_rows(
                    synthesize,
                    sample,
                    narrowed@,
                    number_rows,
                    minimum_rows,
                    result,
                ),
            }
        }
}

/// The data with its columns brought to the number asked for.
pub fn resize_columns<
    T: Atom,
    S: Fn(usize, usize) -> Result<NdArray<T>, Error>,
    I: Fn(usize, usize) -> Result<Vec<usize>, Error>,
>(data: NdArray<T>, number_cols: Option<i64>, synthesize: &S, sample: &I) -> (r: Result<
    NdArray<T>,
    Error,
>)
    requires
        forall|height: usize, width: usize| call_requires(*synthesize, (height, width)),
        forall|count: usize, among: usize| call_requires(*sample, (count, among)),
    ensures
        is_resized_columns(*synthesize, *sample, data@, number_cols, r),
{
    match number_cols {
        None => Ok(data),
        Some(target) => {
            let _ = get_num_columns(&data)?;
            if target < 0 {
                Err(Error::NumberColumns)
            } else if target as u64 > usize::MAX as u64 {
                Err(Error::Shape)
            } else {
                resize_along(data, Axis::Columns, target as usize, synthesize, sample)
            }
        },
    }
}

/// The data with its records brought to the number asked for, unless it has
/// fewer than the minimum.
pub fn resize_rows<
    T: Atom,
    S: Fn(usize, usize) -> Result<NdArray<T>, Error>,
    I: Fn(usize, usize) -> Result<Vec<usize>, Error>,
>(
    data: NdArray<T>,
    number_rows: Option<i64>,
    minimum_rows: Option<i64>,
    synthesize: &S,
    sample: &I,
) -> (r: Result<NdArray<T>, Error>)
    requires
        forall|height: usize, width: usize| call_requires(*synthesize, (height, width)),
        forall|count: usize, among: usize| call_requires(*sample, (count, among)),
    ensures
        is_resized_rows(*synthesize, *sample, data@, number_rows, minimum_rows, r),
{
    match number_rows {
        None => Ok(data),
        Some(target) => {
            let short = match minimum_rows {
                Some(minimum) => minimum > 0 && minimum as u64 > data.num_records() as u64,
                None => false,
            };
            if short {
                Ok(data)
            } else if target < 0 {
                Err(Error::NumberRows)
            } else if target as u64 > usize::MAX as u64 {
                Err(Error::Shape)
            } else {
                resize_along(data, Axis::Records, target as usize, synthesize, sample)
            }
        },
    }
}

/// The data resized to the numbers of columns and of records asked for.
/// `synthesize` gives synthetic data of a number of records and of columns,
/// `sample` gives so many indices below a length.
pub fn resize<
    T: Atom,
    S: Fn(usize, usize) -> Result<NdArray<T>, Error>,
    I: Fn(usize, usize) -> Result<Vec<usize>, Error>,
>(
    data: NdArray<T>,
    number_rows: Option<i64>,
    number_cols: Option<i64>,
    minimum_rows: Option<i64>,
    synthesize: &S,
    sample: &I,
) -> (r: Result<NdArray<T>, Error>)
    requires
        forall|height: usize, width: usize| call_requires(*synthesize, (height, width)),
        forall|count: usize, among: usize| call_requires(*sample, (count, among)),
    ensures
        is_resized(*synthesize, *sample, data@, number_rows, number_cols, minimum_rows, r),
{
    let middle = resize_columns(data, number_cols, synthesize, sample);
    let ghost witness = middle;
    match middle {
        Err(e) => {
            proof {
                assert(is_resized_columns(*synthesize, *sample, data@, number_cols, witness));
            }
            Err(e)
        },
        Ok(narrowed) => {
            let result = resize_rows(narrowed, number_rows, minimum_rows, synthesize, sample);
            proof {
                assert(is_resized_columns(*synthesize, *sample, data@, number_cols, witness));
            }
            result
        },
    }
}

} // verus!
