use whitenoise_validator::array::NdArray;
use whitenoise_validator::errors::Error;
use whitenoise_validator::runtime::resize::{
    resize, resize_along, resize_columns, resize_rows, select_columns, select_rows, stack_columns,
    stack_rows, tabulate, Axis,
};

fn table(rows: &[&[i64]]) -> NdArray<i64> {
    let columns = rows.first().map(|row| row.len()).unwrap_or(0);
    NdArray::new(
        vec![rows.len(), columns],
        rows.iter().flat_map(|row| row.iter().copied()).collect(),
    )
    .unwrap()
}

fn zeros(height: usize, width: usize) -> Result<NdArray<i64>, Error> {
    Ok(NdArray::new(vec![height, width], vec![0; height * width]).unwrap())
}

fn sevens(height: usize, width: usize) -> Result<NdArray<i64>, Error> {
    Ok(NdArray::new(vec![height, width], vec![7; height * width]).unwrap())
}

fn from_the_end(count: usize, among: usize) -> Result<Vec<usize>, Error> {
    Ok((0..count).map(|i| among - 1 - i).collect())
}

fn refusing_data(_: usize, _: usize) -> Result<NdArray<i64>, Error> {
    Err(Error::Empty)
}

fn refusing_indices(_: usize, _: usize) -> Result<Vec<usize>, Error> {
    Err(Error::Traversal)
}

#[test]
fn a_table_holds_what_the_operator_gives() {
    let made = tabulate(2, 3, &|record: usize, column: usize| (10 * record + column) as i64);
    assert!(made.unwrap() == table(&[&[0, 1, 2], &[10, 11, 12]]));
    let empty = tabulate(0, 3, &|_: usize, _: usize| 1i64).unwrap();
    assert_eq!(empty.shape(), &vec![0, 3]);
    assert_eq!(empty.len(), 0);
    assert!(tabulate(usize::MAX, 2, &|_: usize, _: usize| 1i64) == Err(Error::Shape));
}

#[test]
fn records_are_stacked_below() {
    let top = table(&[&[1, 2], &[3, 4]]);
    let bottom = table(&[&[5, 6]]);
    assert!(stack_rows(&top, &bottom).unwrap() == table(&[&[1, 2], &[3, 4], &[5, 6]]));
    assert!(stack_rows(&bottom, &top).unwrap() == table(&[&[5, 6], &[1, 2], &[3, 4]]));
    assert!(stack_rows(&top, &table(&[&[5, 6, 7]])) == Err(Error::Shape));
}

#[test]
fn a_vector_is_stacked_as_one_column() {
    let top = NdArray::vector(vec![1i64, 2]);
    let bottom = NdArray::vector(vec![3i64]);
    assert!(stack_rows(&top, &bottom).unwrap() == table(&[&[1], &[2], &[3]]));
}

#[test]
fn columns_are_stacked_behind() {
    let left = table(&[&[1, 2], &[3, 4]]);
    let right = table(&[&[5], &[6]]);
    assert!(stack_columns(&left, &right).unwrap() == table(&[&[1, 2, 5], &[3, 4, 6]]));
    assert!(stack_columns(&right, &left).unwrap() == table(&[&[5, 1, 2], &[6, 3, 4]]));
    assert!(stack_columns(&left, &table(&[&[5]])) == Err(Error::Shape));
}

#[test]
fn records_are_selected_in_the_order_of_the_indices() {
    let data = table(&[&[1, 2], &[3, 4], &[5, 6]]);
    assert!(select_rows(&data, &vec![2, 0]).unwrap() == table(&[&[5, 6], &[1, 2]]));
    assert!(select_rows(&data, &vec![1, 1]).unwrap() == table(&[&[3, 4], &[3, 4]]));
    assert!(select_rows(&data, &vec![3]) == Err(Error::Shape));
    let none = select_rows(&data, &vec![]).unwrap();
    assert_eq!(none.shape(), &vec![0, 2]);
}

#[test]
fn columns_are_selected_in_the_order_of_the_indices() {
    let data = table(&[&[1, 2, 3], &[4, 5, 6]]);
    assert!(select_columns(&data, &vec![2, 0]).unwrap() == table(&[&[3, 1], &[6, 4]]));
    assert!(select_columns(&data, &vec![3]) == Err(Error::Shape));
}

#[test]
fn data_of_the_target_length_stays() {
    let data = table(&[&[1, 2], &[3, 4]]);
    let same = resize_along(table(&[&[1, 2], &[3, 4]]), Axis::Records, 2, &refusing_data, &refusing_indices);
    assert!(same.unwrap() == data);
    let same = resize_along(table(&[&[1, 2], &[3, 4]]), Axis::Columns, 2, &refusing_data, &refusing_indices);
    assert!(same.unwrap() == data);
}

#[test]
fn short_data_is_extended_by_synthetic_data() {
    let longer = resize_along(table(&[&[1, 2]]), Axis::Records, 3, &sevens, &refusing_indices);
    assert!(longer.unwrap() == table(&[&[1, 2], &[7, 7], &[7, 7]]));
    let wider = resize_along(table(&[&[1, 2]]), Axis::Columns, 4, &sevens, &refusing_indices);
    assert!(wider.unwrap() == table(&[&[1, 2, 7, 7]]));
}

#[test]
fn long_data_is_cut_down_to_the_sample() {
    let data = || table(&[&[1, 2, 3], &[4, 5, 6], &[7, 8, 9]]);
    let shorter = resize_along(data(), Axis::Records, 2, &refusing_data, &from_the_end);
    assert!(shorter.unwrap() == table(&[&[7, 8, 9], &[4, 5, 6]]));
    let narrower = resize_along(data(), Axis::Columns, 1, &refusing_data, &from_the_end);
    assert!(narrower.unwrap() == table(&[&[3], &[6], &[9]]));
}

#[test]
fn what_the_sources_refuse_is_refused() {
    let data = || table(&[&[1, 2], &[3, 4]]);
    assert!(resize_along(data(), Axis::Records, 3, &refusing_data, &from_the_end) == Err(Error::Empty));
    assert!(resize_along(data(), Axis::Records, 1, &sevens, &refusing_indices) == Err(Error::Traversal));
}

#[test]
fn synthetic_data_of_another_shape_is_refused() {
    let crooked = |_: usize, _: usize| -> Result<NdArray<i64>, Error> { zeros(1, 5) };
    let data = || table(&[&[1, 2], &[3, 4]]);
    assert!(resize_along(data(), Axis::Records, 3, &crooked, &from_the_end) == Err(Error::Shape));
    let beyond = |_: usize, _: usize| -> Result<Vec<usize>, Error> { Ok(vec![9]) };
    assert!(resize_along(data(), Axis::Records, 1, &zeros, &beyond) == Err(Error::Shape));
}

#[test]
fn columns_are_resized_where_a_number_is_given() {
    let data = || table(&[&[1, 2], &[3, 4]]);
    assert!(resize_columns(data(), None, &sevens, &from_the_end).unwrap() == data());
    assert!(
        resize_columns(data(), Some(3), &sevens, &from_the_end).unwrap()
            == table(&[&[1, 2, 7], &[3, 4, 7]])
    );
    assert!(
        resize_columns(data(), Some(1), &sevens, &from_the_end).unwrap() == table(&[&[2], &[4]])
    );
    assert!(resize_columns(data(), Some(-1), &sevens, &from_the_end) == Err(Error::NumberColumns));
    assert!(
        resize_columns(NdArray::scalar(1i64), Some(1), &sevens, &from_the_end)
            == Err(Error::Shape)
    );
}

#[test]
fn records_are_resized_unless_fewer_than_the_minimum() {
    let data = || table(&[&[1, 2], &[3, 4]]);
    assert!(resize_rows(data(), None, None, &sevens, &from_the_end).unwrap() == data());
    assert!(
        resize_rows(data(), Some(3), None, &sevens, &from_the_end).unwrap()
            == table(&[&[1, 2], &[3, 4], &[7, 7]])
    );
    assert!(
        resize_rows(data(), Some(3), Some(2), &sevens, &from_the_end).unwrap()
            == table(&[&[1, 2], &[3, 4], &[7, 7]])
    );
    assert!(resize_rows(data(), Some(3), Some(3), &sevens, &from_the_end).unwrap() == data());
    assert!(resize_rows(data(), Some(-1), None, &sevens, &from_the_end) == Err(Error::NumberRows));
    let none = resize_rows(data(), Some(0), None, &sevens, &from_the_end).unwrap();
    assert_eq!(none.shape(), &vec![0, 2]);
}

#[test]
fn data_is_resized_by_columns_and_then_by_records() {
    let data = || table(&[&[1, 2, 3], &[4, 5, 6]]);
    let resized = resize(data(), Some(3), Some(2), None, &sevens, &from_the_end).unwrap();
    assert!(resized == table(&[&[3, 2], &[6, 5], &[7, 7]]));
    let resized = resize(data(), Some(1), Some(4), None, &sevens, &from_the_end).unwrap();
    assert!(resized == table(&[&[4, 5, 6, 7]]));
    assert!(
        resize(data(), Some(1), Some(-4), None, &sevens, &from_the_end)
            == Err(Error::NumberColumns)
    );
    assert!(resize(data(), None, None, None, &refusing_data, &refusing_indices).unwrap() == data());
}
