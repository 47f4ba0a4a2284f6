//! The summary of a release, for a report.

use crate::array::{column_of, columns, records, NdArray, NdArrayView};
use crate::atom::Atom;
use crate::base::{
    Arguments, Array, ArrayPropertiesView, ArrayView, NodeProperties, Value, ValuePropertiesView,
    ValueView,
};
use crate::components::bounds::within;
use crate::errors::{Argument, Bound, Error};
use crate::float::{computes, total, Float, Operation};
use crate::proto::{Accuracy, Component, DpMaximum, PrivacyUsage};
use vstd::prelude::*;

verus! {

/// How a statistic was released.
#[derive(Debug, PartialEq, Eq)]
pub struct AlgorithmInfo {
    pub name: String,
    pub cite: String,
    pub mechanism: String,
    /// The lower bound that the data of the column was held to.
    pub lower_bound: Float,
    /// The upper bound that the data of the column was held to.
    pub upper_bound: Float,
}

/// The summary of the release of one column by one node.
#[derive(Debug, PartialEq)]
pub struct JSONRelease {
    pub description: String,
    pub statistic: String,
    /// The name of the column.
    pub variables: String,
    /// What was released of the column.
    pub release_info: Value,
    /// What the release spent of the privacy budget.
    pub privacy_loss: PrivacyUsage,
    pub accuracy: Option<Accuracy>,
    pub submission: u32,
    pub node_id: u32,
    pub postprocess: bool,
    pub algorithm_info: AlgorithmInfo,
}

/// What a [`JSONRelease`] holds.
pub ghost struct JSONReleaseView {
    pub description: Seq<char>,
    pub statistic: Seq<char>,
    pub variables: Seq<char>,
    pub release_info: ValueView,
    pub privacy_loss: PrivacyUsage,
    pub accuracy: Option<Accuracy>,
    pub submission: u32,
    pub node_id: u32,
    pub postprocess: bool,
    pub name: Seq<char>,
    pub cite: Seq<char>,
    pub mechanism: Seq<char>,
    pub lower_bound: Float,
    pub upper_bound: Float,
}

impl View for JSONRelease {
    type V = JSONReleaseView;

    open spec fn view(&self) -> JSONReleaseView {
        JSONReleaseView {
            description: self.description@,
            statistic: self.statistic@,
            variables: self.variables@,
            release_info: self.release_info@,
            privacy_loss: self.privacy_loss,
            accuracy: self.accuracy,
            submission: self.submission,
            node_id: self.node_id,
            postprocess: self.postprocess,
            name: self.algorithm_info.name@,
            cite: self.algorithm_info.cite@,
            mechanism: self.algorithm_info.mechanism@,
            lower_bound: self.algorithm_info.lower_bound,
            upper_bound: self.algorithm_info.upper_bound,
        }
    }
}

/// `result` is the usage divided evenly among `count` columns.
pub open spec fn is_share<A: Fn(Operation) -> Float>(
    arithmetic: A,
    usage: PrivacyUsage,
    count: i64,
    result: PrivacyUsage,
) -> bool {
    exists|columns: Float|
        {
            &&& computes(arithmetic, Operation::FromInteger(count), columns)
            &&& computes(arithmetic, Operation::Divide(usage.epsilon, columns), result.epsilon)
            &&& computes(arithmetic, Operation::Divide(usage.delta, columns), result.delta)
        }
}

/// `result` holds one usage for each of `length` columns: the usages given
/// where there are `length` of them, and otherwise an even share of the one
/// usage given for each column.
pub open spec fn is_spread<A: Fn(Operation) -> Float>(
    arithmetic: A,
    usages: Seq<PrivacyUsage>,
    length: i64,
    result: Seq<PrivacyUsage>,
) -> bool {
    if usages.len() == length {
        result == usages
    } else {
        &&& result.len() == (if length < 0 {
            0
        } else {
            length as int
        })
        &&& forall|i: int|
            0 <= i < result.len() ==> is_share(arithmetic, usages[0], length, #[trigger] result[i])
    }
}

/// One usage for each of `length` columns. It is refused where there are
/// neither `length` usages nor one.
pub fn spread_privacy_usage<A: Fn(Operation) -> Float>(
    usages: &Vec<PrivacyUsage>,
    length: i64,
    arithmetic: &A,
) -> (r: Result<Vec<PrivacyUsage>, Error>)
    requires
        total(*arithmetic),
    ensures
        match r {
            Ok(spread) => (usages@.len() == length || usages@.len() == 1) && is_spread(
                *arithmetic,
                usages@,
                length,
                spread@,
            ),
            Err(e) => usages@.len() != length && usages@.len() != 1 && e == Error::UsageLength,
        },
{
    if length >= 0 && usages.len() as u64 == length as u64 {
        let copy = usages.clone();
        assert(copy@ =~= usages@);
        return Ok(copy);
    }
    if usages.len() != 1 {
        return Err(Error::UsageLength);
    }
    let mut out: Vec<PrivacyUsage> = Vec::new();
    let mut i: i64 = 0;
    while i < length
        invariant
            total(*arithmetic),
            usages@.len() == 1,
            0 <= i,
            i <= length || (length < 0 && i == 0),
            out@.len() == i,
            forall|j: int|
                0 <= j < i ==> is_share(*arithmetic, usages@[0], length, #[trigger] out@[j]),
        decreases length - i,
    {
        let columns = arithmetic(Operation::FromInteger(length));
        let epsilon = arithmetic(Operation::Divide(usages[0].epsilon, columns));
        let delta = arithmetic(Operation::Divide(usages[0].delta, columns));
        let share = PrivacyUsage { epsilon, delta };
        assert(computes(*arithmetic, Operation::FromInteger(length), columns) && computes(
            *arithmetic,
            Operation::Divide(usages@[0].epsilon, columns),
            share.epsilon,
        ) && computes(*arithmetic, Operation::Divide(usages@[0].delta, columns), share.delta));
        out.push(share);
        i += 1;
    }
    Ok(out)
}

/// The release of one column. Of an array without axes, the array itself, for
/// column 0; of an array of one axis, the array itself; of an array of two, the
/// column, as an array without axes where it holds one item.
pub open spec fn ith_column<T>(array: NdArrayView<T>, i: int) -> Result<NdArrayView<T>, Error> {
    if array.shape.len() == 0 {
        if i == 0 {
            Ok(array)
        } else {
            Err(Error::Shape)
        }
    } else if array.shape.len() == 1 {
        Ok(array)
    } else if i < columns(array.shape) {
        if records(array.shape) == 1 {
            Ok(NdArrayView { shape: Seq::empty(), items: column_of(array.shape, array.items, i) })
        } else {
            Ok(
                NdArrayView {
                    shape: seq![array.shape[0], 1usize],
                    items: column_of(array.shape, array.items, i),
                },
            )
        }
    } else {
        Err(Error::Shape)
    }
}

/// The release of one column.
pub fn get_ith_column<T: Atom>(value: &NdArray<T>, i: usize) -> (r: Result<NdArray<T>, Error>)
    ensures
        match r {
            Ok(column) => ith_column(value@, i as int) == Ok::<NdArrayView<T::V>, Error>(column@),
            Err(e) => ith_column(value@, i as int) == Err::<NdArrayView<T::V>, Error>(e),
        },
{
    if value.ndim() == 0 {
        if i == 0 {
            Ok(value.duplicate())
        } else {
            Err(Error::Shape)
        }
    } else if value.ndim() == 1 {
        Ok(value.duplicate())
    } else {
        let width = value.num_columns();
        let height = value.num_records();
        if i >= width {
            return Err(Error::Shape);
        }
        let mut items: Vec<T> = Vec::new();
        let mut record: usize = 0;
        while record < height
            invariant
                height == records(value.dimensions()),
                i < columns(value.dimensions()),
                record <= height,
                items@.len() == record,
                forall|k: int|
                    0 <= k < record ==> (#[trigger] items@[k]).deep_view() == column_of(
                        value@.shape,
                        value@.items,
                        i as int,
                    )[k],
            decreases height - record,
        {
            items.push(value.item(record, i).duplicate());
            record += 1;
        }
        let mut shape: Vec<usize> = Vec::new();
        if height != 1 {
            shape.push(height);
            shape.push(1);
            assert(height * 1 == height) by (nonlinear_arith);
            assert(shape@ =~= seq![value@.shape[0], 1usize]);
        } else {
            assert(shape@ =~= Seq::<usize>::empty());
        }
        assert(items@.len() == items.deep_view().len());
        let ghost dimensions = shape@;
        let column = NdArray::assemble(shape, items);
        assert(column@.items =~= column_of(value@.shape, value@.items, i as int));
        assert(column@.shape == dimensions);
        Ok(column)
    }
}

/// The name of a column, where names are given and reach that far.
pub open spec fn variable_name(variable_names: Option<Seq<Seq<char>>>, column: int) -> Seq<char> {
    match variable_names {
        Some(names) => if 0 <= column < names.len() {
            names[column]
        } else {
            "[Unknown]"@
        },
        None => "[Unknown]"@,
    }
}

impl DpMaximum {
    /// Why no summary can be given of a private maximum: the data is missing
    /// or no array, a bound or the number of columns is not known, there are
    /// neither one privacy usage nor one for each column, or the bounds do not
    /// reach that far.
    pub open spec fn summary_refused(
        self,
        properties: Map<Seq<char>, ValuePropertiesView>,
    ) -> Option<Error> {
        if !properties.contains_key("data"@) {
            Some(Error::Missing(Argument::Data))
        } else {
            match properties["data"@] {
                ValuePropertiesView::Array(data) => match data.f64_bound(Bound::Lower) {
                    Err(e) => Some(e),
                    Ok(lower) => match data.f64_bound(Bound::Upper) {
                        Err(e) => Some(e),
                        Ok(upper) => match data.num_columns {
                            None => Some(Error::ColumnsUnknown),
                            Some(num_columns) => if self.privacy_usage@.len() != num_columns
                                && self.privacy_usage@.len() != 1 {
                                Some(Error::UsageLength)
                            } else if lower.len() < num_columns {
                                Some(Error::BoundUnknown(Bound::Lower))
                            } else if upper.len() < num_columns {
                                Some(Error::BoundUnknown(Bound::Upper))
                            } else {
                                None
                            },
                        },
                    },
                },
                _ => Some(within(Argument::Data, Error::PropertiesNotArray)),
            }
        }
    }

    /// What the summary of one column of a private maximum holds, but for the
    /// release and the privacy loss of that column.
    pub open spec fn summary_of(
        self,
        node_id: u32,
        submission: u32,
        data: ArrayPropertiesView,
        variable_names: Option<Seq<Seq<char>>>,
        column: int,
        release_info: ValueView,
        privacy_loss: PrivacyUsage,
    ) -> JSONReleaseView {
        JSONReleaseView {
            description: "DP release information"@,
            statistic: "DPMaximum"@,
            variables: variable_name(variable_names, column),
            release_info,
            privacy_loss,
            accuracy: None,
            submission,
            node_id,
            postprocess: false,
            name: ""@,
            cite: ""@,
            mechanism: self.mechanism@,
            lower_bound: data.f64_bound(Bound::Lower)->Ok_0[column],
            upper_bound: data.f64_bound(Bound::Upper)->Ok_0[column],
        }
    }

    /// The release of one column of a maximum, which must be numeric.
    pub open spec fn released_column(release: ValueView, column: int) -> Result<ValueView, Error> {
        match release {
            ValueView::Array(ArrayView::F64(array)) => match ith_column(array, column) {
                Ok(array) => Ok(ValueView::Array(ArrayView::F64(array))),
                Err(e) => Err(e),
            },
            ValueView::Array(ArrayView::I64(array)) => match ith_column(array, column) {
                Ok(array) => Ok(ValueView::Array(ArrayView::I64(array))),
                Err(e) => Err(e),
            },
            ValueView::Array(_) => Err(Error::ReleaseNotNumeric),
            _ => Err(Error::ValueNotArray),
        }
    }

    fn release_column(release: &Value, column: usize) -> (r: Result<Value, Error>)
        ensures
            match r {
                Ok(value) => DpMaximum::released_column(release@, column as int) == Ok::<
                    ValueView,
                    Error,
                >(value@),
                Err(e) => DpMaximum::released_column(release@, column as int) == Err::<
                    ValueView,
                    Error,
                >(e),
            },
    {
        let array = match release.array() {
            Ok(array) => array,
            Err(e) => {
                return Err(e);
            },
        };
        match array {
            Array::F64(v) => match get_ith_column(v, column) {
                Ok(column) => Ok(Value::Array(Array::F64(column))),
                Err(e) => Err(e),
            },
            Array::I64(v) => match get_ith_column(v, column) {
                Ok(column) => Ok(Value::Array(Array::I64(column))),
                Err(e) => Err(e),
            },
            _ => Err(Error::ReleaseNotNumeric),
        }
    }

    /// `error` is why a summary is refused: what refuses every summary, or
    /// why the release of one of the columns cannot be had.
    pub open spec fn is_summary_refusal(
        self,
        properties: Map<Seq<char>, ValuePropertiesView>,
        release: ValueView,
        error: Error,
    ) -> bool {
        match self.summary_refused(properties) {
            Some(refusal) => error == refusal,
            None => exists|column: int|
                0 <= column < properties["data"@]->Array_0.num_columns->0
                    && #[trigger] DpMaximum::released_column(release, column) == Err::<
                    ValueView,
                    Error,
                >(error),
        }
    }

    /// `summaries` is the summary of a private maximum: for each column, in
    /// order, its name, its release, its share of the privacy usage and the
    /// bounds that its data was held to.
    pub open spec fn is_summary<A: Fn(Operation) -> Float>(
        self,
        arithmetic: A,
        node_id: u32,
        submission: u32,
        data: ArrayPropertiesView,
        release: ValueView,
        variable_names: Option<Seq<Seq<char>>>,
        summaries: Seq<JSONReleaseView>,
    ) -> bool {
        &&& summaries.len() == (if data.num_columns->0 < 0 {
            0
        } else {
            data.num_columns->0 as int
        })
        &&& is_spread(
            arithmetic,
            self.privacy_usage@,
            data.num_columns->0,
            Seq::new(summaries.len(), |i: int| summaries[i].privacy_loss),
        )
        &&& forall|i: int|
            0 <= i < summaries.len() ==> DpMaximum::released_column(release, i) == Ok::<
                ValueView,
                Error,
            >((#[trigger] summaries[i]).release_info) && summaries[i] == self.summary_of(
                node_id,
                submission,
                data,
                variable_names,
                i,
                summaries[i].release_info,
                summaries[i].privacy_loss,
            )
    }

    /// The summary of the release of a private maximum, one entry for each
    /// column. Beside what refuses every summary, it is refused where the
    /// release of a column cannot be had: where the release is no numeric
    /// array, or has fewer columns than the data.
    pub fn summarize<A: Fn(Operation) -> Float>(
        &self,
        node_id: u32,
        component: &Component,
        _public_arguments: &Arguments<Value>,
        properties: NodeProperties,
        release: &Value,
        variable_names: Option<&Vec<String>>,
        arithmetic: &A,
    ) -> (r: Result<Option<Vec<JSONRelease>>, Error>)
        requires
            total(*arithmetic),
        ensures
            match r {
                Ok(summaries) => {
                    &&& self.summary_refused(properties@) is None
                    &&& summaries matches Some(summaries)
                    &&& self.is_summary(
                        *arithmetic,
                        node_id,
                        component.submission,
                        properties@["data"@]->Array_0,
                        release@,
                        match variable_names {
                            Some(names) => Some(names.deep_view()),
                            None => None,
                        },
                        summaries.deep_view(),
                    )
                },
                Err(e) => self.is_summary_refusal(properties@, release@, e),
            },
    {
        let data = match properties.get("data") {
            Some(data) => data,
            None => {
                return Err(Error::Missing(Argument::Data));
            },
        };
        let data_property = match data.array() {
            Ok(data) => data,
            Err(e) => {
                return Err(e.within(Argument::Data));
            },
        };
        let minimums = match data_property.lower_f64() {
            Ok(minimums) => minimums,
            Err(e) => {
                return Err(e);
            },
        };
        let maximums = match data_property.upper_f64() {
            Ok(maximums) => maximums,
            Err(e) => {
                return Err(e);
            },
        };
        let num_columns = match data_property.num_columns() {
            Ok(num_columns) => num_columns,
            Err(e) => {
                return Err(e);
            },
        };
        let privacy_usages = match spread_privacy_usage(&self.privacy_usage, num_columns, arithmetic) {
            Ok(privacy_usages) => privacy_usages,
            Err(e) => {
                return Err(e);
            },
        };
        if num_columns > 0 && (minimums.len() as u64) < num_columns as u64 {
            return Err(Error::BoundUnknown(Bound::Lower));
        }
        if num_columns > 0 && (maximums.len() as u64) < num_columns as u64 {
            return Err(Error::BoundUnknown(Bound::Upper));
        }
        let ghost names = match variable_names {
            Some(names) => Some(names.deep_view()),
            None => None,
        };
        let ghost view = properties@["data"@]->Array_0;
        let mut releases: Vec<JSONRelease> = Vec::new();
        let mut column_number: usize = 0;
        while num_columns > 0 && (column_number as u64) < num_columns as u64
            invariant
                view == data_property@,
                view == properties@["data"@]->Array_0,
                num_columns <= 0 ==> column_number == 0,
                view.f64_bound(Bound::Lower) == Ok::<Seq<Float>, Error>(minimums@),
                view.f64_bound(Bound::Upper) == Ok::<Seq<Float>, Error>(maximums@),
                view.num_columns == Some(num_columns),
                names == match variable_names {
                    Some(names) => Some(names.deep_view()),
                    None => None::<Seq<Seq<char>>>,
                },
                num_columns > 0 ==> minimums@.len() >= num_columns && maximums@.len() >= num_columns,
                privacy_usages@.len() == (if num_columns < 0 {
                    0
                } else {
                    num_columns as int
                }),
                is_spread(*arithmetic, self.privacy_usage@, num_columns, privacy_usages@),
                self.summary_refused(properties@) is None,
                num_columns > 0 ==> column_number <= num_columns,
                releases@.len() == column_number,
                forall|i: int|
                    0 <= i < column_number ==> DpMaximum::released_column(release@, i) == Ok::<
                        ValueView,
                        Error,
                    >((#[trigger] releases@[i])@.release_info) && releases@[i]@ == self.summary_of(
                        node_id,
                        component.submission,
                        view,
                        names,
                        i,
                        releases@[i]@.release_info,
                        privacy_usages@[i],
                    ),
            decreases num_columns - column_number,
        {
            let variable_name = match variable_names {
                Some(names) => if column_number < names.len() {
                    names[column_number].clone()
                } else {
                    "[Unknown]".to_owned()
                },
                None => "[Unknown]".to_owned(),
            };
            let release_info = match DpMaximum::release_column(release, column_number) {
                Ok(release_info) => release_info,
                Err(e) => {
                    assert(0 <= column_number < view.num_columns->0 && DpMaximum::released_column(
                        release@,
                        column_number as int,
                    ) == Err::<ValueView, Error>(e));
                    return Err(e);
                },
            };
            releases.push(
                JSONRelease {
                    description: "DP release information".to_owned(),
                    statistic: "DPMaximum".to_owned(),
                    variables: variable_name,
                    release_info,
                    privacy_loss: privacy_usages[column_number],
                    accuracy: None,
                    submission: component.submission,
                    node_id,
                    postprocess: false,
                    algorithm_info: AlgorithmInfo {
                        name: "".to_owned(),
                        cite: "".to_owned(),
                        mechanism: self.mechanism.clone(),
                        lower_bound: minimums[column_number],
                        upper_bound: maximums[column_number],
                    },
                },
            );
            let count = releases.len();
            assert(count == column_number + 1);
            column_number += 1;
        }
        proof {
            let summaries = releases.deep_view();
            assert(summaries.len() == releases@.len());
            assert forall|i: int| 0 <= i < summaries.len() implies summaries[i].privacy_loss
                == privacy_usages@[i] by {
                assert(summaries[i] == releases@[i]@);
            }
            assert(Seq::new(summaries.len(), |i: int| summaries[i].privacy_loss) =~= privacy_usages@);
        }
        Ok(Some(releases))
    }
}

impl DeepView for JSONRelease {
    type V = JSONReleaseView;

    open spec fn deep_view(&self) -> JSONReleaseView {
        self@
    }
}

} // verus!
