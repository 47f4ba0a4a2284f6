//! Casting: data is converted to another atomic type.

use crate::atom::Atom;
use crate::base::{
    Arguments, Array, ArrayPropertiesView, ArrayView, DataType, Jagged, JaggedView, Nature,
    NatureCategorical, NatureView, NodeProperties, Value, ValueProperties, ValuePropertiesView,
    ValueView,
};
use crate::components::bounds::within;
use crate::components::resize::first_integer;
use crate::components::{Component, Warnable};
use crate::errors::{Argument, Error};
use crate::float::{Float, Operation};
use crate::proto::{Cast, PrivacyDefinition};
use crate::utilities::{
    decimal, deduplicate, first_occurrences, integer_text, lowercase, text_is, to_lowercase,
};
use vstd::prelude::*;

verus! {

/// The atomic type that a name in lower case stands for.
pub open spec fn parsed_atomic_type(lowered: Seq<char>) -> Result<DataType, Error> {
    if lowered == "float"@ || lowered == "real"@ {
        Ok(DataType::F64)
    } else if lowered == "int"@ || lowered == "integer"@ {
        Ok(DataType::I64)
    } else if lowered == "bool"@ {
        Ok(DataType::Bool)
    } else if lowered == "string"@ || lowered == "str"@ {
        Ok(DataType::Str)
    } else {
        Err(Error::UnrecognizedType)
    }
}

/// The atomic type that a name in lower case stands for.
pub fn parse_atomic_type(lowered: &String) -> (r: Result<DataType, Error>)
    ensures
        r == parsed_atomic_type(lowered@),
{
    if text_is(lowered, "float") || text_is(lowered, "real") {
        Ok(DataType::F64)
    } else if text_is(lowered, "int") || text_is(lowered, "integer") {
        Ok(DataType::I64)
    } else if text_is(lowered, "bool") {
        Ok(DataType::Bool)
    } else if text_is(lowered, "string") || text_is(lowered, "str") {
        Ok(DataType::Str)
    } else {
        Err(Error::UnrecognizedType)
    }
}

/// For each known column, whether each category is the label, without
/// repetitions.
pub open spec fn labelled<T: Atom>(columns: Seq<Option<Seq<T::V>>>, label: Option<T::V>) -> Seq<
    Option<Seq<bool>>,
> {
    Seq::new(
        columns.len(),
        |i: int|
            match columns[i] {
                Some(column) => Some(
                    first_occurrences(
                        Seq::new(
                            column.len(),
                            |k: int| label is Some && T::alike(column[k], label->0),
                        ),
                    ),
                ),
                None => None,
            },
    )
}

fn label_columns<T: Atom>(columns: &Vec<Option<Vec<T>>>, label: Option<&T>) -> (r: Vec<
    Option<Vec<bool>>,
>)
    ensures
        r.deep_view() == labelled::<T>(columns.deep_view(), label.deep_view()),
{
    let mut out: Vec<Option<Vec<bool>>> = Vec::new();
    let mut i: usize = 0;
    while i < columns.len()
        invariant
            i <= columns.len(),
            out@.len() == i,
            forall|j: int|
                0 <= j < i ==> (#[trigger] out@[j]).deep_view() == labelled::<T>(
                    columns.deep_view(),
                    label.deep_view(),
                )[j],
        decreases columns.len() - i,
    {
        let column = match &columns[i] {
            Some(column) => {
                let mut hits: Vec<bool> = Vec::new();
                let mut k: usize = 0;
                while k < column.len()
                    invariant
                        k <= column.len(),
                        hits@.len() == k,
                        forall|j: int|
                            0 <= j < k ==> #[trigger] hits@[j] == (label is Some && T::alike(
                                column@[j].deep_view(),
                                label->0.deep_view(),
                            )),
                    decreases column.len() - k,
                {
                    let hit = match label {
                        Some(label) => column[k].is_alike(label),
                        None => false,
                    };
                    hits.push(hit);
                    k += 1;
                }
                assert(hits.deep_view() =~= Seq::new(
                    column.deep_view().len(),
                    |k: int|
                        label.deep_view() is Some && T::alike(
                            column.deep_view()[k],
                            label.deep_view()->0,
                        ),
                ));
                Some(deduplicate(hits))
            },
            None => None,
        };
        assert(columns.deep_view()[i as int] == columns@[i as int].deep_view());
        out.push(column);
        i += 1;
    }
    assert(out.deep_view() =~= labelled::<T>(columns.deep_view(), label.deep_view()));
    out
}

/// The text of a boolean.
pub open spec fn boolean_text(value: bool) -> Seq<char> {
    if value {
        "true"@
    } else {
        "false"@
    }
}

/// For each known column, the text of each category, without repetitions.
pub open spec fn texts_of_booleans(columns: Seq<Option<Seq<bool>>>) -> Seq<Option<Seq<Seq<char>>>> {
    Seq::new(
        columns.len(),
        |i: int|
            match columns[i] {
                Some(column) => Some(
                    first_occurrences(Seq::new(column.len(), |k: int| boolean_text(column[k]))),
                ),
                None => None,
            },
    )
}

/// For each known column, the decimal notation of each category, without
/// repetitions.
pub open spec fn texts_of_integers(columns: Seq<Option<Seq<i64>>>) -> Seq<Option<Seq<Seq<char>>>> {
    Seq::new(
        columns.len(),
        |i: int|
            match columns[i] {
                Some(column) => Some(
                    first_occurrences(Seq::new(column.len(), |k: int| decimal(column[k] as int))),
                ),
                None => None,
            },
    )
}

fn boolean_texts(columns: &Vec<Option<Vec<bool>>>) -> (r: Vec<Option<Vec<String>>>)
    ensures
        r.deep_view() == texts_of_booleans(columns.deep_view()),
{
    let mut out: Vec<Option<Vec<String>>> = Vec::new();
    let mut i: usize = 0;
    while i < columns.len()
        invariant
            i <= columns.len(),
            out@.len() == i,
            forall|j: int|
                0 <= j < i ==> (#[trigger] out@[j]).deep_view() == texts_of_booleans(
                    columns.deep_view(),
                )[j],
        decreases columns.len() - i,
    {
        let column = match &columns[i] {
            Some(column) => {
                let mut texts: Vec<String> = Vec::new();
                let mut k: usize = 0;
                while k < column.len()
                    invariant
                        k <= column.len(),
                        texts@.len() == k,
                        forall|j: int| 0 <= j < k ==> (#[trigger] texts@[j])@ == boolean_text(column@[j]),
                    decreases column.len() - k,
                {
                    let text = if column[k] {
                        "true".to_owned()
                    } else {
                        "false".to_owned()
                    };
                    texts.push(text);
                    k += 1;
                }
                assert(texts.deep_view() =~= Seq::new(
                    column.deep_view().len(),
                    |k: int| boolean_text(column.deep_view()[k]),
                ));
                Some(deduplicate(texts))
            },
            None => None,
        };
        assert(columns.deep_view()[i as int] == columns@[i as int].deep_view());
        out.push(column);
        i += 1;
    }
    assert(out.deep_view() =~= texts_of_booleans(columns.deep_view()));
    out
}

fn integer_texts(columns: &Vec<Option<Vec<i64>>>) -> (r: Vec<Option<Vec<String>>>)
    ensures
        r.deep_view() == texts_of_integers(columns.deep_view()),
{
    let mut out: Vec<Option<Vec<String>>> = Vec::new();
    let mut i: usize = 0;
    while i < columns.len()
        invariant
            i <= columns.len(),
            out@.len() == i,
            forall|j: int|
                0 <= j < i ==> (#[trigger] out@[j]).deep_view() == texts_of_integers(
                    columns.deep_view(),
                )[j],
        decreases columns.len() - i,
    {
        let column = match &columns[i] {
            Some(column) => {
                let mut texts: Vec<String> = Vec::new();
                let mut k: usize = 0;
                while k < column.len()
                    invariant
                        k <= column.len(),
                        texts@.len() == k,
                        forall|j: int|
                            0 <= j < k ==> (#[trigger] texts@[j])@ == decimal(column@[j] as int),
                    decreases column.len() - k,
                {
                    texts.push(integer_text(column[k]));
                    k += 1;
                }
                assert(texts.deep_view() =~= Seq::new(
                    column.deep_view().len(),
                    |k: int| decimal(column.deep_view()[k] as int),
                ));
                Some(deduplicate(texts))
            },
            None => None,
        };
        assert(columns.deep_view()[i as int] == columns@[i as int].deep_view());
        out.push(column);
        i += 1;
    }
    assert(out.deep_view() =~= texts_of_integers(columns.deep_view()));
    out
}

/// The first item of an array, if it has one.
pub open spec fn first_item<T>(items: Seq<T>) -> Option<T> {
    if items.len() > 0 {
        Some(items[0])
    } else {
        None
    }
}

/// The boolean categories that categories become under the label of truth,
/// which must be of their type.
pub open spec fn categories_to_bool(categories: JaggedView, true_label: ArrayView) -> Result<
    JaggedView,
    Error,
> {
    match (categories, true_label) {
        (JaggedView::I64(columns), ArrayView::I64(label)) => Ok(
            JaggedView::Bool(labelled::<i64>(columns, first_item(label.items))),
        ),
        (JaggedView::F64(columns), ArrayView::F64(label)) => Ok(
            JaggedView::Bool(labelled::<Float>(columns, first_item(label.items))),
        ),
        (JaggedView::Bool(columns), ArrayView::Bool(label)) => Ok(
            JaggedView::Bool(labelled::<bool>(columns, first_item(label.items))),
        ),
        (JaggedView::Str(columns), ArrayView::Str(label)) => Ok(
            JaggedView::Bool(labelled::<String>(columns, first_item(label.items))),
        ),
        _ => Err(Error::TrueLabelType),
    }
}

/// The nature of data cast to strings: categories stay categories, those of
/// booleans and integers as their texts; all else is not known.
pub open spec fn nature_to_string(nature: Option<NatureView>) -> Option<NatureView> {
    match nature {
        Some(NatureView::Categorical { categories }) => match categories {
            JaggedView::F64(_) => None,
            JaggedView::Bool(columns) => Some(
                NatureView::Categorical { categories: JaggedView::Str(texts_of_booleans(columns)) },
            ),
            JaggedView::I64(columns) => Some(
                NatureView::Categorical { categories: JaggedView::Str(texts_of_integers(columns)) },
            ),
            JaggedView::Str(columns) => Some(
                NatureView::Categorical { categories: JaggedView::Str(columns) },
            ),
        },
        _ => None,
    }
}

/// The nature of data cast to booleans: categories become those of booleans
/// under the label of truth; where there were none and the number of columns
/// is known, every column may be true or false.
pub open spec fn nature_to_bool(data: ArrayPropertiesView, true_label: ArrayView) -> Result<
    Option<NatureView>,
    Error,
> {
    match data.nature {
        Some(NatureView::Categorical { categories }) => match categories_to_bool(
            categories,
            true_label,
        ) {
            Ok(categories) => Ok(Some(NatureView::Categorical { categories })),
            Err(e) => Err(e),
        },
        _ => Ok(
            match data.num_columns {
                Some(num_columns) => Some(
                    NatureView::Categorical {
                        categories: JaggedView::Bool(
                            crate::base::repeated(Some(seq![true, false]), num_columns as int),
                        ),
                    },
                ),
                None => None,
            },
        ),
    }
}

impl Cast {
    /// The properties of data cast to the given type. Casting is refused where
    /// the data is missing or no array, and where it was aggregated. A cast to
    /// booleans needs the label of truth, and one to integers a lower and an
    /// upper bound that are single integers.
    pub open spec fn propagated_as(
        data_type: DataType,
        public_arguments: Map<Seq<char>, ValueView>,
        data: ArrayPropertiesView,
    ) -> Result<ValuePropertiesView, Error> {
        match data_type {
            DataType::Bool => if !public_arguments.contains_key("true_label"@) {
                Err(Error::Missing(Argument::TrueLabel))
            } else {
                match public_arguments["true_label"@] {
                    ValueView::Array(true_label) => match nature_to_bool(data, true_label) {
                        Ok(nature) => Ok(
                            ValuePropertiesView::Array(
                                ArrayPropertiesView { data_type, nature, nullity: false, ..data },
                            ),
                        ),
                        Err(e) => Err(e),
                    },
                    _ => Err(Error::ValueNotArray),
                }
            },
            DataType::I64 => if !public_arguments.contains_key("lower"@) {
                Err(Error::Missing(Argument::Lower))
            } else {
                match first_integer(public_arguments["lower"@]) {
                    Err(Error::ValueNotArray) => Err(Error::ValueNotArray),
                    Err(e) => Err(within(Argument::Type, e)),
                    Ok(_) => if !public_arguments.contains_key("upper"@) {
                        Err(Error::Missing(Argument::Upper))
                    } else {
                        match first_integer(public_arguments["upper"@]) {
                            Err(Error::ValueNotArray) => Err(Error::ValueNotArray),
                            Err(e) => Err(within(Argument::Type, e)),
                            Ok(_) => Ok(
                                ValuePropertiesView::Array(
                                    ArrayPropertiesView {
                                        data_type,
                                        nature: None,
                                        nullity: false,
                                        ..data
                                    },
                                ),
                            ),
                        }
                    },
                }
            },
            DataType::Str => Ok(
                ValuePropertiesView::Array(
                    ArrayPropertiesView {
                        data_type,
                        nature: nature_to_string(data.nature),
                        nullity: false,
                        ..data
                    },
                ),
            ),
            DataType::F64 => Ok(
                ValuePropertiesView::Array(
                    ArrayPropertiesView {
                        data_type,
                        nature: None,
                        nullity: match data.data_type {
                            DataType::F64 => data.nullity,
                            DataType::Bool => false,
                            _ => true,
                        },
                        ..data
                    },
                ),
            ),
        }
    }

    /// The properties of cast data, the atomic type read from its name in
    /// lower case.
    pub open spec fn propagated(
        lowered: Seq<char>,
        public_arguments: Map<Seq<char>, ValueView>,
        properties: Map<Seq<char>, ValuePropertiesView>,
    ) -> Result<ValuePropertiesView, Error> {
        if !properties.contains_key("data"@) {
            Err(Error::Missing(Argument::Data))
        } else {
            match properties["data"@] {
                ValuePropertiesView::Array(data) => if data.aggregator is Some {
                    Err(Error::Aggregated)
                } else {
                    match parsed_atomic_type(lowered) {
                        Ok(data_type) => Cast::propagated_as(data_type, public_arguments, data),
                        Err(e) => Err(e),
                    }
                },
                _ => Err(within(Argument::Data, Error::PropertiesNotArray)),
            }
        }
    }

    /// The properties of data cast to the given type.
    pub fn propagate_as(
        data_type: DataType,
        public_arguments: &Arguments<Value>,
        data: &crate::base::ArrayProperties,
    ) -> (r: Result<ValueProperties, Error>)
        ensures
            match r {
                Ok(derived) => Cast::propagated_as(data_type, public_arguments@, data@) == Ok::<
                    ValuePropertiesView,
                    Error,
                >(derived@),
                Err(e) => Cast::propagated_as(data_type, public_arguments@, data@) == Err::<
                    ValuePropertiesView,
                    Error,
                >(e),
            },
    {
        let mut data_property = data.duplicate();
        let prior_datatype = data_property.data_type;
        data_property.data_type = data_type;
        match data_type {
            DataType::Bool => {
                let true_label = match public_arguments.get("true_label") {
                    Some(true_label) => true_label,
                    None => {
                        return Err(Error::Missing(Argument::TrueLabel));
                    },
                };
                let true_label = match true_label.array() {
                    Ok(true_label) => true_label,
                    Err(e) => {
                        return Err(e);
                    },
                };
                let nature = match &data_property.nature {
                    Some(Nature::Categorical(cat_nature)) => {
                        let categories = match (&cat_nature.categories, true_label) {
                            (Jagged::I64(cats), Array::I64(true_label)) => {
                                Jagged::Bool(label_columns(cats, true_label.head()))
                            },
                            (Jagged::F64(cats), Array::F64(true_label)) => {
                                Jagged::Bool(label_columns(cats, true_label.head()))
                            },
                            (Jagged::Bool(cats), Array::Bool(true_label)) => {
                                Jagged::Bool(label_columns(cats, true_label.head()))
                            },
                            (Jagged::Str(cats), Array::Str(true_label)) => {
                                Jagged::Bool(label_columns(cats, true_label.head()))
                            },
                            _ => {
                                return Err(Error::TrueLabelType);
                            },
                        };
                        Some(Nature::Categorical(NatureCategorical { categories }))
                    },
                    _ => None,
                };
                let nature = match nature {
                    Some(nature) => Some(nature),
                    None => match data_property.num_columns {
                        Some(num_columns) => {
                            let mut both: Vec<bool> = Vec::new();
                            both.push(true);
                            both.push(false);
                            let mut columns: Vec<Option<Vec<bool>>> = Vec::new();
                            let mut i: i64 = 0;
                            while i < num_columns
                                invariant
                                    0 <= i,
                                    i <= num_columns || (num_columns < 0 && i == 0),
                                    both@ == seq![true, false],
                                    columns@.len() == i,
                                    forall|j: int|
                                        0 <= j < i ==> (#[trigger] columns@[j]).deep_view() == Some(
                                            seq![true, false],
                                        ),
                                decreases num_columns - i,
                            {
                                let copy = both.clone();
                                assert(copy@ =~= both@);
                                assert(copy.deep_view() =~= seq![true, false]);
                                columns.push(Some(copy));
                                i += 1;
                            }
                            assert(columns.deep_view() =~= crate::base::repeated(
                                Some(seq![true, false]),
                                num_columns as int,
                            ));
                            Some(
                                Nature::Categorical(
                                    NatureCategorical { categories: Jagged::Bool(columns) },
                                ),
                            )
                        },
                        None => None,
                    },
                };
                data_property.nature = nature;
                data_property.nullity = false;
            },
            DataType::I64 => {
                let lower = match public_arguments.get("lower") {
                    Some(lower) => lower,
                    None => {
                        return Err(Error::Missing(Argument::Lower));
                    },
                };
                let lower = match lower.array() {
                    Ok(lower) => lower,
                    Err(e) => {
                        return Err(e);
                    },
                };
                match lower.first_i64() {
                    Ok(_) => {},
                    Err(e) => {
                        return Err(e.within(Argument::Type));
                    },
                }
                let upper = match public_arguments.get("upper") {
                    Some(upper) => upper,
                    None => {
                        return Err(Error::Missing(Argument::Upper));
                    },
                };
                let upper = match upper.array() {
                    Ok(upper) => upper,
                    Err(e) => {
                        return Err(e);
                    },
                };
                match upper.first_i64() {
                    Ok(_) => {},
                    Err(e) => {
                        return Err(e.within(Argument::Type));
                    },
                }
                data_property.nature = None;
                data_property.nullity = false;
            },
            DataType::Str => {
                data_property.nullity = false;
                let nature = match &data_property.nature {
                    Some(Nature::Categorical(nature)) => match &nature.categories {
                        Jagged::F64(_) => None,
                        Jagged::Bool(jagged) => Some(
                            Nature::Categorical(
                                NatureCategorical { categories: Jagged::Str(boolean_texts(jagged)) },
                            ),
                        ),
                        Jagged::I64(jagged) => Some(
                            Nature::Categorical(
                                NatureCategorical { categories: Jagged::Str(integer_texts(jagged)) },
                            ),
                        ),
                        Jagged::Str(jagged) => Some(
                            Nature::Categorical(
                                NatureCategorical {
                                    categories: Jagged::Str(crate::atom::duplicate_columns(jagged)),
                                },
                            ),
                        ),
                    },
                    _ => None,
                };
                data_property.nature = nature;
            },
            DataType::F64 => {
                data_property.nature = None;
                data_property.nullity = match prior_datatype {
                    DataType::F64 => data_property.nullity,
                    DataType::Bool => false,
                    _ => true,
                };
            },
        }
        Ok(ValueProperties::Array(data_property))
    }
}

impl Component for Cast {
    fn propagate_property<A: Fn(Operation) -> Float>(
        &self,
        _privacy_definition: &Option<PrivacyDefinition>,
        public_arguments: &Arguments<Value>,
        properties: NodeProperties,
        _node_id: u32,
        _arithmetic: &A,
    ) -> (r: Result<Warnable<ValueProperties>, Error>)
        ensures
            match r {
                Ok(derived) => Cast::propagated(
                    lowercase(self.atomic_type@),
                    public_arguments@,
                    properties@,
                ) == Ok::<ValuePropertiesView, Error>(derived.value@) && derived.warnings@.len() == 0,
                Err(e) => Cast::propagated(
                    lowercase(self.atomic_type@),
                    public_arguments@,
                    properties@,
                ) == Err::<ValuePropertiesView, Error>(e),
            },
    {
        let data = match properties.get("data") {
            Some(data) => data,
            None => {
                return Err(Error::Missing(Argument::Data));
            },
        };
        let data = match data.array() {
            Ok(data) => data,
            Err(e) => {
                return Err(e.within(Argument::Data));
            },
        };
        match data.assert_is_not_aggregated() {
            Ok(_) => {},
            Err(e) => {
                return Err(e);
            },
        }
        let lowered = to_lowercase(self.atomic_type.as_str());
        let data_type = match parse_atomic_type(&lowered) {
            Ok(data_type) => data_type,
            Err(e) => {
                return Err(e);
            },
        };
        match Cast::propagate_as(data_type, public_arguments, data) {
            Ok(derived) => Ok(Warnable::new(derived)),
            Err(e) => Err(e),
        }
    }
}

} // verus!
