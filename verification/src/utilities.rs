//! Helpers that several components share.

use crate::array::NdArray;
use crate::base::{Arguments, ReleaseNode, ReleaseNodeView, Value, ValueView};
use crate::proto::{Component, ComponentView, Literal, Variant, VariantView};
use crate::atom::{duplicate_items, Atom};
use crate::base::{all_known, known_columns, unwrapped};
use crate::errors::Error;
use itertools::Itertools;
use vstd::prelude::*;

verus! {

/// The items in their order, each kept where it stands first.
pub open spec fn first_occurrences<T>(items: Seq<T>) -> Seq<T>
    decreases items.len(),
{
    if items.len() == 0 {
        Seq::empty()
    } else {
        let before = first_occurrences(items.drop_last());
        if before.contains(items.last()) {
            before
        } else {
            before.push(items.last())
        }
    }
}

/// The items in their order, without those that occurred before. This is
/// `Itertools::unique` on the items of the vector: it hands on each item that
/// it has not handed on before, and remembers them by `Hash` and `Eq`, which
/// on booleans, integers and strings tell apart exactly what differs.
#[verifier::external_body]
pub(crate) fn deduplicate<T: Atom + Eq + core::hash::Hash + Clone>(values: Vec<T>) -> (r: Vec<T>)
    ensures
        r.deep_view() == first_occurrences(values.deep_view()),
{
    values.into_iter().unique().collect()
}

/// The items in the opposite order.
pub fn reversed<T>(items: Vec<T>) -> (r: Vec<T>)
    ensures
        r@.len() == items@.len(),
        forall|i: int| 0 <= i < r@.len() ==> #[trigger] r@[i] == items@[items@.len() - 1 - i],
{
    let ghost given = items@;
    let mut items = items;
    let mut out: Vec<T> = Vec::new();
    while items.len() > 0
        invariant
            items@.len() + out@.len() == given.len(),
            items@ == given.take(items@.len() as int),
            forall|i: int| 0 <= i < out@.len() ==> #[trigger] out@[i] == given[given.len() - 1 - i],
        decreases items@.len(),
    {
        let ghost before = items@;
        let item = items.pop().unwrap();
        assert(items@ =~= given.take(items@.len() as int));
        out.push(item);
    }
    out
}

/// One list of categories for each of `length` columns: the lists as given
/// where there are `length` of them, and the one list `length` times where
/// only one is given.
pub open spec fn standardized_categories<T>(categories: Seq<Option<Seq<T>>>, length: i64) -> Result<
    Seq<Seq<T>>,
    Error,
> {
    if !all_known(categories) {
        Err(Error::CategoriesUndefined)
    } else if categories.len() == 0 {
        Err(Error::CategoriesEmpty)
    } else if categories.len() == 1 {
        Ok(crate::base::repeated(categories[0]->0, length as int))
    } else if categories.len() == length {
        Ok(unwrapped(categories))
    } else {
        Err(Error::CategoriesLength)
    }
}

/// One list of categories for each of `length` columns.
pub fn standardize_categorical_argument<T: Atom>(
    categories: &Vec<Option<Vec<T>>>,
    length: &i64,
) -> (r: Result<Vec<Vec<T>>, Error>)
    ensures
        match r {
            Ok(columns) => standardized_categories(categories.deep_view(), *length) == Ok::<
                Seq<Seq<T::V>>,
                Error,
            >(columns.deep_view()),
            Err(e) => standardized_categories(categories.deep_view(), *length) == Err::<
                Seq<Seq<T::V>>,
                Error,
            >(e),
        },
{
    let known = match known_columns(categories) {
        Some(known) => known,
        None => {
            return Err(Error::CategoriesUndefined);
        },
    };
    assert(known@.len() == known.deep_view().len());
    assert(categories@.len() == categories.deep_view().len());
    if known.len() == 0 {
        return Err(Error::CategoriesEmpty);
    }
    if known.len() == 1 {
        let mut out: Vec<Vec<T>> = Vec::new();
        let mut i: i64 = 0;
        while i < *length
            invariant
                0 <= i,
                i <= *length || (*length < 0 && i == 0),
                known@.len() == 1,
                out@.len() == i,
                forall|j: int| 0 <= j < i ==> (#[trigger] out@[j]).deep_view() == known@[0].deep_view(),
            decreases *length - i,
        {
            out.push(duplicate_items(&known[0]));
            i += 1;
        }
        proof {
            assert(known.deep_view()[0] == known@[0].deep_view());
            assert(out.deep_view() =~= crate::base::repeated(
                categories.deep_view()[0]->0,
                *length as int,
            ));
        }
        return Ok(out);
    }
    if *length >= 0 && known.len() as u64 == *length as u64 {
        return Ok(known);
    }
    Err(Error::CategoriesLength)
}

/// One null value for each of `length` columns: the one value `length`
/// times where only one is given, and the values as given where there are
/// `length` of them.
pub open spec fn standardized_nulls<T>(nulls: Seq<T>, length: i64) -> Result<Seq<T>, Error> {
    if nulls.len() == 0 {
        Err(Error::NullEmpty)
    } else if nulls.len() == 1 {
        Ok(crate::base::repeated(nulls[0], length as int))
    } else if nulls.len() == length {
        Ok(nulls)
    } else {
        Err(Error::NullLength)
    }
}

/// One null value for each of `length` columns.
pub fn standardize_null_target_argument<T: Atom>(null_values: &NdArray<T>, length: i64) -> (r: Result<
    Vec<T>,
    Error,
>)
    ensures
        match r {
            Ok(nulls) => standardized_nulls(null_values@.items, length) == Ok::<Seq<T::V>, Error>(
                nulls.deep_view(),
            ),
            Err(e) => standardized_nulls(null_values@.items, length) == Err::<Seq<T::V>, Error>(e),
        },
{
    let items = null_values.items();
    assert(null_values@.items =~= items.deep_view());
    if items.len() == 0 {
        return Err(Error::NullEmpty);
    }
    if items.len() == 1 {
        let mut out: Vec<T> = Vec::new();
        let mut i: i64 = 0;
        while i < length
            invariant
                0 <= i,
                i <= length || (length < 0 && i == 0),
                items@.len() == 1,
                out@.len() == i,
                forall|j: int| 0 <= j < i ==> (#[trigger] out@[j]).deep_view() == items@[0].deep_view(),
            decreases length - i,
        {
            out.push(items[0].duplicate());
            i += 1;
        }
        assert(out.deep_view() =~= crate::base::repeated(items.deep_view()[0], length as int));
        return Ok(out);
    }
    if length >= 0 && items.len() as u64 == length as u64 {
        return Ok(duplicate_items(items));
    }
    Err(Error::NullLength)
}

/// The columns, each known one with the null value of its column added at its
/// end, as far as there are null values.
pub open spec fn with_nulls<T>(columns: Seq<Option<Seq<T>>>, nulls: Seq<T>) -> Seq<Option<Seq<T>>> {
    Seq::new(
        columns.len(),
        |i: int|
            if i < nulls.len() {
                match columns[i] {
                    Some(column) => Some(column.push(nulls[i])),
                    None => None,
                }
            } else {
                columns[i]
            },
    )
}

/// The columns, each known one with the null value of its column added.
pub fn append_nulls<T: Atom>(columns: &Vec<Option<Vec<T>>>, nulls: &Vec<T>) -> (r: Vec<Option<Vec<T>>>)
    ensures
        r.deep_view() == with_nulls(columns.deep_view(), nulls.deep_view()),
{
    let mut out: Vec<Option<Vec<T>>> = Vec::new();
    let mut i: usize = 0;
    while i < columns.len()
        invariant
            i <= columns.len(),
            out@.len() == i,
            forall|j: int|
                0 <= j < i ==> (#[trigger] out@[j]).deep_view() == with_nulls(
                    columns.deep_view(),
                    nulls.deep_view(),
                )[j],
        decreases columns.len() - i,
    {
        let column = match &columns[i] {
            Some(column) => {
                let mut copy = duplicate_items(column);
                if i < nulls.len() {
                    let ghost before = copy.deep_view();
                    copy.push(nulls[i].duplicate());
                    assert(copy.deep_view() =~= before.push(nulls.deep_view()[i as int]));
                }
                Some(copy)
            },
            None => None,
        };
        assert(columns.deep_view()[i as int] == columns@[i as int].deep_view());
        out.push(column);
        i += 1;
    }
    assert(out.deep_view() =~= with_nulls(columns.deep_view(), nulls.deep_view()));
    out
}

/// The text in lower case, as Unicode maps each of its characters.
pub uninterp spec fn lowercase(text: Seq<char>) -> Seq<char>;

/// `str::to_lowercase`: the text with each character replaced by its lower
/// case.
#[verifier::external_body]
pub(crate) fn to_lowercase(text: &str) -> (r: String)
    ensures
        r@ == lowercase(text@),
{
    text.to_lowercase()
}

/// Whether the text reads as the literal does.
pub fn text_is(text: &String, literal: &str) -> (r: bool)
    ensures
        r == (text@ == literal@),
{
    let literal = literal.to_owned();
    *text == literal
}

/// The character of a decimal digit.
pub open spec fn digit(value: int) -> char {
    if value == 0 {
        '0'
    } else if value == 1 {
        '1'
    } else if value == 2 {
        '2'
    } else if value == 3 {
        '3'
    } else if value == 4 {
        '4'
    } else if value == 5 {
        '5'
    } else if value == 6 {
        '6'
    } else if value == 7 {
        '7'
    } else if value == 8 {
        '8'
    } else {
        '9'
    }
}

/// The decimal digits of a natural number, without leading zeros.
pub open spec fn digits(value: nat) -> Seq<char>
    decreases value,
{
    if value < 10 {
        seq![digit(value as int)]
    } else {
        digits(value / 10).push(digit((value % 10) as int))
    }
}

/// An integer in decimal notation, with a minus sign where it is negative.
pub open spec fn decimal(value: int) -> Seq<char> {
    if value < 0 {
        seq!['-'] + digits((-value) as nat)
    } else {
        digits(value as nat)
    }
}

/// `ToString::to_string` on an integer: its decimal notation.
#[verifier::external_body]
pub(crate) fn integer_text(value: i64) -> (r: String)
    ensures
        r@ == decimal(value as int),
{
    value.to_string()
}

/// The node of a literal: it takes no argument and is left out of a release.
pub open spec fn literal_node(submission: u32) -> ComponentView {
    ComponentView {
        arguments: Map::empty(),
        variant: Some(VariantView::Literal),
        omit: true,
        submission,
    }
}

/// The release of a literal: its value, which is public and cost no privacy.
pub open spec fn literal_release(value: ValueView) -> ReleaseNodeView {
    ReleaseNodeView { value, privacy_usages: None, public: true }
}

/// The node and the release of a literal that holds the value.
pub fn get_literal(value: Value, submission: u32) -> (r: (Component, ReleaseNode))
    ensures
        r.0@ == literal_node(submission),
        r.1@ == literal_release(value@),
{
    let arguments: Arguments<u32> = Arguments::new();
    assert(arguments@ =~= Map::<Seq<char>, u32>::empty());
    (
        Component {
            arguments,
            variant: Some(Variant::Literal(Literal {  })),
            omit: true,
            submission,
        },
        ReleaseNode { value, privacy_usages: None, public: true },
    )
}

} // verus!
