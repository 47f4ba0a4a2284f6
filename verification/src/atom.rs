//! The four atomic types that arrays and jagged matrices hold, and the copying
//! of vectors of them.

use crate::float::Float;
use vstd::prelude::*;

verus! {

impl View for Float {
    type V = Float;

    open spec fn view(&self) -> Float {
        *self
    }
}

impl DeepView for Float {
    type V = Float;

    open spec fn deep_view(&self) -> Float {
        *self
    }
}

/// A type of item: `bool`, `i64`, `Float` or `String`.
pub trait Atom: Sized + DeepView {
    /// Whether two items count as the same value. Floats do as their values
    /// are equal: a NaN is like nothing, and the two zeros are alike.
    spec fn alike(a: Self::V, b: Self::V) -> bool;

    /// A copy that holds what this value holds.
    fn duplicate(&self) -> (r: Self)
        ensures
            r.deep_view() == self.deep_view(),
    ;

    /// Whether the two count as the same value.
    fn is_alike(&self, other: &Self) -> (r: bool)
        ensures
            r == Self::alike(self.deep_view(), other.deep_view()),
    ;
}

impl Atom for bool {
    open spec fn alike(a: bool, b: bool) -> bool {
        a == b
    }

    fn duplicate(&self) -> (r: bool) {
        *self
    }

    fn is_alike(&self, other: &bool) -> (r: bool) {
        *self == *other
    }
}

impl Atom for i64 {
    open spec fn alike(a: i64, b: i64) -> bool {
        a == b
    }

    fn duplicate(&self) -> (r: i64) {
        *self
    }

    fn is_alike(&self, other: &i64) -> (r: bool) {
        *self == *other
    }
}

impl Atom for Float {
    open spec fn alike(a: Float, b: Float) -> bool {
        a.same_value(b)
    }

    fn duplicate(&self) -> (r: Float) {
        *self
    }

    fn is_alike(&self, other: &Float) -> (r: bool) {
        self.equals(*other)
    }
}

impl Atom for String {
    open spec fn alike(a: Seq<char>, b: Seq<char>) -> bool {
        a == b
    }

    fn duplicate(&self) -> (r: String) {
        self.clone()
    }

    fn is_alike(&self, other: &String) -> (r: bool) {
        *self == *other
    }
}

/// A copy of a vector of items.
pub fn duplicate_items<T: Atom>(items: &Vec<T>) -> (r: Vec<T>)
    ensures
        r.deep_view() == items.deep_view(),
{
    let mut copy: Vec<T> = Vec::new();
    let mut i: usize = 0;
    while i < items.len()
        invariant
            i <= items.len(),
            copy@.len() == i,
            forall|j: int| 0 <= j < i ==> (#[trigger] copy@[j]).deep_view() == items@[j].deep_view(),
        decreases items.len() - i,
    {
        copy.push(items[i].duplicate());
        i += 1;
    }
    assert(copy.deep_view() =~= items.deep_view());
    copy
}

/// A copy of a column that may be unknown.
pub fn duplicate_column<T: Atom>(column: &Option<Vec<T>>) -> (r: Option<Vec<T>>)
    ensures
        r.deep_view() == column.deep_view(),
{
    match column {
        Some(items) => Some(duplicate_items(items)),
        None => None,
    }
}

/// A copy of a vector of columns.
pub fn duplicate_columns<T: Atom>(columns: &Vec<Option<Vec<T>>>) -> (r: Vec<Option<Vec<T>>>)
    ensures
        r.deep_view() == columns.deep_view(),
{
    let mut copy: Vec<Option<Vec<T>>> = Vec::new();
    let mut i: usize = 0;
    while i < columns.len()
        invariant
            i <= columns.len(),
            copy@.len() == i,
            forall|j: int| 0 <= j < i ==> (#[trigger] copy@[j]).deep_view() == columns@[j].deep_view(),
        decreases columns.len() - i,
    {
        copy.push(duplicate_column(&columns[i]));
        i += 1;
    }
    assert(copy.deep_view() =~= columns.deep_view());
    copy
}

/// A copy of a vector of items of which some may be unknown.
pub fn duplicate_options<T: Atom>(items: &Vec<Option<T>>) -> (r: Vec<Option<T>>)
    ensures
        r.deep_view() == items.deep_view(),
{
    let mut copy: Vec<Option<T>> = Vec::new();
    let mut i: usize = 0;
    while i < items.len()
        invariant
            i <= items.len(),
            copy@.len() == i,
            forall|j: int| 0 <= j < i ==> (#[trigger] copy@[j]).deep_view() == items@[j].deep_view(),
        decreases items.len() - i,
    {
        let item = match &items[i] {
            Some(item) => Some(item.duplicate()),
            None => None,
        };
        copy.push(item);
        i += 1;
    }
    assert(copy.deep_view() =~= items.deep_view());
    copy
}

} // verus!
