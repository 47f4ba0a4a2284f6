//! The bounds of numeric data: where a component finds them, and how it
//! combines them with the bounds that the data already has.

use crate::atom::Atom;
use crate::base::{
    Arguments, Array, ArrayProperties, ArrayPropertiesView, ArrayView, DataType, NodeProperties,
    Value, ValuePropertiesView, ValueView, Vector1DNull, Vector1DNullView,
};
use crate::errors::{Argument, Bound, Error};
use crate::float::Float;
use vstd::prelude::*;

verus! {

/// The name of the argument that gives a bound.
pub open spec fn bound_name(which: Bound) -> Seq<char> {
    match which {
        Bound::Lower => "lower"@,
        Bound::Upper => "upper"@,
    }
}

/// The argument that errors about a bound are filed under.
pub open spec fn bound_argument(which: Bound) -> Argument {
    match which {
        Bound::Lower => Argument::Lower,
        Bound::Upper => Argument::Upper,
    }
}

/// The inner error, filed under the argument.
pub open spec fn within(argument: Argument, inner: Error) -> Error {
    Error::Argument(argument, Box::new(inner))
}

/// An atomic type that bounds can be of: integers and floats.
pub trait Numeric: Atom + Copy + DeepView<V = Self> {
    /// `self < other`.
    spec fn below(self, other: Self) -> bool;

    /// `self <= other`.
    spec fn at_most(self, other: Self) -> bool;

    /// The larger of the two.
    spec fn larger(self, other: Self) -> Self;

    /// The smaller of the two.
    spec fn smaller(self, other: Self) -> Self;

    /// Whether the value is no number, so that it has no order.
    spec fn undefined(self) -> bool;

    /// The atomic type.
    spec fn data_type() -> DataType;

    /// An array of this type as a vector.
    spec fn vector_of(array: ArrayView, optional_length: Option<i64>) -> Result<Seq<Self>, Error>;

    /// The bound of this type on each column, where the column has one.
    spec fn bound_option_of(properties: ArrayPropertiesView, which: Bound) -> Result<
        Seq<Option<Self>>,
        Error,
    >;

    /// The bound of this type on each column.
    spec fn bound_of(properties: ArrayPropertiesView, which: Bound) -> Result<Seq<Self>, Error>;

    /// A vector of bounds of this type.
    spec fn bounds_view(bounds: Seq<Option<Self>>) -> Vector1DNullView;

    /// A number is what it holds.
    proof fn lemma_view(self)
        ensures
            self.deep_view() == self,
    ;

    /// Of two numbers, the larger is one of them and at least both, and the
    /// smaller is one of them and at most both. What is below is at most, and
    /// only numbers are below one another.
    proof fn lemma_order(self, other: Self)
        ensures
            self.below(other) ==> !self.undefined() && !other.undefined() && self.at_most(other),
            !self.undefined() && !other.undefined() ==> {
                &&& self.larger(other) == self || self.larger(other) == other
                &&& self.at_most(self.larger(other))
                &&& other.at_most(self.larger(other))
                &&& self.smaller(other) == self || self.smaller(other) == other
                &&& self.smaller(other).at_most(self)
                &&& self.smaller(other).at_most(other)
            },
            !self.undefined() && other.undefined() ==> self.larger(other) == self && self.smaller(
                other,
            ) == self,
    ;

    fn is_below(self, other: Self) -> (r: bool)
        ensures
            r == self.below(other),
    ;

    fn take_larger(self, other: Self) -> (r: Self)
        ensures
            r == self.larger(other),
    ;

    fn take_smaller(self, other: Self) -> (r: Self)
        ensures
            r == self.smaller(other),
    ;

    fn is_undefined(self) -> (r: bool)
        ensures
            r == self.undefined(),
    ;

    fn kind() -> (r: DataType)
        ensures
            r == Self::data_type(),
    ;

    fn vector(array: &Array, optional_length: Option<i64>) -> (r: Result<Vec<Self>, Error>)
        ensures
            match r {
                Ok(v) => Self::vector_of(array@, optional_length) == Ok::<Seq<Self>, Error>(v@),
                Err(e) => Self::vector_of(array@, optional_length) == Err::<Seq<Self>, Error>(e),
            },
    ;

    fn bound_option(properties: &ArrayProperties, which: Bound) -> (r: Result<Vec<Option<Self>>, Error>)
        ensures
            match r {
                Ok(v) => Self::bound_option_of(properties@, which) == Ok::<Seq<Option<Self>>, Error>(
                    v@,
                ),
                Err(e) => Self::bound_option_of(properties@, which) == Err::<
                    Seq<Option<Self>>,
                    Error,
                >(e),
            },
    ;

    fn bound(properties: &ArrayProperties, which: Bound) -> (r: Result<Vec<Self>, Error>)
        ensures
            match r {
                Ok(v) => Self::bound_of(properties@, which) == Ok::<Seq<Self>, Error>(v@),
                Err(e) => Self::bound_of(properties@, which) == Err::<Seq<Self>, Error>(e),
            },
    ;

    fn bounds(bounds: Vec<Option<Self>>) -> (r: Vector1DNull)
        ensures
            r@ == Self::bounds_view(bounds@),
    ;
}

impl Numeric for i64 {
    open spec fn below(self, other: i64) -> bool {
        self < other
    }

    open spec fn at_most(self, other: i64) -> bool {
        self <= other
    }

    open spec fn larger(self, other: i64) -> i64 {
        if self < other {
            other
        } else {
            self
        }
    }

    open spec fn smaller(self, other: i64) -> i64 {
        if other < self {
            other
        } else {
            self
        }
    }

    open spec fn undefined(self) -> bool {
        false
    }

    open spec fn data_type() -> DataType {
        DataType::I64
    }

    open spec fn vector_of(array: ArrayView, optional_length: Option<i64>) -> Result<Seq<i64>, Error> {
        array.vec_i64(optional_length)
    }

    open spec fn bound_option_of(properties: ArrayPropertiesView, which: Bound) -> Result<
        Seq<Option<i64>>,
        Error,
    > {
        properties.i64_bound_option(which)
    }

    open spec fn bound_of(properties: ArrayPropertiesView, which: Bound) -> Result<Seq<i64>, Error> {
        properties.i64_bound(which)
    }

    open spec fn bounds_view(bounds: Seq<Option<i64>>) -> Vector1DNullView {
        Vector1DNullView::I64(bounds)
    }

    proof fn lemma_view(self) {
    }

    proof fn lemma_order(self, other: i64) {
    }

    fn is_below(self, other: i64) -> (r: bool) {
        self < other
    }

    fn take_larger(self, other: i64) -> (r: i64) {
        if self < other {
            other
        } else {
            self
        }
    }

    fn take_smaller(self, other: i64) -> (r: i64) {
        if other < self {
            other
        } else {
            self
        }
    }

    fn is_undefined(self) -> (r: bool) {
        false
    }

    fn kind() -> (r: DataType) {
        DataType::I64
    }

    fn vector(array: &Array, optional_length: Option<i64>) -> (r: Result<Vec<i64>, Error>) {
        array.vec_i64(optional_length)
    }

    fn bound_option(properties: &ArrayProperties, which: Bound) -> (r: Result<Vec<Option<i64>>, Error>) {
        let r = match which {
            Bound::Lower => properties.lower_i64_option(),
            Bound::Upper => properties.upper_i64_option(),
        };
        proof {
            if let Ok(v) = &r {
                assert(v@ =~= v.deep_view());
            }
        }
        r
    }

    fn bound(properties: &ArrayProperties, which: Bound) -> (r: Result<Vec<i64>, Error>) {
        match which {
            Bound::Lower => properties.lower_i64(),
            Bound::Upper => properties.upper_i64(),
        }
    }

    fn bounds(bounds: Vec<Option<i64>>) -> (r: Vector1DNull) {
        assert(bounds@ =~= bounds.deep_view());
        Vector1DNull::I64(bounds)
    }
}

impl Numeric for Float {
    open spec fn below(self, other: Float) -> bool {
        self.lt_spec(other)
    }

    open spec fn at_most(self, other: Float) -> bool {
        self.le_spec(other)
    }

    open spec fn larger(self, other: Float) -> Float {
        self.max_spec(other)
    }

    open spec fn smaller(self, other: Float) -> Float {
        self.min_spec(other)
    }

    open spec fn undefined(self) -> bool {
        self.is_nan_spec()
    }

    open spec fn data_type() -> DataType {
        DataType::F64
    }

    open spec fn vector_of(array: ArrayView, optional_length: Option<i64>) -> Result<Seq<Float>, Error> {
        array.vec_f64(optional_length)
    }

    open spec fn bound_option_of(properties: ArrayPropertiesView, which: Bound) -> Result<
        Seq<Option<Float>>,
        Error,
    > {
        properties.f64_bound_option(which)
    }

    open spec fn bound_of(properties: ArrayPropertiesView, which: Bound) -> Result<Seq<Float>, Error> {
        properties.f64_bound(which)
    }

    open spec fn bounds_view(bounds: Seq<Option<Float>>) -> Vector1DNullView {
        Vector1DNullView::F64(bounds)
    }

    proof fn lemma_view(self) {
    }

    proof fn lemma_order(self, other: Float) {
    }

    fn is_below(self, other: Float) -> (r: bool) {
        self.lt(other)
    }

    fn take_larger(self, other: Float) -> (r: Float) {
        self.max(other)
    }

    fn take_smaller(self, other: Float) -> (r: Float) {
        self.min(other)
    }

    fn is_undefined(self) -> (r: bool) {
        self.is_nan()
    }

    fn kind() -> (r: DataType) {
        DataType::F64
    }

    fn vector(array: &Array, optional_length: Option<i64>) -> (r: Result<Vec<Float>, Error>) {
        array.vec_f64(optional_length)
    }

    fn bound_option(properties: &ArrayProperties, which: Bound) -> (r: Result<
        Vec<Option<Float>>,
        Error,
    >) {
        let r = match which {
            Bound::Lower => properties.lower_f64_option(),
            Bound::Upper => properties.upper_f64_option(),
        };
        proof {
            if let Ok(v) = &r {
                assert(v@ =~= v.deep_view());
            }
        }
        r
    }

    fn bound(properties: &ArrayProperties, which: Bound) -> (r: Result<Vec<Float>, Error>) {
        match which {
            Bound::Lower => properties.lower_f64(),
            Bound::Upper => properties.upper_f64(),
        }
    }

    fn bounds(bounds: Vec<Option<Float>>) -> (r: Vector1DNull) {
        assert(bounds@ =~= bounds.deep_view());
        Vector1DNull::F64(bounds)
    }
}

/// The bound that a component is to work with, from the first of three
/// sources that has it: the public argument of the bound's name, read as one
/// value for each of `num_columns` columns; the bound that the properties of
/// the argument of that name carry; the bound that the data carries.
pub open spec fn resolved_bound<T: Numeric>(
    which: Bound,
    public_arguments: Map<Seq<char>, ValueView>,
    properties: Map<Seq<char>, ValuePropertiesView>,
    data: ArrayPropertiesView,
    num_columns: i64,
) -> Result<Seq<T>, Error> {
    let name = bound_name(which);
    if public_arguments.contains_key(name) {
        match public_arguments[name] {
            ValueView::Array(array) => match T::vector_of(array, Some(num_columns)) {
                Ok(bound) => Ok(bound),
                Err(e) => Err(within(bound_argument(which), e)),
            },
            _ => Err(Error::ValueNotArray),
        }
    } else if properties.contains_key(name) {
        match properties[name] {
            ValuePropertiesView::Array(array) => match T::bound_of(array, which) {
                Ok(bound) => Ok(bound),
                Err(e) => Err(within(bound_argument(which), e)),
            },
            _ => Err(Error::PropertiesNotArray),
        }
    } else {
        match T::bound_of(data, which) {
            Ok(bound) => Ok(bound),
            Err(e) => Err(within(bound_argument(which), e)),
        }
    }
}

/// The bound that a component is to work with.
pub fn resolve_bound<T: Numeric>(
    which: Bound,
    public_arguments: &Arguments<Value>,
    properties: &NodeProperties,
    data: &ArrayProperties,
    num_columns: i64,
) -> (r: Result<Vec<T>, Error>)
    ensures
        match r {
            Ok(bound) => resolved_bound::<T>(which, public_arguments@, properties@, data@, num_columns)
                == Ok::<Seq<T>, Error>(bound@),
            Err(e) => resolved_bound::<T>(which, public_arguments@, properties@, data@, num_columns)
                == Err::<Seq<T>, Error>(e),
        },
{
    let (name, argument) = match which {
        Bound::Lower => ("lower", Argument::Lower),
        Bound::Upper => ("upper", Argument::Upper),
    };
    assert(name@ == bound_name(which));
    match public_arguments.get(name) {
        Some(value) => {
            let array = match value.array() {
                Ok(array) => array,
                Err(e) => {
                    return Err(e);
                },
            };
            match T::vector(array, Some(num_columns)) {
                Ok(bound) => Ok(bound),
                Err(e) => Err(e.within(argument)),
            }
        },
        None => match properties.get(name) {
            Some(value) => {
                let array = match value.array() {
                    Ok(array) => array,
                    Err(e) => {
                        return Err(e);
                    },
                };
                match T::bound(array, which) {
                    Ok(bound) => Ok(bound),
                    Err(e) => Err(e.within(argument)),
                }
            },
            None => match T::bound(data, which) {
                Ok(bound) => Ok(bound),
                Err(e) => Err(e.within(argument)),
            },
        },
    }
}

/// The shorter of two lengths.
pub open spec fn shorter(a: nat, b: nat) -> nat {
    if a <= b {
        a
    } else {
        b
    }
}

/// Each lower bound is below the upper bound of its column, as far as both
/// vectors reach.
pub open spec fn strictly_below<T: Numeric>(lower: Seq<T>, upper: Seq<T>) -> bool {
    forall|i: int| 0 <= i < shorter(lower.len(), upper.len()) ==> (#[trigger] lower[i]).below(upper[i])
}

/// Whether each lower bound is below the upper bound of its column.
pub fn all_below<T: Numeric>(lower: &Vec<T>, upper: &Vec<T>) -> (r: bool)
    ensures
        r == strictly_below(lower@, upper@),
{
    let mut i: usize = 0;
    while i < lower.len() && i < upper.len()
        invariant
            i <= lower.len(),
            i <= upper.len(),
            forall|j: int| 0 <= j < i ==> (#[trigger] lower@[j]).below(upper@[j]),
        decreases lower.len() - i,
    {
        if !lower[i].is_below(upper[i]) {
            return false;
        }
        i += 1;
    }
    true
}

/// The bound pulled in to the bound that the data has in the same column: the
/// larger of two lower bounds, the smaller of two upper bounds. A column of
/// which the data knows no bound keeps the bound given. The result reaches as
/// far as both vectors do.
pub open spec fn tightened<T: Numeric>(which: Bound, bound: Seq<T>, data: Seq<Option<T>>) -> Seq<T> {
    Seq::new(
        shorter(bound.len(), data.len()),
        |i: int|
            match data[i] {
                Some(known) => if which == Bound::Lower {
                    bound[i].larger(known)
                } else {
                    bound[i].smaller(known)
                },
                None => bound[i],
            },
    )
}

/// The bound pulled in to the bound that the data has in the same column.
pub fn tighten<T: Numeric>(which: Bound, bound: &Vec<T>, data: &Vec<Option<T>>) -> (r: Vec<T>)
    ensures
        r@ == tightened(which, bound@, data@),
{
    let mut out: Vec<T> = Vec::new();
    let mut i: usize = 0;
    while i < bound.len() && i < data.len()
        invariant
            i <= bound.len(),
            i <= data.len(),
            out@.len() == i,
            forall|j: int| 0 <= j < i ==> #[trigger] out@[j] == tightened(which, bound@, data@)[j],
        decreases bound.len() - i,
    {
        let item = match data[i] {
            Some(known) => match which {
                Bound::Lower => bound[i].take_larger(known),
                Bound::Upper => bound[i].take_smaller(known),
            },
            None => bound[i],
        };
        out.push(item);
        i += 1;
    }
    assert(out@ =~= tightened(which, bound@, data@));
    out
}

/// The bound pushed out to the bound that the data has in the same column: the
/// smaller of two lower bounds, the larger of two upper bounds. Of a column of
/// which the data knows no bound, none is known afterwards. The result reaches
/// as far as both vectors do.
pub open spec fn widened<T: Numeric>(which: Bound, bound: Seq<T>, data: Seq<Option<T>>) -> Seq<
    Option<T>,
> {
    Seq::new(
        shorter(bound.len(), data.len()),
        |i: int|
            match data[i] {
                Some(known) => Some(
                    if which == Bound::Lower {
                        bound[i].smaller(known)
                    } else {
                        bound[i].larger(known)
                    },
                ),
                None => None,
            },
    )
}

/// The bound pushed out to the bound that the data has in the same column.
pub fn widen<T: Numeric>(which: Bound, bound: &Vec<T>, data: &Vec<Option<T>>) -> (r: Vec<Option<T>>)
    ensures
        r@ == widened(which, bound@, data@),
{
    let mut out: Vec<Option<T>> = Vec::new();
    let mut i: usize = 0;
    while i < bound.len() && i < data.len()
        invariant
            i <= bound.len(),
            i <= data.len(),
            out@.len() == i,
            forall|j: int| 0 <= j < i ==> #[trigger] out@[j] == widened(which, bound@, data@)[j],
        decreases bound.len() - i,
    {
        let item = match data[i] {
            Some(known) => Some(
                match which {
                    Bound::Lower => bound[i].take_smaller(known),
                    Bound::Upper => bound[i].take_larger(known),
                },
            ),
            None => None,
        };
        out.push(item);
        i += 1;
    }
    assert(out@ =~= widened(which, bound@, data@));
    out
}

/// Each item put into a `Some`.
pub fn wrap<T: Copy>(items: &Vec<T>) -> (r: Vec<Option<T>>)
    ensures
        r@ == crate::base::wrapped(items@),
{
    let mut out: Vec<Option<T>> = Vec::new();
    let mut i: usize = 0;
    while i < items.len()
        invariant
            i <= items.len(),
            out@.len() == i,
            forall|j: int| 0 <= j < i ==> #[trigger] out@[j] == Some(items@[j]),
        decreases items.len() - i,
    {
        out.push(Some(items[i]));
        i += 1;
    }
    assert(out@ =~= crate::base::wrapped(items@));
    out
}

/// As many unknown bounds as there are columns; none where the number is
/// negative.
pub fn unknown<T: Copy>(num_columns: i64) -> (r: Vec<Option<T>>)
    ensures
        r@ == crate::base::repeated(None::<T>, num_columns as int),
{
    crate::base::repeat(None, num_columns)
}

} // verus!
