//! Arrays of at most two axes: axis 0 counts records, axis 1 counts columns.

use crate::atom::{duplicate_items, Atom};
use vstd::prelude::*;

verus! {

/// The number of items that an array of this shape holds.
pub open spec fn extent(shape: Seq<usize>) -> int {
    if shape.len() == 0 {
        1
    } else if shape.len() == 1 {
        shape[0] as int
    } else {
        shape[0] * shape[1]
    }
}

/// The number of records of an array of this shape: the length of the first
/// axis, and 1 without one.
pub open spec fn records(shape: Seq<usize>) -> int {
    if shape.len() == 0 {
        1
    } else {
        shape[0] as int
    }
}

/// The number of columns of an array of this shape: the length of the second
/// axis, and 1 without one.
pub open spec fn columns(shape: Seq<usize>) -> int {
    if shape.len() < 2 {
        1
    } else {
        shape[1] as int
    }
}

/// The items of one column, record by record.
pub open spec fn column_of<T>(shape: Seq<usize>, items: Seq<T>, column: int) -> Seq<T> {
    Seq::new(records(shape) as nat, |record: int| items[record * columns(shape) + column])
}

/// An array with zero, one or two axes; its items stand row by row.
#[derive(Debug, PartialEq, Eq)]
pub struct NdArray<T> {
    shape: Vec<usize>,
    items: Vec<T>,
}

/// What an array holds: the length of each axis, and the items row by row.
pub ghost struct NdArrayView<T> {
    pub shape: Seq<usize>,
    pub items: Seq<T>,
}

impl<T> NdArray<T> {
    #[verifier::type_invariant]
    spec fn well_formed(&self) -> bool {
        self.shape@.len() <= 2 && extent(self.shape@) == self.items@.len()
    }

    /// The length of each axis.
    pub closed spec fn dimensions(&self) -> Seq<usize> {
        self.shape@
    }

    /// The items, row by row.
    pub closed spec fn elements(&self) -> Seq<T> {
        self.items@
    }

    /// The array of the given shape and items, where there are at most two
    /// axes and as many items as the shape asks for.
    pub fn new(shape: Vec<usize>, items: Vec<T>) -> (r: Option<NdArray<T>>)
        ensures
            r is Some <==> shape@.len() <= 2 && extent(shape@) == items@.len(),
            r matches Some(array) ==> array.dimensions() == shape@ && array.elements() == items@,
    {
        let count = items.len();
        if shape.len() == 0 {
            if items.len() != 1 {
                return None;
            }
        } else if shape.len() == 1 {
            if items.len() != shape[0] {
                return None;
            }
        } else if shape.len() == 2 {
            assert(extent(shape@) == shape@[0] * shape@[1]);
            match shape[0].checked_mul(shape[1]) {
                Some(total) => {
                    if items.len() != total {
                        return None;
                    }
                },
                None => {
                    return None;
                },
            }
        } else {
            return None;
        }
        Some(NdArray { shape, items })
    }

    /// The array of the given shape and items, which fit each other.
    pub(crate) fn assemble(shape: Vec<usize>, items: Vec<T>) -> (r: NdArray<T>)
        requires
            shape@.len() <= 2,
            extent(shape@) == items@.len(),
        ensures
            r.dimensions() == shape@,
            r.elements() == items@,
    {
        NdArray { shape, items }
    }

    /// The array without axes that holds one item.
    pub fn scalar(item: T) -> (r: NdArray<T>)
        ensures
            r.dimensions() == Seq::<usize>::empty(),
            r.elements() == seq![item],
    {
        let mut items: Vec<T> = Vec::new();
        items.push(item);
        NdArray { shape: Vec::new(), items }
    }

    /// The array of one axis that holds the items.
    pub fn vector(items: Vec<T>) -> (r: NdArray<T>)
        ensures
            r.dimensions() == seq![items@.len() as usize],
            r.elements() == items@,
    {
        let mut shape: Vec<usize> = Vec::new();
        shape.push(items.len());
        NdArray { shape, items }
    }

    /// The array of one record that holds the items, one to a column.
    pub fn row(items: Vec<T>) -> (r: NdArray<T>)
        ensures
            r.dimensions() == seq![1usize, items@.len() as usize],
            r.elements() == items@,
    {
        let mut shape: Vec<usize> = Vec::new();
        shape.push(1);
        shape.push(items.len());
        assert(1 * items@.len() == items@.len()) by (nonlinear_arith);
        NdArray { shape, items }
    }

    /// The number of axes.
    pub fn ndim(&self) -> (r: usize)
        ensures
            r == self.dimensions().len(),
            r <= 2,
    {
        proof {
            use_type_invariant(self);
        }
        self.shape.len()
    }

    /// The number of items.
    pub fn len(&self) -> (r: usize)
        ensures
            r == self.elements().len(),
            r == extent(self.dimensions()),
            self.dimensions().len() <= 2,
    {
        proof {
            use_type_invariant(self);
        }
        self.items.len()
    }

    /// The length of each axis.
    pub fn shape(&self) -> (r: &Vec<usize>)
        ensures
            r@ == self.dimensions(),
            r@.len() <= 2,
            extent(r@) == self.elements().len(),
    {
        proof {
            use_type_invariant(self);
        }
        &self.shape
    }

    /// The items, row by row.
    pub fn items(&self) -> (r: &Vec<T>)
        ensures
            r@ == self.elements(),
            r@.len() == extent(self.dimensions()),
            self.dimensions().len() <= 2,
    {
        proof {
            use_type_invariant(self);
        }
        &self.items
    }

    /// The first item, if there is any.
    pub fn first(&self) -> (r: Option<&T>)
        ensures
            self.elements().len() == 0 ==> r is None,
            self.elements().len() > 0 ==> r == Some(&self.elements()[0]),
    {
        if self.items.len() == 0 {
            None
        } else {
            Some(&self.items[0])
        }
    }

    /// The number of records.
    pub fn num_records(&self) -> (r: usize)
        ensures
            r == records(self.dimensions()),
            self.dimensions().len() <= 2,
            records(self.dimensions()) * columns(self.dimensions()) == self.elements().len(),
    {
        proof {
            use_type_invariant(self);
            assert(records(self.shape@) * columns(self.shape@) == extent(self.shape@))
                by (nonlinear_arith)
                requires
                    self.shape@.len() <= 2,
                    extent(self.shape@) == (if self.shape@.len() == 0 {
                        1
                    } else if self.shape@.len() == 1 {
                        self.shape@[0] as int
                    } else {
                        self.shape@[0] * self.shape@[1]
                    }),
                    records(self.shape@) == (if self.shape@.len() == 0 {
                        1
                    } else {
                        self.shape@[0] as int
                    }),
                    columns(self.shape@) == (if self.shape@.len() < 2 {
                        1
                    } else {
                        self.shape@[1] as int
                    }),
            ;
        }
        if self.shape.len() == 0 {
            1
        } else {
            self.shape[0]
        }
    }

    /// The number of columns.
    pub fn num_columns(&self) -> (r: usize)
        ensures
            r == columns(self.dimensions()),
            self.dimensions().len() <= 2,
    {
        proof {
            use_type_invariant(self);
        }
        if self.shape.len() < 2 {
            1
        } else {
            self.shape[1]
        }
    }

    /// The item of the given record and column.
    pub fn item(&self, record: usize, column: usize) -> (r: &T)
        requires
            record < records(self.dimensions()),
            column < columns(self.dimensions()),
        ensures
            0 <= record * columns(self.dimensions()) + column < self.elements().len(),
            *r == self.elements()[record * columns(self.dimensions()) + column],
    {
        let width = self.num_columns();
        let height = self.num_records();
        let count = self.items.len();
        assert(height * width == count);
        assert(0 <= record * width <= record * width + column < height * width)
            by (nonlinear_arith)
            requires
                0 <= record < height,
                0 <= column < width,
        ;
        &self.items[record * width + column]
    }

    /// The shape and the items, taken apart.
    pub fn into_parts(self) -> (r: (Vec<usize>, Vec<T>))
        ensures
            r.0@ == self.dimensions(),
            r.1@ == self.elements(),
            r.0@.len() <= 2,
            extent(r.0@) == r.1@.len(),
    {
        proof {
            use_type_invariant(&self);
        }
        (self.shape, self.items)
    }
}

impl<T: Atom> NdArray<T> {
    /// A copy that holds what this value holds.
    pub fn duplicate(&self) -> (r: NdArray<T>)
        ensures
            r@ == self@,
    {
        proof {
            use_type_invariant(self);
        }
        let shape = self.shape.clone();
        let items = duplicate_items(&self.items);
        assert(shape@ =~= self.shape@);
        assert(items@.len() == items.deep_view().len());
        assert(self.items@.len() == self.items.deep_view().len());
        let r = NdArray { shape, items };
        assert(r@.items =~= self@.items) by {
            assert forall|i: int| 0 <= i < r.items@.len() implies r.items@[i].deep_view()
                == self.items@[i].deep_view() by {
                assert(r.items.deep_view()[i] == self.items.deep_view()[i]);
            }
        }
        r
    }
}

impl<T: DeepView> NdArray<T> {
    /// The first item, if there is any, by what it holds.
    pub fn head(&self) -> (r: Option<&T>)
        ensures
            r.deep_view() == (if self@.items.len() > 0 {
                Some(self@.items[0])
            } else {
                None
            }),
    {
        if self.items.len() == 0 {
            None
        } else {
            Some(&self.items[0])
        }
    }
}

impl<T: DeepView> View for NdArray<T> {
    type V = NdArrayView<T::V>;

    open spec fn view(&self) -> NdArrayView<T::V> {
        NdArrayView {
            shape: self.dimensions(),
            items: Seq::new(self.elements().len(), |i: int| self.elements()[i].deep_view()),
        }
    }
}

} // verus!
