//! Values from their parts.

use crate::array::{NdArray, NdArrayView};
use crate::base::{
    Array, ArrayProperties, ArrayView, Hashmap, HashmapProperties, Jagged, JaggedProperties,
    JaggedView, Value, ValueProperties, ValuePropertiesView, ValueView,
};
use crate::float::Float;
use vstd::prelude::*;
use vstd::std_specs::convert::FromSpecImpl;

verus! {

/// An array without axes that holds one item.
pub open spec fn scalar_of<T>(item: T) -> NdArrayView<T> {
    NdArrayView { shape: Seq::empty(), items: seq![item] }
}

impl From<bool> for Value {
    fn from(value: bool) -> (r: Value)
        ensures
            r@ == ValueView::Array(ArrayView::Bool(scalar_of(value))),
    {
        let array = NdArray::scalar(value);
        assert(array@.items =~= seq![value]);
        Value::Array(Array::Bool(array))
    }
}

impl FromSpecImpl<bool> for Value {
    open spec fn obeys_from_spec() -> bool {
        false
    }

    open spec fn from_spec(value: bool) -> Value {
        arbitrary()
    }
}

impl From<i64> for Value {
    fn from(value: i64) -> (r: Value)
        ensures
            r@ == ValueView::Array(ArrayView::I64(scalar_of(value))),
    {
        let array = NdArray::scalar(value);
        assert(array@.items =~= seq![value]);
        Value::Array(Array::I64(array))
    }
}

impl FromSpecImpl<i64> for Value {
    open spec fn obeys_from_spec() -> bool {
        false
    }

    open spec fn from_spec(value: i64) -> Value {
        arbitrary()
    }
}

impl From<Float> for Value {
    fn from(value: Float) -> (r: Value)
        ensures
            r@ == ValueView::Array(ArrayView::F64(scalar_of(value))),
    {
        let array = NdArray::scalar(value);
        assert(array@.items =~= seq![value]);
        Value::Array(Array::F64(array))
    }
}

impl FromSpecImpl<Float> for Value {
    open spec fn obeys_from_spec() -> bool {
        false
    }

    open spec fn from_spec(value: Float) -> Value {
        arbitrary()
    }
}

impl From<String> for Value {
    fn from(value: String) -> (r: Value)
        ensures
            r@ == ValueView::Array(ArrayView::Str(scalar_of(value@))),
    {
        let array = NdArray::scalar(value);
        assert(array@.items =~= seq![value@]);
        Value::Array(Array::Str(array))
    }
}

impl FromSpecImpl<String> for Value {
    open spec fn obeys_from_spec() -> bool {
        false
    }

    open spec fn from_spec(value: String) -> Value {
        arbitrary()
    }
}

impl From<NdArray<bool>> for Value {
    fn from(value: NdArray<bool>) -> (r: Value)
        ensures
            r@ == ValueView::Array(ArrayView::Bool(value@)),
    {
        Value::Array(Array::Bool(value))
    }
}

impl FromSpecImpl<NdArray<bool>> for Value {
    open spec fn obeys_from_spec() -> bool {
        false
    }

    open spec fn from_spec(value: NdArray<bool>) -> Value {
        arbitrary()
    }
}

impl From<NdArray<i64>> for Value {
    fn from(value: NdArray<i64>) -> (r: Value)
        ensures
            r@ == ValueView::Array(ArrayView::I64(value@)),
    {
        Value::Array(Array::I64(value))
    }
}

impl FromSpecImpl<NdArray<i64>> for Value {
    open spec fn obeys_from_spec() -> bool {
        false
    }

    open spec fn from_spec(value: NdArray<i64>) -> Value {
        arbitrary()
    }
}

impl From<NdArray<Float>> for Value {
    fn from(value: NdArray<Float>) -> (r: Value)
        ensures
            r@ == ValueView::Array(ArrayView::F64(value@)),
    {
        Value::Array(Array::F64(value))
    }
}

impl FromSpecImpl<NdArray<Float>> for Value {
    open spec fn obeys_from_spec() -> bool {
        false
    }

    open spec fn from_spec(value: NdArray<Float>) -> Value {
        arbitrary()
    }
}

impl From<NdArray<String>> for Value {
    fn from(value: NdArray<String>) -> (r: Value)
        ensures
            r@ == ValueView::Array(ArrayView::Str(value@)),
    {
        Value::Array(Array::Str(value))
    }
}

impl FromSpecImpl<NdArray<String>> for Value {
    open spec fn obeys_from_spec() -> bool {
        false
    }

    open spec fn from_spec(value: NdArray<String>) -> Value {
        arbitrary()
    }
}

impl From<Vec<Option<Vec<Float>>>> for Jagged {
    fn from(value: Vec<Option<Vec<Float>>>) -> (r: Jagged)
        ensures
            r@ == JaggedView::F64(value.deep_view()),
    {
        Jagged::F64(value)
    }
}

impl FromSpecImpl<Vec<Option<Vec<Float>>>> for Jagged {
    open spec fn obeys_from_spec() -> bool {
        false
    }

    open spec fn from_spec(value: Vec<Option<Vec<Float>>>) -> Jagged {
        arbitrary()
    }
}

impl From<Vec<Option<Vec<i64>>>> for Jagged {
    fn from(value: Vec<Option<Vec<i64>>>) -> (r: Jagged)
        ensures
            r@ == JaggedView::I64(value.deep_view()),
    {
        Jagged::I64(value)
    }
}

impl FromSpecImpl<Vec<Option<Vec<i64>>>> for Jagged {
    open spec fn obeys_from_spec() -> bool {
        false
    }

    open spec fn from_spec(value: Vec<Option<Vec<i64>>>) -> Jagged {
        arbitrary()
    }
}

impl From<Vec<Option<Vec<bool>>>> for Jagged {
    fn from(value: Vec<Option<Vec<bool>>>) -> (r: Jagged)
        ensures
            r@ == JaggedView::Bool(value.deep_view()),
    {
        Jagged::Bool(value)
    }
}

impl FromSpecImpl<Vec<Option<Vec<bool>>>> for Jagged {
    open spec fn obeys_from_spec() -> bool {
        false
    }

    open spec fn from_spec(value: Vec<Option<Vec<bool>>>) -> Jagged {
        arbitrary()
    }
}

impl From<Vec<Option<Vec<String>>>> for Jagged {
    fn from(value: Vec<Option<Vec<String>>>) -> (r: Jagged)
        ensures
            r@ == JaggedView::Str(value.deep_view()),
    {
        Jagged::Str(value)
    }
}

impl FromSpecImpl<Vec<Option<Vec<String>>>> for Jagged {
    open spec fn obeys_from_spec() -> bool {
        false
    }

    open spec fn from_spec(value: Vec<Option<Vec<String>>>) -> Jagged {
        arbitrary()
    }
}

impl From<ArrayProperties> for ValueProperties {
    fn from(value: ArrayProperties) -> (r: ValueProperties)
        ensures
            r == ValueProperties::Array(value),
    {
        ValueProperties::Array(value)
    }
}

impl FromSpecImpl<ArrayProperties> for ValueProperties {
    open spec fn obeys_from_spec() -> bool {
        true
    }

    open spec fn from_spec(value: ArrayProperties) -> ValueProperties {
        ValueProperties::Array(value)
    }
}

impl From<HashmapProperties> for ValueProperties {
    fn from(value: HashmapProperties) -> (r: ValueProperties)
        ensures
            r == ValueProperties::Hashmap(value),
    {
        ValueProperties::Hashmap(value)
    }
}

impl FromSpecImpl<HashmapProperties> for ValueProperties {
    open spec fn obeys_from_spec() -> bool {
        true
    }

    open spec fn from_spec(value: HashmapProperties) -> ValueProperties {
        ValueProperties::Hashmap(value)
    }
}

impl From<JaggedProperties> for ValueProperties {
    fn from(value: JaggedProperties) -> (r: ValueProperties)
        ensures
            r == ValueProperties::Jagged(value),
    {
        ValueProperties::Jagged(value)
    }
}

impl FromSpecImpl<JaggedProperties> for ValueProperties {
    open spec fn obeys_from_spec() -> bool {
        true
    }

    open spec fn from_spec(value: JaggedProperties) -> ValueProperties {
        ValueProperties::Jagged(value)
    }
}

} // verus!
