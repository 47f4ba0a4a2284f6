//! What resizing is asked to do, read from the arguments of the component.
//! The synthetic data itself is random, and is drawn by the caller.

use crate::array::{NdArray, NdArrayView};
use crate::base::{all_known, unwrapped, Arguments, Array, ArrayView, Jagged, JaggedView, Value, ValueView};
use crate::components::resize::first_integer;
use crate::errors::{Argument, Error};
use crate::float::Float;
use crate::proto::{PrivacyDefinition, Resize};
use crate::utilities::{lowercase, text_is, to_lowercase};
use vstd::prelude::*;

verus! {

/// From what synthetic data is made.
#[derive(Debug, PartialEq)]
#[allow(inconsistent_fields)]
pub enum Synthesis {
    /// Floats between the bounds, drawn as the distribution says.
    Floats {
        lower: NdArray<Float>,
        upper: NdArray<Float>,
        distribution: String,
        shift: Option<NdArray<Float>>,
        scale: Option<NdArray<Float>>,
    },
    /// Integers between the bounds.
    Integers { lower: NdArray<i64>, upper: NdArray<i64> },
    /// Categories of each column, drawn by their weights where there are any.
    Categories { categories: Jagged, weights: Option<Vec<Vec<Float>>> },
}

/// What a [`Synthesis`] holds.
#[allow(inconsistent_fields)]
pub ghost enum SynthesisView {
    Floats {
        lower: NdArrayView<Float>,
        upper: NdArrayView<Float>,
        distribution: Seq<char>,
        shift: Option<NdArrayView<Float>>,
        scale: Option<NdArrayView<Float>>,
    },
    Integers { lower: NdArrayView<i64>, upper: NdArrayView<i64> },
    Categories { categories: JaggedView, weights: Option<Seq<Seq<Float>>> },
}

/// What an array that may be missing holds.
pub open spec fn optional_view(array: Option<NdArray<Float>>) -> Option<NdArrayView<Float>> {
    match array {
        Some(array) => Some(array@),
        None => None,
    }
}

impl View for Synthesis {
    type V = SynthesisView;

    open spec fn view(&self) -> SynthesisView {
        match *self {
            Synthesis::Floats { lower, upper, distribution, shift, scale } => SynthesisView::Floats {
                lower: lower@,
                upper: upper@,
                distribution: distribution@,
                shift: optional_view(shift),
                scale: optional_view(scale),
            },
            Synthesis::Integers { lower, upper } => SynthesisView::Integers {
                lower: lower@,
                upper: upper@,
            },
            Synthesis::Categories { categories, weights } => SynthesisView::Categories {
                categories: categories@,
                weights: match weights {
                    Some(weights) => Some(weights.deep_view()),
                    None => None,
                },
            },
        }
    }
}

/// Data to resize, the numbers to resize it to, and from what synthetic data
/// is made.
#[derive(Debug, PartialEq)]
pub struct Resizing {
    pub data: Array,
    pub number_rows: Option<i64>,
    pub number_cols: Option<i64>,
    pub minimum_rows: Option<i64>,
    pub enforce_constant_time: bool,
    pub synthesis: Synthesis,
}

/// What a [`Resizing`] holds.
pub ghost struct ResizingView {
    pub data: ArrayView,
    pub number_rows: Option<i64>,
    pub number_cols: Option<i64>,
    pub minimum_rows: Option<i64>,
    pub enforce_constant_time: bool,
    pub synthesis: SynthesisView,
}

impl View for Resizing {
    type V = ResizingView;

    open spec fn view(&self) -> ResizingView {
        ResizingView {
            data: self.data@,
            number_rows: self.number_rows,
            number_cols: self.number_cols,
            minimum_rows: self.minimum_rows,
            enforce_constant_time: self.enforce_constant_time,
            synthesis: self.synthesis@,
        }
    }
}

/// The integer that an argument holds; none where the argument is missing or
/// is no single integer.
pub open spec fn integer_at(arguments: Map<Seq<char>, ValueView>, name: Seq<char>) -> Option<i64> {
    if arguments.contains_key(name) {
        match first_integer(arguments[name]) {
            Ok(number) => Some(number),
            Err(_) => None,
        }
    } else {
        None
    }
}

/// The weights of the categories; none where the argument is missing or is no
/// jagged matrix of floats with every column known.
pub open spec fn weights_at(arguments: Map<Seq<char>, ValueView>) -> Option<Seq<Seq<Float>>> {
    if arguments.contains_key("weights"@) {
        match arguments["weights"@] {
            ValueView::Jagged(JaggedView::F64(columns)) => if all_known(columns) {
                Some(unwrapped(columns))
            } else {
                None
            },
            _ => None,
        }
    } else {
        None
    }
}

/// The array of floats that an argument holds, where the argument is there.
/// An argument that is no array of floats is refused.
pub open spec fn floats_at(arguments: Map<Seq<char>, ValueView>, name: Seq<char>) -> Result<
    Option<NdArrayView<Float>>,
    Error,
> {
    if arguments.contains_key(name) {
        match arguments[name] {
            ValueView::Array(ArrayView::F64(array)) => Ok(Some(array)),
            ValueView::Array(other) => Err(
                Error::AtomicType { expected: crate::base::DataType::F64, actual: other.data_type() },
            ),
            _ => Err(Error::ValueNotArray),
        }
    } else {
        Ok(None)
    }
}

/// The name of the distribution: uniform where none is given. An argument
/// that is no single string is refused.
pub open spec fn distribution_at(arguments: Map<Seq<char>, ValueView>) -> Result<Seq<char>, Error> {
    if arguments.contains_key("distribution"@) {
        match arguments["distribution"@] {
            ValueView::Array(array) => array.first_string(),
            _ => Err(Error::ValueNotArray),
        }
    } else {
        Ok("uniform"@)
    }
}

/// The data and what its synthetic data is made from, for data with
/// categories: data and categories of one type, which is not float.
pub open spec fn categorical_synthesis(arguments: Map<Seq<char>, ValueView>) -> Result<
    (ArrayView, SynthesisView),
    Error,
> {
    if !arguments.contains_key("data"@) {
        Err(Error::Missing(Argument::Data))
    } else {
        match (arguments["data"@], arguments["categories"@]) {
            (ValueView::Array(data), ValueView::Jagged(categories)) => match (data, categories) {
                (ArrayView::F64(_), JaggedView::F64(_)) => Err(Error::FloatCategorical),
                (ArrayView::I64(_), JaggedView::I64(_))
                | (ArrayView::Bool(_), JaggedView::Bool(_))
                | (ArrayView::Str(_), JaggedView::Str(_)) => Ok(
                    (data, SynthesisView::Categories { categories, weights: weights_at(arguments) }),
                ),
                _ => Err(Error::CategoriesType),
            },
            (ValueView::Array(_), _) => Err(Error::ValueNotJagged),
            _ => Err(Error::ValueNotArray),
        }
    }
}

/// The data and what its synthetic data is made from, for data without
/// categories: data and bounds that are all floats or all integers.
pub open spec fn numeric_synthesis(arguments: Map<Seq<char>, ValueView>) -> Result<
    (ArrayView, SynthesisView),
    Error,
> {
    if !arguments.contains_key("data"@) {
        Err(Error::Missing(Argument::Data))
    } else if !(arguments["data"@] is Array) {
        Err(Error::ValueNotArray)
    } else if !arguments.contains_key("lower"@) {
        Err(Error::Missing(Argument::Lower))
    } else if !(arguments["lower"@] is Array) {
        Err(Error::ValueNotArray)
    } else if !arguments.contains_key("upper"@) {
        Err(Error::Missing(Argument::Upper))
    } else if !(arguments["upper"@] is Array) {
        Err(Error::ValueNotArray)
    } else {
        match (
            arguments["data"@]->Array_0,
            arguments["lower"@]->Array_0,
            arguments["upper"@]->Array_0,
        ) {
            (ArrayView::F64(data), ArrayView::F64(lower), ArrayView::F64(upper)) => match (
                distribution_at(arguments),
                floats_at(arguments, "shift"@),
                floats_at(arguments, "scale"@),
            ) {
                (Err(e), _, _) => Err(e),
                (Ok(_), Err(e), _) => Err(e),
                (Ok(_), Ok(_), Err(e)) => Err(e),
                (Ok(distribution), Ok(shift), Ok(scale)) => Ok(
                    (
                        ArrayView::F64(data),
                        SynthesisView::Floats { lower, upper, distribution, shift, scale },
                    ),
                ),
            },
            (ArrayView::I64(data), ArrayView::I64(lower), ArrayView::I64(upper)) => Ok(
                (ArrayView::I64(data), SynthesisView::Integers { lower, upper }),
            ),
            _ => Err(Error::ResizeNotNumeric),
        }
    }
}

impl Resize {
    /// What resizing is asked to do. A minimum of records takes the place of
    /// the number of records. With categories, the data is resized as
    /// categorical; without, as numbers between bounds.
    pub open spec fn planned(
        privacy_definition: Option<PrivacyDefinition>,
        arguments: Map<Seq<char>, ValueView>,
    ) -> Result<ResizingView, Error> {
        let minimum_rows = integer_at(arguments, "minimum_rows"@);
        let synthesis = if arguments.contains_key("categories"@) {
            categorical_synthesis(arguments)
        } else {
            numeric_synthesis(arguments)
        };
        match synthesis {
            Err(e) => Err(e),
            Ok((data, synthesis)) => Ok(
                ResizingView {
                    data,
                    number_rows: if minimum_rows is Some {
                        minimum_rows
                    } else {
                        integer_at(arguments, "number_rows"@)
                    },
                    number_cols: integer_at(arguments, "number_columns"@),
                    minimum_rows,
                    enforce_constant_time: privacy_definition matches Some(definition)
                        && definition.protect_elapsed_time,
                    synthesis,
                },
            ),
        }
    }

    /// What resizing is asked to do.
    pub fn plan(
        &self,
        privacy_definition: &Option<PrivacyDefinition>,
        arguments: &Arguments<Value>,
    ) -> (r: Result<Resizing, Error>)
        ensures
            match r {
                Ok(resizing) => Resize::planned(*privacy_definition, arguments@) == Ok::<
                    ResizingView,
                    Error,
                >(resizing@),
                Err(e) => Resize::planned(*privacy_definition, arguments@) == Err::<
                    ResizingView,
                    Error,
                >(e),
            },
    {
        let enforce_constant_time = match privacy_definition {
            Some(definition) => definition.protect_elapsed_time,
            None => false,
        };
        let minimum_rows = get_integer(arguments, "minimum_rows");
        let number_rows = match minimum_rows {
            Some(_) => minimum_rows,
            None => get_integer(arguments, "number_rows"),
        };
        let number_cols = get_integer(arguments, "number_columns");
        let (data, synthesis) = if arguments.contains_key("categories") {
            plan_categorical(arguments)?
        } else {
            plan_numeric(arguments)?
        };
        Ok(
            Resizing {
                data,
                number_rows,
                number_cols,
                minimum_rows,
                enforce_constant_time,
                synthesis,
            },
        )
    }
}

fn get_integer(arguments: &Arguments<Value>, name: &str) -> (r: Option<i64>)
    ensures
        r == integer_at(arguments@, name@),
{
    match arguments.get(name) {
        Some(value) => match value.array() {
            Ok(array) => match array.first_i64() {
                Ok(number) => Some(number),
                Err(_) => None,
            },
            Err(_) => None,
        },
        None => None,
    }
}

fn get_weights(arguments: &Arguments<Value>) -> (r: Option<Vec<Vec<Float>>>)
    ensures
        match r {
            Some(weights) => weights_at(arguments@) == Some(weights.deep_view()),
            None => weights_at(arguments@) is None,
        },
{
    match arguments.get("weights") {
        Some(value) => match value.jagged() {
            Ok(jagged) => match jagged.float() {
                Ok(weights) => Some(weights),
                Err(_) => None,
            },
            Err(_) => None,
        },
        None => None,
    }
}

fn get_floats(arguments: &Arguments<Value>, name: &str) -> (r: Result<Option<NdArray<Float>>, Error>)
    ensures
        match r {
            Ok(array) => floats_at(arguments@, name@) == Ok::<Option<NdArrayView<Float>>, Error>(
                optional_view(array),
            ),
            Err(e) => floats_at(arguments@, name@) == Err::<Option<NdArrayView<Float>>, Error>(e),
        },
{
    match arguments.get(name) {
        Some(value) => {
            let array = value.array()?.float()?;
            Ok(Some(array.duplicate()))
        },
        None => Ok(None),
    }
}

fn get_distribution(arguments: &Arguments<Value>) -> (r: Result<String, Error>)
    ensures
        match r {
            Ok(name) => distribution_at(arguments@) == Ok::<Seq<char>, Error>(name@),
            Err(e) => distribution_at(arguments@) == Err::<Seq<char>, Error>(e),
        },
{
    match arguments.get("distribution") {
        Some(value) => value.array()?.first_string(),
        None => Ok("uniform".to_owned()),
    }
}

fn plan_categorical(arguments: &Arguments<Value>) -> (r: Result<(Array, Synthesis), Error>)
    requires
        arguments@.contains_key("categories"@),
    ensures
        match r {
            Ok((data, synthesis)) => categorical_synthesis(arguments@) == Ok::<
                (ArrayView, SynthesisView),
                Error,
            >((data@, synthesis@)),
            Err(e) => categorical_synthesis(arguments@) == Err::<(ArrayView, SynthesisView), Error>(
                e,
            ),
        },
{
    let data = match arguments.get("data") {
        Some(data) => data,
        None => {
            return Err(Error::Missing(Argument::Data));
        },
    };
    let categories = match arguments.get("categories") {
        Some(categories) => categories,
        None => {
            return Err(Error::Missing(Argument::Categories));
        },
    };
    let data = match data {
        Value::Array(data) => data,
        _ => {
            return Err(Error::ValueNotArray);
        },
    };
    let categories = match categories {
        Value::Jagged(categories) => categories,
        _ => {
            return Err(Error::ValueNotJagged);
        },
    };
    match (data, categories) {
        (Array::F64(_), Jagged::F64(_)) => Err(Error::FloatCategorical),
        (Array::I64(_), Jagged::I64(_))
        | (Array::Bool(_), Jagged::Bool(_))
        | (Array::Str(_), Jagged::Str(_)) => Ok(
            (
                data.duplicate(),
                Synthesis::Categories {
                    categories: categories.duplicate(),
                    weights: get_weights(arguments),
                },
            ),
        ),
        _ => Err(Error::CategoriesType),
    }
}

fn plan_numeric(arguments: &Arguments<Value>) -> (r: Result<(Array, Synthesis), Error>)
    ensures
        match r {
            Ok((data, synthesis)) => numeric_synthesis(arguments@) == Ok::<
                (ArrayView, SynthesisView),
                Error,
            >((data@, synthesis@)),
            Err(e) => numeric_synthesis(arguments@) == Err::<(ArrayView, SynthesisView), Error>(e),
        },
{
    let data = match arguments.get("data") {
        Some(data) => data.array()?,
        None => {
            return Err(Error::Missing(Argument::Data));
        },
    };
    let lower = match arguments.get("lower") {
        Some(lower) => lower.array()?,
        None => {
            return Err(Error::Missing(Argument::Lower));
        },
    };
    let upper = match arguments.get("upper") {
        Some(upper) => upper.array()?,
        None => {
            return Err(Error::Missing(Argument::Upper));
        },
    };
    match (data, lower, upper) {
        (Array::F64(_), Array::F64(lower), Array::F64(upper)) => {
            let distribution = get_distribution(arguments)?;
            let shift = get_floats(arguments, "shift")?;
            let scale = get_floats(arguments, "scale")?;
            Ok(
                (
                    data.duplicate(),
                    Synthesis::Floats {
                        lower: lower.duplicate(),
                        upper: upper.duplicate(),
                        distribution,
                        shift,
                        scale,
                    },
                ),
            )
        },
        (Array::I64(_), Array::I64(lower), Array::I64(upper)) => Ok(
            (
                data.duplicate(),
                Synthesis::Integers { lower: lower.duplicate(), upper: upper.duplicate() },
            ),
        ),
        _ => Err(Error::ResizeNotNumeric),
    }
}

/// How synthetic floats are drawn.
#[derive(Debug, PartialEq)]
pub enum Imputation {
    /// Evenly between the bounds.
    Uniform,
    /// Normally around the shift with the scale as deviation, held to the
    /// bounds.
    Gaussian { shift: NdArray<Float>, scale: NdArray<Float> },
}

/// What an [`Imputation`] holds.
pub ghost enum ImputationView {
    Uniform,
    Gaussian { shift: NdArrayView<Float>, scale: NdArrayView<Float> },
}

impl View for Imputation {
    type V = ImputationView;

    open spec fn view(&self) -> ImputationView {
        match *self {
            Imputation::Uniform => ImputationView::Uniform,
            Imputation::Gaussian { shift, scale } => ImputationView::Gaussian {
                shift: shift@,
                scale: scale@,
            },
        }
    }
}

/// How synthetic floats are drawn under a distribution named in lower case:
/// the Gaussian distribution needs a shift and a scale, and no other
/// distribution but the uniform is known.
pub open spec fn imputation_named(
    lowered: Seq<char>,
    shift: Option<NdArrayView<Float>>,
    scale: Option<NdArrayView<Float>>,
) -> Result<ImputationView, Error> {
    if lowered == "uniform"@ {
        Ok(ImputationView::Uniform)
    } else if lowered == "gaussian"@ {
        match (shift, scale) {
            (None, _) => Err(Error::ShiftUndefined),
            (Some(_), None) => Err(Error::ScaleUndefined),
            (Some(shift), Some(scale)) => Ok(ImputationView::Gaussian { shift, scale }),
        }
    } else {
        Err(Error::DistributionUnrecognized)
    }
}

/// How synthetic floats are drawn under a distribution named in lower case.
pub fn choose_imputation(
    lowered: &String,
    shift: &Option<NdArray<Float>>,
    scale: &Option<NdArray<Float>>,
) -> (r: Result<Imputation, Error>)
    ensures
        match r {
            Ok(imputation) => imputation_named(lowered@, optional_view(*shift), optional_view(*scale))
                == Ok::<ImputationView, Error>(imputation@),
            Err(e) => imputation_named(lowered@, optional_view(*shift), optional_view(*scale))
                == Err::<ImputationView, Error>(e),
        },
{
    if text_is(lowered, "uniform") {
        Ok(Imputation::Uniform)
    } else if text_is(lowered, "gaussian") {
        match (shift, scale) {
            (None, _) => Err(Error::ShiftUndefined),
            (Some(_), None) => Err(Error::ScaleUndefined),
            (Some(shift), Some(scale)) => Ok(
                Imputation::Gaussian { shift: shift.duplicate(), scale: scale.duplicate() },
            ),
        }
    } else {
        Err(Error::DistributionUnrecognized)
    }
}

/// How synthetic floats are drawn under the distribution named, in whatever
/// case.
pub fn imputation(
    distribution: &str,
    shift: &Option<NdArray<Float>>,
    scale: &Option<NdArray<Float>>,
) -> (r: Result<Imputation, Error>)
    ensures
        match r {
            Ok(imputation) => imputation_named(
                lowercase(distribution@),
                optional_view(*shift),
                optional_view(*scale),
            ) == Ok::<ImputationView, Error>(imputation@),
            Err(e) => imputation_named(
                lowercase(distribution@),
                optional_view(*shift),
                optional_view(*scale),
            ) == Err::<ImputationView, Error>(e),
        },
{
    let lowered = to_lowercase(distribution);
    choose_imputation(&lowered, shift, scale)
}

} // verus!
