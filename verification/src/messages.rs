//! What a refusal says in words.

use crate::base::DataType;
use crate::errors::{Argument, Bound, Capability, Error};
use crate::proto::VariantKind;
use vstd::prelude::*;
use vstd::string::StringExecFns;

verus! {

impl Argument {
    /// The name of the argument.
    pub open spec fn name_spec(self) -> Seq<char> {
        match self {
            Argument::Data => "data"@,
            Argument::Left => "left"@,
            Argument::Right => "right"@,
            Argument::Lower => "lower"@,
            Argument::Upper => "upper"@,
            Argument::Type => "type"@,
            Argument::Categories => "categories"@,
            Argument::NullValue => "null_value"@,
            Argument::NullValues => "null_values"@,
            Argument::TrueLabel => "true_label"@,
            Argument::NumberRows => "number_rows"@,
            Argument::NumberColumns => "number_columns"@,
            Argument::MinimumRows => "minimum_rows"@,
            Argument::Candidates => "candidates"@,
        }
    }

    /// The name of the argument.
    pub fn name(self) -> (r: &'static str)
        ensures
            r@ == self.name_spec(),
    {
        match self {
            Argument::Data => "data",
            Argument::Left => "left",
            Argument::Right => "right",
            Argument::Lower => "lower",
            Argument::Upper => "upper",
            Argument::Type => "type",
            Argument::Categories => "categories",
            Argument::NullValue => "null_value",
            Argument::NullValues => "null_values",
            Argument::TrueLabel => "true_label",
            Argument::NumberRows => "number_rows",
            Argument::NumberColumns => "number_columns",
            Argument::MinimumRows => "minimum_rows",
            Argument::Candidates => "candidates",
        }
    }
}

impl Bound {
    /// The name of the bound.
    pub open spec fn name_spec(self) -> Seq<char> {
        match self {
            Bound::Lower => "lower"@,
            Bound::Upper => "upper"@,
        }
    }

    /// The name of the bound.
    pub fn name(self) -> (r: &'static str)
        ensures
            r@ == self.name_spec(),
    {
        match self {
            Bound::Lower => "lower",
            Bound::Upper => "upper",
        }
    }
}

impl Capability {
    /// The name of the capability.
    pub open spec fn name_spec(self) -> Seq<char> {
        match self {
            Capability::Propagation => "Component"@,
            Capability::Sensitivity => "Sensitivity"@,
            Capability::Names => "Named"@,
            Capability::Accuracy => "Accuracy"@,
            Capability::Evaluation => "Evaluable"@,
        }
    }

    /// The name of the capability.
    pub fn name(self) -> (r: &'static str)
        ensures
            r@ == self.name_spec(),
    {
        match self {
            Capability::Propagation => "Component",
            Capability::Sensitivity => "Sensitivity",
            Capability::Names => "Named",
            Capability::Accuracy => "Accuracy",
            Capability::Evaluation => "Evaluable",
        }
    }
}

impl VariantKind {
    /// The name of the variant.
    pub open spec fn name_spec(self) -> Seq<char> {
        match self {
            VariantKind::Cast => "Cast"@,
            VariantKind::Clamp => "Clamp"@,
            VariantKind::Count => "Count"@,
            VariantKind::Covariance => "Covariance"@,
            VariantKind::DpMaximum => "DpMaximum"@,
            VariantKind::DpQuantile => "DpQuantile"@,
            VariantKind::Impute => "Impute"@,
            VariantKind::Index => "Index"@,
            VariantKind::Literal => "Literal"@,
            VariantKind::Mapped => "Map"@,
            VariantKind::Maximum => "Maximum"@,
            VariantKind::Median => "Median"@,
            VariantKind::Minimum => "Minimum"@,
            VariantKind::Quantile => "Quantile"@,
            VariantKind::Resize => "Resize"@,
            VariantKind::Sum => "Sum"@,
            VariantKind::ToBool => "ToBool"@,
            VariantKind::ToFloat => "ToFloat"@,
            VariantKind::ToInt => "ToInt"@,
            VariantKind::ToString => "ToString"@,
            VariantKind::Union => "Union"@,
            VariantKind::Variance => "Variance"@,
        }
    }

    /// The name of the variant.
    pub fn name(self) -> (r: &'static str)
        ensures
            r@ == self.name_spec(),
    {
        match self {
            VariantKind::Cast => "Cast",
            VariantKind::Clamp => "Clamp",
            VariantKind::Count => "Count",
            VariantKind::Covariance => "Covariance",
            VariantKind::DpMaximum => "DpMaximum",
            VariantKind::DpQuantile => "DpQuantile",
            VariantKind::Impute => "Impute",
            VariantKind::Index => "Index",
            VariantKind::Literal => "Literal",
            VariantKind::Mapped => "Map",
            VariantKind::Maximum => "Maximum",
            VariantKind::Median => "Median",
            VariantKind::Minimum => "Minimum",
            VariantKind::Quantile => "Quantile",
            VariantKind::Resize => "Resize",
            VariantKind::Sum => "Sum",
            VariantKind::ToBool => "ToBool",
            VariantKind::ToFloat => "ToFloat",
            VariantKind::ToInt => "ToInt",
            VariantKind::ToString => "ToString",
            VariantKind::Union => "Union",
            VariantKind::Variance => "Variance",
        }
    }
}

impl DataType {
    /// The name of the atomic type.
    pub open spec fn name_spec(self) -> Seq<char> {
        match self {
            DataType::Bool => "bool"@,
            DataType::Str => "string"@,
            DataType::F64 => "float"@,
            DataType::I64 => "integer"@,
        }
    }

    /// The name of the atomic type.
    pub fn name(self) -> (r: &'static str)
        ensures
            r@ == self.name_spec(),
    {
        match self {
            DataType::Bool => "bool",
            DataType::Str => "string",
            DataType::F64 => "float",
            DataType::I64 => "integer",
        }
    }
}

impl Error {
    /// What the refusal says: what it says at its root, after the arguments
    /// and nodes it was met in.
    pub open spec fn message_spec(self) -> Seq<char>
        decreases self,
    {
        match self {
            Error::Argument(argument, inner) => argument.name_spec() + ": "@ + inner.message_spec(),
            Error::Node(kind, inner) => "node specification "@ + kind.name_spec() + ": "@
                + inner.message_spec(),
            Error::NodeId(id, inner) => "node "@ + crate::utilities::decimal(id as int) + ": "@
                + inner.message_spec(),
            Error::Missing(argument) => argument.name_spec() + ": missing"@,
            Error::VariantUndefined => "variant: must be defined"@,
            Error::CapabilityMissing(capability, kind) => "proto component "@ + kind.name_spec() + " is missing its "@ + capability.name_spec() + " trait"@,
            Error::UnrecognizedType => "data type is not recognized. Must be one of \"float\", \"int\", \"bool\" or \"string\""@,
            Error::ValueNotArray => "value must be an Array"@,
            Error::ValueNotJagged => "value must be Jagged"@,
            Error::FirstUnavailable(data_type) => "cannot retrieve first "@ + data_type.name_spec(),
            Error::AtomicType { expected, actual } => "atomic type: expected "@ + expected.name_spec() + ", got "@ + actual.name_spec(),
            Error::NotScalar => "non-singleton array passed for an argument that must be scalar"@,
            Error::NotNumeric => "value must be numeric"@,
            Error::NotString => "value must be a string"@,
            Error::NotBool => "value must be a bool"@,
            Error::VectorCast(data_type) => "failed attempt to cast "@ + data_type.name_spec() + " array to vector"@,
            Error::Shape => "the array and the shape do not fit each other"@,
            Error::JaggedType(data_type) => "expected "@ + data_type.name_spec() + " type on a Jagged matrix of another type"@,
            Error::JaggedColumnUnknown(data_type) => "not all columns are known in "@ + data_type.name_spec() + " Jagged matrix"@,
            Error::JaggedLengthUnknown => "length is not defined for every column"@,
            Error::PropertiesNotArray => "value must be an array"@,
            Error::PropertiesNotHashmap => "value must be a hashmap"@,
            Error::PropertiesNotJagged => "value must be a ragged matrix"@,
            Error::RecordsUnknown => "number of records is not defined"@,
            Error::ColumnsUnknown => "number of columns is not defined"@,
            Error::PartitionRecordsUnknown => "number of rows is not defined"@,
            Error::DataColumnsMissing => "data: number of data columns missing"@,
            Error::BoundUndefined(bound) => "continuous nature for "@ + bound.name_spec() + " is not defined"@,
            Error::BoundNotContinuous(bound) => bound.name_spec() + " must be an array"@,
            Error::BoundType(bound, data_type) => bound.name_spec() + " must be composed of "@ + data_type.name_spec() + "s"@,
            Error::BoundUnknown(bound) => "not all "@ + bound.name_spec() + " bounds are known"@,
            Error::CategoriesUndefined => "categories is not defined"@,
            Error::CategoricalUndefined => "categorical nature is not defined"@,
            Error::NatureNotContinuous => "nature is categorical when expecting continuous"@,
            Error::NatureNotCategorical => "nature is continuous when expecting categorical"@,
            Error::VectorType(data_type) => "expected a "@ + data_type.name_spec() + " vector on a vector of another type"@,
            Error::Neighboring => "neighboring definition must be either \"AddRemove\" or \"Substitute\""@,
            Error::CategoriesEmpty => "no categories are defined"@,
            Error::CategoriesLength => "categories must be defined once, or once for each column"@,
            Error::NullEmpty => "null values cannot be empty"@,
            Error::NullLength => "null values must be defined once, or once for each column"@,
            Error::UsageLength => "privacy usage must be defined once, or once for each column"@,
            Error::Traversal => "the traversal of an expansion must end in the expanded node"@,
            Error::ColumnsOverflow => "the number of columns is too large"@,
            Error::IdOverflow => "no id is left for a new node"@,
            Error::Patch => "a patch may only touch the expanded node and new nodes, and must lead on"@,
            Error::Cycle => "nodes are left that wait for one another, or for an argument that is not there"@,
            Error::Warnings => "warnings came up where none are accepted"@,
            Error::Randomness => "the source of random bytes gave none"@,
            Error::NothingReleased => "no information is released; privacy usage is none"@,
            Error::ResizeNotNumeric => "data, lower, and upper must be of a homogeneous numeric type"@,
            Error::ShiftUndefined => "shift must be defined for gaussian imputation"@,
            Error::ScaleUndefined => "scale must be defined for gaussian imputation"@,
            Error::DistributionUnrecognized => "unrecognized distribution"@,
            Error::Underived(id) => "failure to propagate properties to node "@ + crate::utilities::decimal(id as int),
            Error::Aggregated => "aggregated data may not be manipulated"@,
            Error::Nullity => "data may contain nullity when non-nullity is required"@,
            Error::Empty => "data may be empty when non-emptiness is required"@,
            Error::NotReleasable => "data is not releasable when releasability is required"@,
            Error::Disjoint => "partitions must be disjoint"@,
            Error::Columnar => "partitions must not be columnar"@,
            Error::FloatCategorical => "float data may not be categorical"@,
            Error::BoundsInverted => "lower is greater than upper"@,
            Error::NullValueUndefined => "null value must be defined when clamping by categories"@,
            Error::NullValueType => "categories and null_value must be homogeneously typed"@,
            Error::ClampNotNumeric => "numeric clamping requires numeric data"@,
            Error::ImputeNotNumeric => "bounds for imputation must be numeric"@,
            Error::RowsOverdetermined => "only one of number_rows and minimum_rows may be set"@,
            Error::ColumnsKnown => "cannot resize number of columns when number of columns is known"@,
            Error::NumberColumns => "number_columns must be greater than zero"@,
            Error::NumberRows => "number_rows must be greater than zero"@,
            Error::MinimumRows => "minimum_rows must be greater than zero"@,
            Error::CategoriesType => "categories and data must be homogeneously typed"@,
            Error::NullValuesType => "null_values and data must be homogeneously typed"@,
            Error::IntegerNullity => "impossible state: integers contain nullity"@,
            Error::TrueLabelType => "type of true_label must match the data type"@,
            Error::NotFloat(argument) => argument.name_spec() + ": atomic type must be float"@,
            Error::NotNumericData(argument) => argument.name_spec() + ": atomic type must be numeric"@,
            Error::DatasetMismatch => "left and right arguments must share the same dataset id"@,
            Error::StabilityMismatch => "left and right datasets must share the same stabilities"@,
            Error::CovarianceArguments => "either \"data\" for covariance, or \"left\" and \"right\" for cross-covariance must be supplied"@,
            Error::RecordsMismatch => "n for left and right must be equivalent"@,
            Error::CandidatesType => "data_type of data must match data_type of candidates"@,
            Error::ReleaseNotNumeric => "maximum must be numeric"@,
            Error::NormUnsupported => "KNorm sensitivity is only supported in L1 and L2 spaces"@,
            Error::SpaceUnsupported(kind) => kind.name_spec() + " sensitivity is not implemented for the specified sensitivity space"@,
        }
    }

    /// What the refusal says.
    pub fn message(&self) -> (r: String)
        ensures
            r@ == self.message_spec(),
        decreases self,
    {
        match self {
            Error::Argument(argument, inner) => argument.name().to_owned().concat(": ").concat(
                inner.message().as_str(),
            ),
            Error::Node(kind, inner) => "node specification ".to_owned().concat(kind.name()).concat(
                ": ",
            ).concat(inner.message().as_str()),
            Error::NodeId(id, inner) => "node ".to_owned().concat(
                crate::utilities::integer_text(*id as i64).as_str(),
            ).concat(": ").concat(inner.message().as_str()),
            Error::Missing(argument) => argument.name().to_owned().concat(": missing"),
            Error::VariantUndefined => "variant: must be defined".to_owned(),
            Error::CapabilityMissing(capability, kind) => "proto component ".to_owned().concat(kind.name()).concat(" is missing its ").concat(capability.name()).concat(" trait"),
            Error::UnrecognizedType => "data type is not recognized. Must be one of \"float\", \"int\", \"bool\" or \"string\"".to_owned(),
            Error::ValueNotArray => "value must be an Array".to_owned(),
            Error::ValueNotJagged => "value must be Jagged".to_owned(),
            Error::FirstUnavailable(data_type) => "cannot retrieve first ".to_owned().concat(data_type.name()),
            Error::AtomicType { expected, actual } => "atomic type: expected ".to_owned().concat(expected.name()).concat(", got ").concat(actual.name()),
            Error::NotScalar => "non-singleton array passed for an argument that must be scalar".to_owned(),
            Error::NotNumeric => "value must be numeric".to_owned(),
            Error::NotString => "value must be a string".to_owned(),
            Error::NotBool => "value must be a bool".to_owned(),
            Error::VectorCast(data_type) => "failed attempt to cast ".to_owned().concat(data_type.name()).concat(" array to vector"),
            Error::Shape => "the array and the shape do not fit each other".to_owned(),
            Error::JaggedType(data_type) => "expected ".to_owned().concat(data_type.name()).concat(" type on a Jagged matrix of another type"),
            Error::JaggedColumnUnknown(data_type) => "not all columns are known in ".to_owned().concat(data_type.name()).concat(" Jagged matrix"),
            Error::JaggedLengthUnknown => "length is not defined for every column".to_owned(),
            Error::PropertiesNotArray => "value must be an array".to_owned(),
            Error::PropertiesNotHashmap => "value must be a hashmap".to_owned(),
            Error::PropertiesNotJagged => "value must be a ragged matrix".to_owned(),
            Error::RecordsUnknown => "number of records is not defined".to_owned(),
            Error::ColumnsUnknown => "number of columns is not defined".to_owned(),
            Error::PartitionRecordsUnknown => "number of rows is not defined".to_owned(),
            Error::DataColumnsMissing => "data: number of data columns missing".to_owned(),
            Error::BoundUndefined(bound) => "continuous nature for ".to_owned().concat(bound.name()).concat(" is not defined"),
            Error::BoundNotContinuous(bound) => bound.name().to_owned().concat(" must be an array"),
            Error::BoundType(bound, data_type) => bound.name().to_owned().concat(" must be composed of ").concat(data_type.name()).concat("s"),
            Error::BoundUnknown(bound) => "not all ".to_owned().concat(bound.name()).concat(" bounds are known"),
            Error::CategoriesUndefined => "categories is not defined".to_owned(),
            Error::CategoricalUndefined => "categorical nature is not defined".to_owned(),
            Error::NatureNotContinuous => "nature is categorical when expecting continuous".to_owned(),
            Error::NatureNotCategorical => "nature is continuous when expecting categorical".to_owned(),
            Error::VectorType(data_type) => "expected a ".to_owned().concat(data_type.name()).concat(" vector on a vector of another type"),
            Error::Neighboring => "neighboring definition must be either \"AddRemove\" or \"Substitute\"".to_owned(),
            Error::CategoriesEmpty => "no categories are defined".to_owned(),
            Error::CategoriesLength => "categories must be defined once, or once for each column".to_owned(),
            Error::NullEmpty => "null values cannot be empty".to_owned(),
            Error::NullLength => "null values must be defined once, or once for each column".to_owned(),
            Error::UsageLength => "privacy usage must be defined once, or once for each column".to_owned(),
            Error::Traversal => "the traversal of an expansion must end in the expanded node".to_owned(),
            Error::ColumnsOverflow => "the number of columns is too large".to_owned(),
            Error::IdOverflow => "no id is left for a new node".to_owned(),
            Error::Patch => "a patch may only touch the expanded node and new nodes, and must lead on".to_owned(),
            Error::Cycle => "nodes are left that wait for one another, or for an argument that is not there".to_owned(),
            Error::Warnings => "warnings came up where none are accepted".to_owned(),
            Error::Randomness => "the source of random bytes gave none".to_owned(),
            Error::NothingReleased => "no information is released; privacy usage is none".to_owned(),
            Error::ResizeNotNumeric => "data, lower, and upper must be of a homogeneous numeric type".to_owned(),
            Error::ShiftUndefined => "shift must be defined for gaussian imputation".to_owned(),
            Error::ScaleUndefined => "scale must be defined for gaussian imputation".to_owned(),
            Error::DistributionUnrecognized => "unrecognized distribution".to_owned(),
            Error::Underived(id) => "failure to propagate properties to node ".to_owned().concat(crate::utilities::integer_text(*id as i64).as_str()),
            Error::Aggregated => "aggregated data may not be manipulated".to_owned(),
            Error::Nullity => "data may contain nullity when non-nullity is required".to_owned(),
            Error::Empty => "data may be empty when non-emptiness is required".to_owned(),
            Error::NotReleasable => "data is not releasable when releasability is required".to_owned(),
            Error::Disjoint => "partitions must be disjoint".to_owned(),
            Error::Columnar => "partitions must not be columnar".to_owned(),
            Error::FloatCategorical => "float data may not be categorical".to_owned(),
            Error::BoundsInverted => "lower is greater than upper".to_owned(),
            Error::NullValueUndefined => "null value must be defined when clamping by categories".to_owned(),
            Error::NullValueType => "categories and null_value must be homogeneously typed".to_owned(),
            Error::ClampNotNumeric => "numeric clamping requires numeric data".to_owned(),
            Error::ImputeNotNumeric => "bounds for imputation must be numeric".to_owned(),
            Error::RowsOverdetermined => "only one of number_rows and minimum_rows may be set".to_owned(),
            Error::ColumnsKnown => "cannot resize number of columns when number of columns is known".to_owned(),
            Error::NumberColumns => "number_columns must be greater than zero".to_owned(),
            Error::NumberRows => "number_rows must be greater than zero".to_owned(),
            Error::MinimumRows => "minimum_rows must be greater than zero".to_owned(),
            Error::CategoriesType => "categories and data must be homogeneously typed".to_owned(),
            Error::NullValuesType => "null_values and data must be homogeneously typed".to_owned(),
            Error::IntegerNullity => "impossible state: integers contain nullity".to_owned(),
            Error::TrueLabelType => "type of true_label must match the data type".to_owned(),
            Error::NotFloat(argument) => argument.name().to_owned().concat(": atomic type must be float"),
            Error::NotNumericData(argument) => argument.name().to_owned().concat(": atomic type must be numeric"),
            Error::DatasetMismatch => "left and right arguments must share the same dataset id".to_owned(),
            Error::StabilityMismatch => "left and right datasets must share the same stabilities".to_owned(),
            Error::CovarianceArguments => "either \"data\" for covariance, or \"left\" and \"right\" for cross-covariance must be supplied".to_owned(),
            Error::RecordsMismatch => "n for left and right must be equivalent".to_owned(),
            Error::CandidatesType => "data_type of data must match data_type of candidates".to_owned(),
            Error::ReleaseNotNumeric => "maximum must be numeric".to_owned(),
            Error::NormUnsupported => "KNorm sensitivity is only supported in L1 and L2 spaces".to_owned(),
            Error::SpaceUnsupported(kind) => kind.name().to_owned().concat(" sensitivity is not implemented for the specified sensitivity space"),
        }
    }
}

} // verus!
