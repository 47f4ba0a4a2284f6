//! Why an analysis was refused.

use crate::base::DataType;
use crate::proto::VariantKind;
use vstd::prelude::*;

verus! {

/// The three kinds of refusal. All are fatal to the pass that met them.
#[derive(Clone, Copy, Debug, PartialEq, Eq, Structural)]
pub enum ErrorKind {
    /// The analysis is malformed: an argument is missing, a value has another
    /// shape or type than the one asked for, a variant is not known.
    Malformed,
    /// The analysis is well formed and breaks a rule that privacy rests on.
    InvariantViolation,
    /// The component does not offer what was asked of it.
    Unsupported,
}

/// The names under which arguments are looked up and errors are filed.
#[derive(Clone, Copy, Debug, PartialEq, Eq, Structural)]
pub enum Argument {
    Data,
    Left,
    Right,
    Lower,
    Upper,
    Type,
    Categories,
    NullValue,
    NullValues,
    TrueLabel,
    NumberRows,
    NumberColumns,
    MinimumRows,
    Candidates,
}

/// One of the two ends of a range.
#[derive(Clone, Copy, Debug, PartialEq, Eq, Structural)]
pub enum Bound {
    Lower,
    Upper,
}

/// What a component may be asked for.
#[derive(Clone, Copy, Debug, PartialEq, Eq, Structural)]
pub enum Capability {
    Propagation,
    Sensitivity,
    Names,
    Accuracy,
    Evaluation,
}

/// A refusal, with the arguments and nodes it was met in.
#[derive(Debug, PartialEq, Eq)]
pub enum Error {
    /// The inner error, met while reading the named argument.
    Argument(Argument, Box<Error>),
    /// The inner error, met in a node of the named variant.
    Node(VariantKind, Box<Error>),
    /// The inner error, met at the node of the given id.
    NodeId(u32, Box<Error>),
    /// The named argument is not there.
    Missing(Argument),
    /// The component names no variant.
    VariantUndefined,
    /// The variant does not offer the capability.
    CapabilityMissing(Capability, VariantKind),
    /// The atomic type of a cast is not one of float, int, bool and string.
    UnrecognizedType,
    /// A value that must be an array is none.
    ValueNotArray,
    /// A value that must be jagged is not.
    ValueNotJagged,
    /// The first item of the given type was asked of a value that is no array.
    FirstUnavailable(DataType),
    /// An array holds another atomic type than the one asked for.
    AtomicType { expected: DataType, actual: DataType },
    /// An array that must hold one item holds none or several.
    NotScalar,
    /// An array that must hold numbers holds something else.
    NotNumeric,
    /// An array that must hold strings holds something else.
    NotString,
    /// An array that must hold booleans holds something else.
    NotBool,
    /// An array of the given type has no reading as a vector.
    VectorCast(DataType),
    /// The array and the shape do not fit each other.
    Shape,
    /// A jagged matrix holds another atomic type than the one asked for.
    JaggedType(DataType),
    /// A column of a jagged matrix of the given type is not known.
    JaggedColumnUnknown(DataType),
    /// The length of a column of a jagged matrix is not known.
    JaggedLengthUnknown,
    /// Properties that must be those of an array are not.
    PropertiesNotArray,
    /// Properties that must be those of a map are not.
    PropertiesNotHashmap,
    /// Properties that must be those of a jagged matrix are not.
    PropertiesNotJagged,
    /// The number of records is not known.
    RecordsUnknown,
    /// The number of columns is not known.
    ColumnsUnknown,
    /// The number of records over all partitions is not known.
    PartitionRecordsUnknown,
    /// The data has no known number of columns.
    DataColumnsMissing,
    /// No nature is known, where a bound was asked for.
    BoundUndefined(Bound),
    /// The nature is categorical, where a bound was asked for.
    BoundNotContinuous(Bound),
    /// The bound is not of the given type.
    BoundType(Bound, DataType),
    /// The bound is not known for every column.
    BoundUnknown(Bound),
    /// The nature is continuous, where categories were asked for.
    CategoriesUndefined,
    /// No nature is known, where categories were asked for.
    CategoricalUndefined,
    /// The nature is categorical, where a continuous one was asked for.
    NatureNotContinuous,
    /// The nature is continuous, where a categorical one was asked for.
    NatureNotCategorical,
    /// A vector of bounds is not of the given type.
    VectorType(DataType),
    /// The neighbouring relation is neither add-remove nor substitute.
    Neighboring,
    /// A list of categories is empty.
    CategoriesEmpty,
    /// There are neither one list of categories nor one for each column.
    CategoriesLength,
    /// No null value was given.
    NullEmpty,
    /// There are neither one null value nor one for each column.
    NullLength,
    /// There are neither one privacy usage nor one for each column.
    UsageLength,
    /// The traversal of an expansion does not end in the expanded node.
    Traversal,
    /// Aggregated data may not be manipulated.
    Aggregated,
    /// The data may hold nulls.
    Nullity,
    /// The data may be empty.
    Empty,
    /// The data is not releasable.
    NotReleasable,
    /// The partitions must be disjoint.
    Disjoint,
    /// The partitions must not be columnar.
    Columnar,
    /// Float data may not be categorical.
    FloatCategorical,
    /// A lower bound is not below its upper bound.
    BoundsInverted,
    /// Clamping by categories without a null value.
    NullValueUndefined,
    /// The categories and the null value differ in type.
    NullValueType,
    /// Numeric clamping of data that is not numeric.
    ClampNotNumeric,
    /// Bounds for imputation on data that is not numeric.
    ImputeNotNumeric,
    /// Both the number of rows and the minimum of rows are set.
    RowsOverdetermined,
    /// The number of columns is set, and was known before.
    ColumnsKnown,
    /// The number of columns is below one.
    NumberColumns,
    /// The number of rows is below one.
    NumberRows,
    /// The minimum of rows is below one.
    MinimumRows,
    /// The categories are not of the data's type.
    CategoriesType,
    /// The null values are not of the data's type.
    NullValuesType,
    /// Integer data that may hold nulls.
    IntegerNullity,
    /// The label of truth is not of the data's type.
    TrueLabelType,
    /// The data of the named argument is not float.
    NotFloat(Argument),
    /// The data of the named argument is neither float nor integer.
    NotNumericData(Argument),
    /// Left and right come from different data sets.
    DatasetMismatch,
    /// Left and right differ in stability.
    StabilityMismatch,
    /// Neither data nor left and right were given.
    CovarianceArguments,
    /// Left and right differ in their number of records.
    RecordsMismatch,
    /// The candidates are not of the data's type.
    CandidatesType,
    /// The number of columns of the result does not fit the machine's integers.
    ColumnsOverflow,
    /// No id is left for a new node.
    IdOverflow,
    /// A patch touches a node other than the one expanded and new ones, or
    /// does not lead on.
    Patch,
    /// Nodes are left of which nothing can be derived: each waits for an
    /// argument that is not there, or that waits in turn.
    Cycle,
    /// Warnings came up where none are accepted.
    Warnings,
    /// The source of random bytes gave none.
    Randomness,
    /// No node of the analysis spends privacy.
    NothingReleased,
    /// Data to resize and its bounds are not all floats or all integers.
    ResizeNotNumeric,
    /// Gaussian imputation without a shift.
    ShiftUndefined,
    /// Gaussian imputation without a scale.
    ScaleUndefined,
    /// A distribution that is neither uniform nor Gaussian.
    DistributionUnrecognized,
    /// Nothing was derived of the node of the given id.
    Underived(u32),
    /// A release that must be numeric is not.
    ReleaseNotNumeric,
    /// A norm other than the first and the second.
    NormUnsupported,
    /// The variant has no sensitivity in the space asked for.
    SpaceUnsupported(VariantKind),
}

impl Error {
    /// The error without the arguments and nodes it was met in.
    pub open spec fn root(self) -> Error
        decreases self,
    {
        match self {
            Error::Argument(_, inner) => inner.root(),
            Error::Node(_, inner) => inner.root(),
            Error::NodeId(_, inner) => inner.root(),
            _ => self,
        }
    }

    /// The kind of a refusal, that of its root.
    pub open spec fn kind_spec(self) -> ErrorKind
        decreases self,
    {
        match self {
            Error::Argument(_, inner) => inner.kind_spec(),
            Error::Node(_, inner) => inner.kind_spec(),
            Error::NodeId(_, inner) => inner.kind_spec(),
            Error::Missing(_)
            | Error::VariantUndefined
            | Error::CapabilityMissing(_, _)
            | Error::UnrecognizedType
            | Error::ValueNotArray
            | Error::ValueNotJagged
            | Error::FirstUnavailable(_)
            | Error::AtomicType { .. }
            | Error::NotScalar
            | Error::NotNumeric
            | Error::NotString
            | Error::NotBool
            | Error::VectorCast(_)
            | Error::Shape
            | Error::JaggedType(_)
            | Error::JaggedColumnUnknown(_)
            | Error::JaggedLengthUnknown
            | Error::PropertiesNotArray
            | Error::PropertiesNotHashmap
            | Error::PropertiesNotJagged
            | Error::RecordsUnknown
            | Error::ColumnsUnknown
            | Error::PartitionRecordsUnknown
            | Error::DataColumnsMissing
            | Error::BoundUndefined(_)
            | Error::BoundNotContinuous(_)
            | Error::BoundType(_, _)
            | Error::BoundUnknown(_)
            | Error::CategoriesUndefined
            | Error::CategoricalUndefined
            | Error::NatureNotContinuous
            | Error::NatureNotCategorical
            | Error::VectorType(_)
            | Error::Neighboring
            | Error::CategoriesEmpty
            | Error::CategoriesLength
            | Error::NullEmpty
            | Error::NullLength
            | Error::UsageLength
            | Error::ColumnsOverflow
            | Error::IdOverflow
            | Error::Patch
            | Error::Cycle
            | Error::Warnings
            | Error::Underived(_)
            | Error::Traversal => ErrorKind::Malformed,
            Error::NormUnsupported | Error::SpaceUnsupported(_) => ErrorKind::Unsupported,
            _ => ErrorKind::InvariantViolation,
        }
    }

    /// The kind of this refusal.
    pub fn kind(&self) -> (r: ErrorKind)
        ensures
            r == self.kind_spec(),
        decreases self,
    {
        match self {
            Error::Argument(_, inner) => inner.kind(),
            Error::Node(_, inner) => inner.kind(),
            Error::NodeId(_, inner) => inner.kind(),
            Error::Missing(_)
            | Error::VariantUndefined
            | Error::CapabilityMissing(_, _)
            | Error::UnrecognizedType
            | Error::ValueNotArray
            | Error::ValueNotJagged
            | Error::FirstUnavailable(_)
            | Error::AtomicType { .. }
            | Error::NotScalar
            | Error::NotNumeric
            | Error::NotString
            | Error::NotBool
            | Error::VectorCast(_)
            | Error::Shape
            | Error::JaggedType(_)
            | Error::JaggedColumnUnknown(_)
            | Error::JaggedLengthUnknown
            | Error::PropertiesNotArray
            | Error::PropertiesNotHashmap
            | Error::PropertiesNotJagged
            | Error::RecordsUnknown
            | Error::ColumnsUnknown
            | Error::PartitionRecordsUnknown
            | Error::DataColumnsMissing
            | Error::BoundUndefined(_)
            | Error::BoundNotContinuous(_)
            | Error::BoundType(_, _)
            | Error::BoundUnknown(_)
            | Error::CategoriesUndefined
            | Error::CategoricalUndefined
            | Error::NatureNotContinuous
            | Error::NatureNotCategorical
            | Error::VectorType(_)
            | Error::Neighboring
            | Error::CategoriesEmpty
            | Error::CategoriesLength
            | Error::NullEmpty
            | Error::NullLength
            | Error::UsageLength
            | Error::ColumnsOverflow
            | Error::IdOverflow
            | Error::Patch
            | Error::Cycle
            | Error::Warnings
            | Error::Underived(_)
            | Error::Traversal => ErrorKind::Malformed,
            Error::NormUnsupported | Error::SpaceUnsupported(_) => ErrorKind::Unsupported,
            _ => ErrorKind::InvariantViolation,
        }
    }

    /// The kind of this refusal and of its root are the same.
    pub proof fn law_kind_of_root(self)
        ensures
            self.kind_spec() == self.root().kind_spec(),
        decreases self,
    {
        match self {
            Error::Argument(_, inner) => inner.law_kind_of_root(),
            Error::Node(_, inner) => inner.law_kind_of_root(),
            Error::NodeId(_, inner) => inner.law_kind_of_root(),
            _ => {},
        }
    }

    /// The error, filed under the argument it was met in.
    pub fn within(self, argument: Argument) -> (r: Error)
        ensures
            r == Error::Argument(argument, Box::new(self)),
    {
        Error::Argument(argument, Box::new(self))
    }

    /// The error without the arguments and nodes it was met in.
    pub fn cause(&self) -> (r: &Error)
        ensures
            *r == self.root(),
        decreases self,
    {
        match self {
            Error::Argument(_, inner) => inner.cause(),
            Error::Node(_, inner) => inner.cause(),
            Error::NodeId(_, inner) => inner.cause(),
            _ => self,
        }
    }

    /// The error, filed under the id of the node it was met at.
    pub fn at_id(self, id: u32) -> (r: Error)
        ensures
            r == Error::NodeId(id, Box::new(self)),
    {
        Error::NodeId(id, Box::new(self))
    }

    /// The error, filed under the variant of the node it was met in.
    pub fn at_node(self, variant: VariantKind) -> (r: Error)
        ensures
            r == Error::Node(variant, Box::new(self)),
    {
        Error::Node(variant, Box::new(self))
    }
}

} // verus!
