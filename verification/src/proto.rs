//! The description of an analysis: its components, and the definition of
//! privacy it is held to.

use crate::base::Arguments;
use crate::float::Float;
use vstd::prelude::*;

verus! {

/// Which data sets count as neighbours.
#[derive(Clone, Copy, Debug, PartialEq, Eq, Structural)]
pub enum Neighboring {
    /// One record is replaced by another.
    Substitute,
    /// One record is added or removed.
    AddRemove,
}

impl Neighboring {
    /// The relation that a definition of privacy names by this number.
    pub open spec fn from_i32_spec(value: i32) -> Option<Neighboring> {
        if value == 0 {
            Some(Neighboring::Substitute)
        } else if value == 1 {
            Some(Neighboring::AddRemove)
        } else {
            None
        }
    }

    pub fn from_i32(value: i32) -> (r: Option<Neighboring>)
        ensures
            r == Neighboring::from_i32_spec(value),
    {
        if value == 0 {
            Some(Neighboring::Substitute)
        } else if value == 1 {
            Some(Neighboring::AddRemove)
        } else {
            None
        }
    }

    /// The number that names this relation in a definition of privacy.
    pub fn to_i32(self) -> (r: i32)
        ensures
            Neighboring::from_i32_spec(r) == Some(self),
    {
        match self {
            Neighboring::Substitute => 0,
            Neighboring::AddRemove => 1,
        }
    }
}

/// The definition of privacy that an analysis is held to.
#[derive(Clone, Copy, Debug, PartialEq, Eq, Structural)]
pub struct PrivacyDefinition {
    pub group_size: u32,
    /// The neighbouring relation, by its number.
    pub neighboring: i32,
    pub strict_parameter_checks: bool,
    pub protect_overflow: bool,
    pub protect_elapsed_time: bool,
    pub protect_memory_utilization: bool,
    pub protect_floating_point: bool,
}

/// An amount of privacy that a release spends.
#[derive(Clone, Copy, Debug, PartialEq, Eq, Structural)]
pub struct PrivacyUsage {
    pub epsilon: Float,
    pub delta: Float,
}

impl View for PrivacyUsage {
    type V = PrivacyUsage;

    open spec fn view(&self) -> PrivacyUsage {
        *self
    }
}

impl DeepView for PrivacyUsage {
    type V = PrivacyUsage;

    open spec fn deep_view(&self) -> PrivacyUsage {
        *self
    }
}

/// How far a release may lie from the truth: by at most `value`, but for a
/// share `alpha` of all cases.
#[derive(Clone, Copy, Debug, PartialEq, Eq, Structural)]
pub struct Accuracy {
    pub value: Float,
    pub alpha: Float,
}

/// One accuracy for each column.
#[derive(Debug, PartialEq, Eq)]
pub struct Accuracies {
    pub values: Vec<Accuracy>,
}

/// The name of a variant, without what the variant holds.
#[derive(Clone, Copy, Debug, PartialEq, Eq, Structural)]
pub enum VariantKind {
    Cast,
    Clamp,
    Count,
    Covariance,
    DpMaximum,
    DpQuantile,
    Impute,
    Index,
    Literal,
    Mapped,
    Maximum,
    Median,
    Minimum,
    Quantile,
    Resize,
    Sum,
    ToBool,
    ToFloat,
    ToInt,
    ToString,
    Union,
    Variance,
}

/// Converts the data to the atomic type named.
#[derive(Debug, PartialEq, Eq)]
pub struct Cast {
    pub atomic_type: String,
}

/// Restricts the data to bounds, or to categories.
#[derive(Clone, Copy, Debug, PartialEq, Eq, Structural)]
pub struct Clamp {}

/// The number of records, or of distinct values in each column.
#[derive(Clone, Copy, Debug, PartialEq, Eq, Structural)]
pub struct Count {
    pub distinct: bool,
}

/// The covariance of the columns of one data set, or of two.
#[derive(Clone, Copy, Debug, PartialEq, Eq, Structural)]
pub struct Covariance {
    pub finite_sample_correction: bool,
}

/// A differentially private maximum.
#[derive(Debug, PartialEq, Eq)]
pub struct DpMaximum {
    pub mechanism: String,
    pub privacy_usage: Vec<PrivacyUsage>,
}

/// A differentially private quantile.
#[derive(Debug, PartialEq, Eq)]
pub struct DpQuantile {
    pub alpha: Float,
    pub interpolation: String,
    pub mechanism: String,
    pub privacy_usage: Vec<PrivacyUsage>,
}

/// Replaces nulls by values drawn within bounds, or among categories.
#[derive(Clone, Copy, Debug, PartialEq, Eq, Structural)]
pub struct Impute {}

/// Selects columns.
#[derive(Clone, Copy, Debug, PartialEq, Eq, Structural)]
pub struct Index {}

/// A value given with the analysis.
#[derive(Clone, Copy, Debug, PartialEq, Eq, Structural)]
pub struct Literal {}

/// The largest value of each column.
#[derive(Clone, Copy, Debug, PartialEq, Eq, Structural)]
pub struct Maximum {}

/// The median of each column.
#[derive(Clone, Copy, Debug, PartialEq, Eq, Structural)]
pub struct Median {}

/// The smallest value of each column.
#[derive(Clone, Copy, Debug, PartialEq, Eq, Structural)]
pub struct Minimum {}

/// The quantile `alpha` of each column.
#[derive(Debug, PartialEq, Eq)]
pub struct Quantile {
    pub alpha: Float,
    pub interpolation: String,
}

/// Fixes the number of records, or of columns.
#[derive(Clone, Copy, Debug, PartialEq, Eq, Structural)]
pub struct Resize {}

/// The sum of each column.
#[derive(Clone, Copy, Debug, PartialEq, Eq, Structural)]
pub struct Sum {}

/// Converts the data to booleans.
#[derive(Clone, Copy, Debug, PartialEq, Eq, Structural)]
pub struct ToBool {}

/// Converts the data to floats.
#[derive(Clone, Copy, Debug, PartialEq, Eq, Structural)]
pub struct ToFloat {}

/// Converts the data to integers.
#[derive(Clone, Copy, Debug, PartialEq, Eq, Structural)]
pub struct ToInt {}

/// Converts the data to strings.
#[derive(Clone, Copy, Debug, PartialEq, Eq, Structural)]
pub struct ToText {}

/// Joins the parts of partitioned data.
#[derive(Clone, Copy, Debug, PartialEq, Eq, Structural)]
pub struct Union {
    pub flatten: bool,
}

/// The variance of each column.
#[derive(Clone, Copy, Debug, PartialEq, Eq, Structural)]
pub struct Variance {
    pub finite_sample_correction: bool,
}

/// The operation of a component.
#[derive(Debug, PartialEq)]
pub enum Variant {
    Cast(Cast),
    Clamp(Clamp),
    Count(Count),
    Covariance(Covariance),
    DpMaximum(DpMaximum),
    DpQuantile(DpQuantile),
    Impute(Impute),
    Index(Index),
    Literal(Literal),
    /// The component inside, applied to each part of partitioned data.
    Mapped(Box<Component>),
    Maximum(Maximum),
    Median(Median),
    Minimum(Minimum),
    Quantile(Quantile),
    Resize(Resize),
    Sum(Sum),
    ToBool(ToBool),
    ToFloat(ToFloat),
    ToInt(ToInt),
    ToString(ToText),
    Union(Union),
    Variance(Variance),
}

/// A node of an analysis: an operation, and the nodes that supply its
/// arguments.
#[derive(Debug, PartialEq)]
pub struct Component {
    /// For each argument's name, the id of the node that supplies it.
    pub arguments: Arguments<u32>,
    pub variant: Option<Variant>,
    /// Whether the node's value is left out of a release.
    pub omit: bool,
    pub submission: u32,
}

/// What a [`Variant`] holds.
pub ghost enum VariantView {
    Cast { atomic_type: Seq<char> },
    Clamp,
    Count { distinct: bool },
    Covariance { finite_sample_correction: bool },
    DpMaximum { mechanism: Seq<char>, privacy_usage: Seq<PrivacyUsage> },
    DpQuantile {
        alpha: Float,
        interpolation: Seq<char>,
        mechanism: Seq<char>,
        privacy_usage: Seq<PrivacyUsage>,
    },
    Impute,
    Index,
    Literal,
    Mapped(Box<ComponentView>),
    Maximum,
    Median,
    Minimum,
    Quantile { alpha: Float, interpolation: Seq<char> },
    Resize,
    Sum,
    ToBool,
    ToFloat,
    ToInt,
    ToString,
    Union { flatten: bool },
    Variance { finite_sample_correction: bool },
}

/// What a [`Component`] holds.
pub ghost struct ComponentView {
    pub arguments: Map<Seq<char>, u32>,
    pub variant: Option<VariantView>,
    pub omit: bool,
    pub submission: u32,
}

/// What a variant holds.
pub open spec fn variant_view(variant: Variant) -> VariantView
    decreases variant,
{
    match variant {
        Variant::Cast(x) => VariantView::Cast { atomic_type: x.atomic_type@ },
        Variant::Clamp(_) => VariantView::Clamp,
        Variant::Count(x) => VariantView::Count { distinct: x.distinct },
        Variant::Covariance(x) => VariantView::Covariance {
            finite_sample_correction: x.finite_sample_correction,
        },
        Variant::DpMaximum(x) => VariantView::DpMaximum {
            mechanism: x.mechanism@,
            privacy_usage: x.privacy_usage@,
        },
        Variant::DpQuantile(x) => VariantView::DpQuantile {
            alpha: x.alpha,
            interpolation: x.interpolation@,
            mechanism: x.mechanism@,
            privacy_usage: x.privacy_usage@,
        },
        Variant::Impute(_) => VariantView::Impute,
        Variant::Index(_) => VariantView::Index,
        Variant::Literal(_) => VariantView::Literal,
        Variant::Mapped(component) => VariantView::Mapped(
            Box::new(
                ComponentView {
                    arguments: component.arguments@,
                    variant: match component.variant {
                        Some(inner) => Some(variant_view(inner)),
                        None => None,
                    },
                    omit: component.omit,
                    submission: component.submission,
                },
            ),
        ),
        Variant::Maximum(_) => VariantView::Maximum,
        Variant::Median(_) => VariantView::Median,
        Variant::Minimum(_) => VariantView::Minimum,
        Variant::Quantile(x) => VariantView::Quantile { alpha: x.alpha, interpolation: x.interpolation@ },
        Variant::Resize(_) => VariantView::Resize,
        Variant::Sum(_) => VariantView::Sum,
        Variant::ToBool(_) => VariantView::ToBool,
        Variant::ToFloat(_) => VariantView::ToFloat,
        Variant::ToInt(_) => VariantView::ToInt,
        Variant::ToString(_) => VariantView::ToString,
        Variant::Union(x) => VariantView::Union { flatten: x.flatten },
        Variant::Variance(x) => VariantView::Variance {
            finite_sample_correction: x.finite_sample_correction,
        },
    }
}

impl View for Variant {
    type V = VariantView;

    open spec fn view(&self) -> VariantView {
        variant_view(*self)
    }
}

impl View for Component {
    type V = ComponentView;

    open spec fn view(&self) -> ComponentView {
        ComponentView {
            arguments: self.arguments@,
            variant: match self.variant {
                Some(inner) => Some(inner@),
                None => None,
            },
            omit: self.omit,
            submission: self.submission,
        }
    }
}

impl DeepView for Component {
    type V = ComponentView;

    open spec fn deep_view(&self) -> ComponentView {
        self@
    }
}

impl VariantView {
    /// The name of the variant.
    pub open spec fn kind(self) -> VariantKind {
        match self {
            VariantView::Cast { .. } => VariantKind::Cast,
            VariantView::Clamp => VariantKind::Clamp,
            VariantView::Count { .. } => VariantKind::Count,
            VariantView::Covariance { .. } => VariantKind::Covariance,
            VariantView::DpMaximum { .. } => VariantKind::DpMaximum,
            VariantView::DpQuantile { .. } => VariantKind::DpQuantile,
            VariantView::Impute => VariantKind::Impute,
            VariantView::Index => VariantKind::Index,
            VariantView::Literal => VariantKind::Literal,
            VariantView::Mapped(_) => VariantKind::Mapped,
            VariantView::Maximum => VariantKind::Maximum,
            VariantView::Median => VariantKind::Median,
            VariantView::Minimum => VariantKind::Minimum,
            VariantView::Quantile { .. } => VariantKind::Quantile,
            VariantView::Resize => VariantKind::Resize,
            VariantView::Sum => VariantKind::Sum,
            VariantView::ToBool => VariantKind::ToBool,
            VariantView::ToFloat => VariantKind::ToFloat,
            VariantView::ToInt => VariantKind::ToInt,
            VariantView::ToString => VariantKind::ToString,
            VariantView::Union { .. } => VariantKind::Union,
            VariantView::Variance { .. } => VariantKind::Variance,
        }
    }
}

impl Variant {
    /// The name of the variant.
    pub fn kind(&self) -> (r: VariantKind)
        ensures
            r == self@.kind(),
    {
        match self {
            Variant::Cast(_) => VariantKind::Cast,
            Variant::Clamp(_) => VariantKind::Clamp,
            Variant::Count(_) => VariantKind::Count,
            Variant::Covariance(_) => VariantKind::Covariance,
            Variant::DpMaximum(_) => VariantKind::DpMaximum,
            Variant::DpQuantile(_) => VariantKind::DpQuantile,
            Variant::Impute(_) => VariantKind::Impute,
            Variant::Index(_) => VariantKind::Index,
            Variant::Literal(_) => VariantKind::Literal,
            Variant::Mapped(_) => VariantKind::Mapped,
            Variant::Maximum(_) => VariantKind::Maximum,
            Variant::Median(_) => VariantKind::Median,
            Variant::Minimum(_) => VariantKind::Minimum,
            Variant::Quantile(_) => VariantKind::Quantile,
            Variant::Resize(_) => VariantKind::Resize,
            Variant::Sum(_) => VariantKind::Sum,
            Variant::ToBool(_) => VariantKind::ToBool,
            Variant::ToFloat(_) => VariantKind::ToFloat,
            Variant::ToInt(_) => VariantKind::ToInt,
            Variant::ToString(_) => VariantKind::ToString,
            Variant::Union(_) => VariantKind::Union,
            Variant::Variance(_) => VariantKind::Variance,
        }
    }

    /// A copy that holds what this value holds.
    pub fn duplicate(&self) -> (r: Variant)
        ensures
            r@ == self@,
        decreases self,
    {
        match self {
            Variant::Cast(x) => Variant::Cast(Cast { atomic_type: x.atomic_type.clone() }),
            Variant::Clamp(x) => Variant::Clamp(*x),
            Variant::Count(x) => Variant::Count(*x),
            Variant::Covariance(x) => Variant::Covariance(*x),
            Variant::DpMaximum(x) => {
                let privacy_usage = x.privacy_usage.clone();
                assert(privacy_usage@ =~= x.privacy_usage@);
                Variant::DpMaximum(DpMaximum { mechanism: x.mechanism.clone(), privacy_usage })
            },
            Variant::DpQuantile(x) => {
                let privacy_usage = x.privacy_usage.clone();
                assert(privacy_usage@ =~= x.privacy_usage@);
                Variant::DpQuantile(
                    DpQuantile {
                        alpha: x.alpha,
                        interpolation: x.interpolation.clone(),
                        mechanism: x.mechanism.clone(),
                        privacy_usage,
                    },
                )
            },
            Variant::Impute(x) => Variant::Impute(*x),
            Variant::Index(x) => Variant::Index(*x),
            Variant::Literal(x) => Variant::Literal(*x),
            Variant::Mapped(component) => {
                let variant = match &component.variant {
                    Some(inner) => Some(inner.duplicate()),
                    None => None,
                };
                Variant::Mapped(
                    Box::new(
                        Component {
                            arguments: component.arguments.duplicate(),
                            variant,
                            omit: component.omit,
                            submission: component.submission,
                        },
                    ),
                )
            },
            Variant::Maximum(x) => Variant::Maximum(*x),
            Variant::Median(x) => Variant::Median(*x),
            Variant::Minimum(x) => Variant::Minimum(*x),
            Variant::Quantile(x) => Variant::Quantile(
                Quantile { alpha: x.alpha, interpolation: x.interpolation.clone() },
            ),
            Variant::Resize(x) => Variant::Resize(*x),
            Variant::Sum(x) => Variant::Sum(*x),
            Variant::ToBool(x) => Variant::ToBool(*x),
            Variant::ToFloat(x) => Variant::ToFloat(*x),
            Variant::ToInt(x) => Variant::ToInt(*x),
            Variant::ToString(x) => Variant::ToString(*x),
            Variant::Union(x) => Variant::Union(*x),
            Variant::Variance(x) => Variant::Variance(*x),
        }
    }
}

impl Component {
    /// A copy that holds what this value holds.
    pub fn duplicate(&self) -> (r: Component)
        ensures
            r@ == self@,
    {
        let variant = match &self.variant {
            Some(inner) => Some(inner.duplicate()),
            None => None,
        };
        Component {
            arguments: self.arguments.duplicate(),
            variant,
            omit: self.omit,
            submission: self.submission,
        }
    }

    /// Names the node that supplies the argument.
    pub fn insert_argument(&mut self, name: &str, node_id: u32)
        ensures
            final(self)@ == (ComponentView {
                arguments: old(self)@.arguments.insert(name@, node_id),
                ..old(self)@
            }),
    {
        self.arguments.insert(name, node_id);
        assert(self.arguments@ =~= old(self).arguments@.insert(name@, node_id));
    }
}

} // verus!
