//! The components: what each derives of its result, how composite ones are
//! rewritten, and how sensitive aggregations are.

pub mod arithmetic;
pub mod bounds;
pub mod cast;
pub mod clamp;
pub mod covariance;
pub mod expand;
pub mod impute;
pub mod quantile;
pub mod resize;
pub mod sum;
pub mod variance;

use crate::base::{
    holds_partitioned, Arguments, NodeProperties, SensitivitySpace, Value, ValueProperties,
    ValuePropertiesView, ValueView,
};
use crate::components::expand::{replace_by, replaced_by, with_literal_bounds};
use crate::errors::{Capability, Error};
use crate::expansion::{ComponentExpansion, ComponentExpansionView};
use crate::float::{total, Float, Operation};
use crate::proto::{
    Accuracies, Cast, Clamp, ComponentView, Covariance, DpMaximum, Impute,
    PrivacyDefinition, PrivacyUsage, Quantile, Resize, Sum, Variance, Variant, VariantKind,
    VariantView,
};
use crate::report::JSONRelease;
use crate::utilities::lowercase;
use vstd::prelude::*;

verus! {

/// A result, with the warnings that came up on the way to it.
#[derive(Debug, PartialEq)]
pub struct Warnable<T> {
    pub value: T,
    pub warnings: Vec<Error>,
}

impl<T> Warnable<T> {
    /// The value, without a warning.
    pub fn new(value: T) -> (r: Warnable<T>)
        ensures
            r.value == value,
            r.warnings@.len() == 0,
    {
        Warnable { value, warnings: Vec::new() }
    }
}

/// A computation of which the properties of the result can be derived.
pub trait Component {
    /// The properties of the result, derived from the public arguments and
    /// the properties of all arguments. Fails where what the computation
    /// needs of its arguments is not established.
    fn propagate_property<A: Fn(Operation) -> Float>(
        &self,
        privacy_definition: &Option<PrivacyDefinition>,
        public_arguments: &Arguments<Value>,
        properties: NodeProperties,
        node_id: u32,
        arithmetic: &A,
    ) -> (r: Result<Warnable<ValueProperties>, Error>)
        requires
            total(*arithmetic),
    ;
}

/// A computation that can be stated in terms of more granular ones.
pub trait Expandable {
    /// The patch that restates the node `component_id` of the analysis. New
    /// nodes take the ids that follow `maximum_id`; where the patch asks for
    /// nodes to be visited, the last of them is `component_id`.
    fn expand_component(
        &self,
        privacy_definition: &Option<PrivacyDefinition>,
        component: &crate::proto::Component,
        public_arguments: &Arguments<Value>,
        properties: &NodeProperties,
        component_id: u32,
        maximum_id: u32,
    ) -> (r: Result<ComponentExpansion, Error>)
    ;
}

/// An aggregation: a computation that combines records, so that a record's
/// influence on the result can be bounded.
pub trait Sensitivity {
    /// For each value of the result, by how much it may differ between
    /// neighbouring data sets, measured in the given space. Fails where the
    /// properties do not establish what the derivation rests on.
    fn compute_sensitivity<A: Fn(Operation) -> Float>(
        &self,
        privacy_definition: &PrivacyDefinition,
        properties: &NodeProperties,
        sensitivity_type: &SensitivitySpace,
        arithmetic: &A,
    ) -> (r: Result<Value, Error>)
        requires
            total(*arithmetic),
    ;
}

/// The inner error, filed under the variant of the node it was met in.
pub open spec fn at_node(kind: VariantKind, inner: Error) -> Error {
    Error::Node(kind, Box::new(inner))
}

/// What a variant derives of its result where its derivation needs no
/// arithmetic; `None` for a variant whose derivation does, and for one that
/// derives nothing.
pub open spec fn propagated_plainly(
    variant: VariantView,
    public_arguments: Map<Seq<char>, ValueView>,
    properties: Map<Seq<char>, ValuePropertiesView>,
) -> Option<Result<ValuePropertiesView, Error>> {
    match variant {
        VariantView::Cast { atomic_type } => Some(
            Cast::propagated(lowercase(atomic_type), public_arguments, properties),
        ),
        VariantView::Clamp => Some(Clamp::propagated(public_arguments, properties)),
        VariantView::Impute => Some(Impute::propagated(public_arguments, properties)),
        VariantView::Quantile { alpha, interpolation } => Some(
            Quantile::propagated(alpha, interpolation, public_arguments, properties),
        ),
        VariantView::Resize => Some(Resize::propagated(public_arguments, properties)),
        VariantView::Sum => Some(Sum::propagated(properties)),
        _ => None,
    }
}

/// Why a node of the given variant derives nothing of its result: an error
/// of the variant, filed under it; or that the variant never derives anything.
pub open spec fn propagation_refused(
    variant: VariantView,
    public_arguments: Map<Seq<char>, ValueView>,
    properties: Map<Seq<char>, ValuePropertiesView>,
) -> Option<Error> {
    match variant {
        VariantView::Variance { .. } => match Variance::refused(properties) {
            Some(inner) => Some(at_node(VariantKind::Variance, inner)),
            None => None,
        },
        VariantView::Covariance { .. } => match Covariance::refused(properties) {
            Some(inner) => Some(at_node(VariantKind::Covariance, inner)),
            None => None,
        },
        _ => match propagated_plainly(variant, public_arguments, properties) {
            Some(Ok(_)) => None,
            Some(Err(inner)) => Some(at_node(variant.kind(), inner)),
            None => Some(Error::CapabilityMissing(Capability::Propagation, variant.kind())),
        },
    }
}

/// `derived` is what a node of the given variant derives of its result.
pub open spec fn derives<A: Fn(Operation) -> Float>(
    arithmetic: A,
    variant: VariantView,
    public_arguments: Map<Seq<char>, ValueView>,
    properties: Map<Seq<char>, ValuePropertiesView>,
    node_id: u32,
    derived: ValuePropertiesView,
) -> bool {
    match variant {
        VariantView::Variance { finite_sample_correction } => {
            &&& Variance::refused(properties) is None
            &&& derived matches ValuePropertiesView::Array(array)
            &&& array == (Variance { finite_sample_correction }).propagated(
                properties,
                node_id,
                array.nature,
            )
            &&& Variance::nature_holds(arithmetic, properties["data"@]->Array_0, array.nature)
        },
        VariantView::Covariance { finite_sample_correction } => {
            &&& Covariance::refused(properties) is None
            &&& derived matches ValuePropertiesView::Array(array)
            &&& array == (Covariance { finite_sample_correction }).propagated(
                properties,
                node_id,
                array.nature,
            )
            &&& Covariance::nature_holds(arithmetic, properties, array.nature)
        },
        _ => propagated_plainly(variant, public_arguments, properties) == Some(
            Ok::<ValuePropertiesView, Error>(derived),
        ),
    }
}

/// `result` is what a node of the given variant derives of its result, or why
/// it derives nothing.
pub open spec fn is_propagated<A: Fn(Operation) -> Float>(
    arithmetic: A,
    variant: VariantView,
    public_arguments: Map<Seq<char>, ValueView>,
    properties: Map<Seq<char>, ValuePropertiesView>,
    node_id: u32,
    result: Result<Warnable<ValueProperties>, Error>,
) -> bool {
    match result {
        Ok(derived) => {
            &&& propagation_refused(variant, public_arguments, properties) is None
            &&& derives(arithmetic, variant, public_arguments, properties, node_id, derived.value@)
            &&& derived.warnings@.len() == 0
        },
        Err(e) => propagation_refused(variant, public_arguments, properties) == Some(e),
    }
}

fn file_at_node<T>(kind: VariantKind, result: Result<T, Error>) -> (r: Result<T, Error>)
    ensures
        match result {
            Ok(value) => r == Ok::<T, Error>(value),
            Err(e) => r == Err::<T, Error>(at_node(kind, e)),
        },
{
    match result {
        Ok(value) => Ok(value),
        Err(e) => Err(e.at_node(kind)),
    }
}

impl Component for crate::proto::Component {
    /// Hands the derivation on to the variant. A component without a variant
    /// is refused.
    fn propagate_property<A: Fn(Operation) -> Float>(
        &self,
        privacy_definition: &Option<PrivacyDefinition>,
        public_arguments: &Arguments<Value>,
        properties: NodeProperties,
        node_id: u32,
        arithmetic: &A,
    ) -> (r: Result<Warnable<ValueProperties>, Error>)
        ensures
            match self@.variant {
                Some(variant) => is_propagated(
                    *arithmetic,
                    variant,
                    public_arguments@,
                    properties@,
                    node_id,
                    r,
                ),
                None => r matches Err(e) && e == Error::VariantUndefined,
            },
    {
        let variant = match &self.variant {
            Some(variant) => variant,
            None => {
                return Err(Error::VariantUndefined);
            },
        };
        match variant {
            Variant::Cast(x) => file_at_node(
                VariantKind::Cast,
                x.propagate_property(
                    privacy_definition,
                    public_arguments,
                    properties,
                    node_id,
                    arithmetic,
                ),
            ),
            Variant::Clamp(x) => file_at_node(
                VariantKind::Clamp,
                x.propagate_property(
                    privacy_definition,
                    public_arguments,
                    properties,
                    node_id,
                    arithmetic,
                ),
            ),
            Variant::Covariance(x) => file_at_node(
                VariantKind::Covariance,
                x.propagate_property(
                    privacy_definition,
                    public_arguments,
                    properties,
                    node_id,
                    arithmetic,
                ),
            ),
            Variant::Impute(x) => file_at_node(
                VariantKind::Impute,
                x.propagate_property(
                    privacy_definition,
                    public_arguments,
                    properties,
                    node_id,
                    arithmetic,
                ),
            ),
            Variant::Quantile(x) => file_at_node(
                VariantKind::Quantile,
                x.propagate_property(
                    privacy_definition,
                    public_arguments,
                    properties,
                    node_id,
                    arithmetic,
                ),
            ),
            Variant::Resize(x) => file_at_node(
                VariantKind::Resize,
                x.propagate_property(
                    privacy_definition,
                    public_arguments,
                    properties,
                    node_id,
                    arithmetic,
                ),
            ),
            Variant::Sum(x) => file_at_node(
                VariantKind::Sum,
                x.propagate_property(
                    privacy_definition,
                    public_arguments,
                    properties,
                    node_id,
                    arithmetic,
                ),
            ),
            Variant::Variance(x) => file_at_node(
                VariantKind::Variance,
                x.propagate_property(
                    privacy_definition,
                    public_arguments,
                    properties,
                    node_id,
                    arithmetic,
                ),
            ),
            _ => Err(Error::CapabilityMissing(Capability::Propagation, variant.kind())),
        }
    }
}

/// The patch by which a variant restates itself; `None` for a variant that
/// does not.
pub open spec fn rewritten(
    variant: VariantView,
    component: ComponentView,
    properties: Map<Seq<char>, ValuePropertiesView>,
    component_id: u32,
    maximum_id: u32,
) -> Option<Result<ComponentExpansionView, Error>> {
    match variant {
        VariantView::Clamp | VariantView::Impute => Some(
            with_literal_bounds(component, properties, component_id, maximum_id, false),
        ),
        VariantView::Resize => Some(
            with_literal_bounds(component, properties, component_id, maximum_id, true),
        ),
        VariantView::Minimum => Some(
            Ok(
                replaced_by(
                    component,
                    component_id,
                    VariantView::Quantile { alpha: Float { bits: 0 }, interpolation: "lower"@ },
                ),
            ),
        ),
        VariantView::Median => Some(
            Ok(
                replaced_by(
                    component,
                    component_id,
                    VariantView::Quantile {
                        alpha: Float { bits: crate::float::HALF_BITS },
                        interpolation: "midpoint"@,
                    },
                ),
            ),
        ),
        VariantView::Maximum => Some(
            Ok(
                replaced_by(
                    component,
                    component_id,
                    VariantView::Quantile {
                        alpha: Float { bits: crate::float::ONE_BITS },
                        interpolation: "upper"@,
                    },
                ),
            ),
        ),
        VariantView::ToBool => Some(
            Ok(replaced_by(component, component_id, VariantView::Cast { atomic_type: "bool"@ })),
        ),
        VariantView::ToFloat => Some(
            Ok(replaced_by(component, component_id, VariantView::Cast { atomic_type: "float"@ })),
        ),
        VariantView::ToInt => Some(
            Ok(replaced_by(component, component_id, VariantView::Cast { atomic_type: "int"@ })),
        ),
        VariantView::ToString => Some(
            Ok(replaced_by(component, component_id, VariantView::Cast { atomic_type: "string"@ })),
        ),
        VariantView::DpMaximum { mechanism, privacy_usage } => Some(
            Ok(
                replaced_by(
                    component,
                    component_id,
                    VariantView::DpQuantile {
                        alpha: Float { bits: crate::float::ONE_BITS },
                        interpolation: "upper"@,
                        mechanism: DpMaximum::chosen_mechanism(
                            lowercase(mechanism),
                            properties.contains_key("candidates"@),
                        ),
                        privacy_usage,
                    },
                ),
            ),
        ),
        _ => None,
    }
}

/// The patch that restates a node. A selection of columns, a union and a
/// component mapped over partitions stay as they are. Any other component that
/// takes partitioned data is put into a component that maps it over the
/// partitions, to be visited again. Otherwise the variant restates itself: an
/// error of the variant comes filed under it, and a patch whose traversal does
/// not end in the node is refused. A variant that does not restate itself
/// stays as it is.
pub open spec fn expanded(
    variant: VariantView,
    component: ComponentView,
    properties: Map<Seq<char>, ValuePropertiesView>,
    component_id: u32,
    maximum_id: u32,
) -> Result<ComponentExpansionView, Error> {
    if variant is Index || variant is Union || variant is Mapped {
        Ok(ComponentExpansionView::empty())
    } else if holds_partitioned(properties) {
        Ok(replaced_by(component, component_id, VariantView::Mapped(Box::new(component))))
    } else {
        match rewritten(variant, component, properties, component_id, maximum_id) {
            Some(Ok(expansion)) => if expansion.is_valid(component_id) {
                Ok(expansion)
            } else {
                Err(Error::Traversal)
            },
            Some(Err(e)) => Err(at_node(variant.kind(), e)),
            None => Ok(ComponentExpansionView::empty()),
        }
    }
}

fn checked(kind: VariantKind, component_id: u32, result: Result<ComponentExpansion, Error>) -> (r:
    Result<ComponentExpansion, Error>)
    ensures
        match result {
            Ok(expansion) => if expansion@.is_valid(component_id) {
                r matches Ok(same) && same@ == expansion@
            } else {
                r matches Err(e) && e == Error::Traversal
            },
            Err(inner) => r matches Err(e) && e == at_node(kind, inner),
        },
{
    match result {
        Ok(expansion) => match expansion.is_valid(component_id) {
            Ok(_) => Ok(expansion),
            Err(e) => Err(e),
        },
        Err(e) => Err(e.at_node(kind)),
    }
}

impl Expandable for crate::proto::Component {
    /// Hands the rewriting on to the variant. A component without a variant is
    /// refused.
    fn expand_component(
        &self,
        privacy_definition: &Option<PrivacyDefinition>,
        component: &crate::proto::Component,
        public_arguments: &Arguments<Value>,
        properties: &NodeProperties,
        component_id: u32,
        maximum_id: u32,
    ) -> (r: Result<ComponentExpansion, Error>)
        ensures
            match self@.variant {
                Some(variant) => match r {
                    Ok(expansion) => expanded(
                        variant,
                        component@,
                        properties@,
                        component_id,
                        maximum_id,
                    ) == Ok::<ComponentExpansionView, Error>(expansion@),
                    Err(e) => expanded(variant, component@, properties@, component_id, maximum_id)
                        == Err::<ComponentExpansionView, Error>(e),
                },
                None => r matches Err(e) && e == Error::VariantUndefined,
            },
    {
        let variant = match &self.variant {
            Some(variant) => variant,
            None => {
                return Err(Error::VariantUndefined);
            },
        };
        match variant {
            Variant::Index(_) | Variant::Union(_) | Variant::Mapped(_) => {
                return Ok(ComponentExpansion::new());
            },
            _ => {},
        }
        if properties.any_partitioned() {
            return Ok(
                replace_by(component, component_id, Variant::Mapped(Box::new(component.duplicate()))),
            );
        }
        match variant {
            Variant::Clamp(x) => checked(
                VariantKind::Clamp,
                component_id,
                x.expand_component(
                    privacy_definition,
                    component,
                    public_arguments,
                    properties,
                    component_id,
                    maximum_id,
                ),
            ),
            Variant::Impute(x) => checked(
                VariantKind::Impute,
                component_id,
                x.expand_component(
                    privacy_definition,
                    component,
                    public_arguments,
                    properties,
                    component_id,
                    maximum_id,
                ),
            ),
            Variant::Resize(x) => checked(
                VariantKind::Resize,
                component_id,
                x.expand_component(
                    privacy_definition,
                    component,
                    public_arguments,
                    properties,
                    component_id,
                    maximum_id,
                ),
            ),
            Variant::Minimum(x) => checked(
                VariantKind::Minimum,
                component_id,
                x.expand_component(
                    privacy_definition,
                    component,
                    public_arguments,
                    properties,
                    component_id,
                    maximum_id,
                ),
            ),
            Variant::Median(x) => checked(
                VariantKind::Median,
                component_id,
                x.expand_component(
                    privacy_definition,
                    component,
                    public_arguments,
                    properties,
                    component_id,
                    maximum_id,
                ),
            ),
            Variant::Maximum(x) => checked(
                VariantKind::Maximum,
                component_id,
                x.expand_component(
                    privacy_definition,
                    component,
                    public_arguments,
                    properties,
                    component_id,
                    maximum_id,
                ),
            ),
            Variant::ToBool(x) => checked(
                VariantKind::ToBool,
                component_id,
                x.expand_component(
                    privacy_definition,
                    component,
                    public_arguments,
                    properties,
                    component_id,
                    maximum_id,
                ),
            ),
            Variant::ToFloat(x) => checked(
                VariantKind::ToFloat,
                component_id,
                x.expand_component(
                    privacy_definition,
                    component,
                    public_arguments,
                    properties,
                    component_id,
                    maximum_id,
                ),
            ),
            Variant::ToInt(x) => checked(
                VariantKind::ToInt,
                component_id,
                x.expand_component(
                    privacy_definition,
                    component,
                    public_arguments,
                    properties,
                    component_id,
                    maximum_id,
                ),
            ),
            Variant::ToString(x) => checked(
                VariantKind::ToString,
                component_id,
                x.expand_component(
                    privacy_definition,
                    component,
                    public_arguments,
                    properties,
                    component_id,
                    maximum_id,
                ),
            ),
            Variant::DpMaximum(x) => checked(
                VariantKind::DpMaximum,
                component_id,
                x.expand_component(
                    privacy_definition,
                    component,
                    public_arguments,
                    properties,
                    component_id,
                    maximum_id,
                ),
            ),
            _ => Ok(ComponentExpansion::new()),
        }
    }
}

/// `result` is the sensitivity of an aggregation of the given variant. An
/// error of the variant comes filed under it. A variant that is no
/// aggregation is refused as such.
pub open spec fn is_sensitivity<A: Fn(Operation) -> Float>(
    arithmetic: A,
    variant: VariantView,
    privacy_definition: PrivacyDefinition,
    properties: Map<Seq<char>, ValuePropertiesView>,
    space: SensitivitySpace,
    result: Result<Value, Error>,
) -> bool {
    match variant {
        VariantView::Sum => match result {
            Ok(sensitivity) => {
                &&& Sum::sensitivity_refused(privacy_definition, properties, space) is None
                &&& Sum::is_sensitivity(
                    arithmetic,
                    privacy_definition,
                    properties,
                    space,
                    sensitivity@,
                )
            },
            Err(e) => Sum::sensitivity_refused(privacy_definition, properties, space) matches Some(
                inner,
            ) && e == at_node(VariantKind::Sum, inner),
        },
        VariantView::Variance { finite_sample_correction } => match result {
            Ok(sensitivity) => {
                &&& Variance::sensitivity_refused(privacy_definition, properties, space) is None
                &&& (Variance { finite_sample_correction }).is_sensitivity(
                    arithmetic,
                    privacy_definition,
                    properties,
                    sensitivity@,
                )
            },
            Err(e) => Variance::sensitivity_refused(privacy_definition, properties, space) matches Some(
                inner,
            ) && e == at_node(VariantKind::Variance, inner),
        },
        VariantView::Covariance { finite_sample_correction } => match result {
            Ok(sensitivity) => {
                &&& Covariance::sensitivity_refused(privacy_definition, properties, space) is None
                &&& (Covariance { finite_sample_correction }).is_sensitivity(
                    arithmetic,
                    privacy_definition,
                    properties,
                    sensitivity@,
                )
            },
            Err(e) => Covariance::sensitivity_refused(
                privacy_definition,
                properties,
                space,
            ) matches Some(inner) && e == at_node(VariantKind::Covariance, inner),
        },
        VariantView::Quantile { alpha, interpolation } => match result {
            Ok(sensitivity) => {
                &&& Quantile::sensitivity_refused(privacy_definition, properties, space) is None
                &&& Quantile::is_sensitivity(
                    alpha,
                    arithmetic,
                    privacy_definition,
                    properties,
                    space,
                    sensitivity@,
                )
            },
            Err(e) => Quantile::sensitivity_refused(privacy_definition, properties, space) matches Some(
                inner,
            ) && e == at_node(VariantKind::Quantile, inner),
        },
        _ => result matches Err(e) && e == Error::CapabilityMissing(
            Capability::Sensitivity,
            variant.kind(),
        ),
    }
}

impl Sensitivity for Variant {
    /// Hands the derivation on to the variant.
    fn compute_sensitivity<A: Fn(Operation) -> Float>(
        &self,
        privacy_definition: &PrivacyDefinition,
        properties: &NodeProperties,
        sensitivity_type: &SensitivitySpace,
        arithmetic: &A,
    ) -> (r: Result<Value, Error>)
        ensures
            is_sensitivity(
                *arithmetic,
                self@,
                *privacy_definition,
                properties@,
                *sensitivity_type,
                r,
            ),
    {
        match self {
            Variant::Covariance(x) => file_at_node(
                VariantKind::Covariance,
                x.compute_sensitivity(privacy_definition, properties, sensitivity_type, arithmetic),
            ),
            Variant::Quantile(x) => file_at_node(
                VariantKind::Quantile,
                x.compute_sensitivity(privacy_definition, properties, sensitivity_type, arithmetic),
            ),
            Variant::Sum(x) => file_at_node(
                VariantKind::Sum,
                x.compute_sensitivity(privacy_definition, properties, sensitivity_type, arithmetic),
            ),
            Variant::Variance(x) => file_at_node(
                VariantKind::Variance,
                x.compute_sensitivity(privacy_definition, properties, sensitivity_type, arithmetic),
            ),
            _ => Err(Error::CapabilityMissing(Capability::Sensitivity, self.kind())),
        }
    }
}

/// A computation that spends privacy.
pub trait Mechanism {
    /// What the component spends: what its release is on record to have spent
    /// where there is one, and otherwise the most it may spend. `None` for a
    /// component that spends nothing.
    fn get_privacy_usage(
        &self,
        privacy_definition: &PrivacyDefinition,
        release_usage: Option<&Vec<PrivacyUsage>>,
        properties: &NodeProperties,
    ) -> (r: Result<Option<Vec<PrivacyUsage>>, Error>)
    ;
}

impl Mechanism for crate::proto::Component {
    /// No variant of this library spends privacy. A component without a
    /// variant is refused.
    fn get_privacy_usage(
        &self,
        _privacy_definition: &PrivacyDefinition,
        _release_usage: Option<&Vec<PrivacyUsage>>,
        _properties: &NodeProperties,
    ) -> (r: Result<Option<Vec<PrivacyUsage>>, Error>)
        ensures
            match self@.variant {
                Some(_) => r matches Ok(None),
                None => r matches Err(e) && e == Error::VariantUndefined,
            },
    {
        match &self.variant {
            Some(_) => Ok(None),
            None => Err(Error::VariantUndefined),
        }
    }
}

/// A computation of which the accuracy and the privacy spent determine each
/// other.
pub trait Accuracy {
    /// The privacy to spend for the accuracies asked for; `None` for a
    /// component that offers no such conversion.
    fn accuracy_to_privacy_usage(
        &self,
        privacy_definition: &PrivacyDefinition,
        properties: &NodeProperties,
        accuracies: &Accuracies,
    ) -> (r: Result<Option<Vec<PrivacyUsage>>, Error>)
    ;

    /// The accuracy had for the privacy spent, at the share `alpha` of cases
    /// left out; `None` for a component that offers no such conversion.
    fn privacy_usage_to_accuracy(
        &self,
        privacy_definition: &PrivacyDefinition,
        properties: &NodeProperties,
        alpha: Float,
    ) -> (r: Result<Option<Vec<crate::proto::Accuracy>>, Error>)
    ;
}

impl Accuracy for crate::proto::Component {
    /// No variant of this library converts. A component without a variant is
    /// refused.
    fn accuracy_to_privacy_usage(
        &self,
        _privacy_definition: &PrivacyDefinition,
        _properties: &NodeProperties,
        _accuracies: &Accuracies,
    ) -> (r: Result<Option<Vec<PrivacyUsage>>, Error>)
        ensures
            match self@.variant {
                Some(_) => r matches Ok(None),
                None => r matches Err(e) && e == Error::VariantUndefined,
            },
    {
        match &self.variant {
            Some(_) => Ok(None),
            None => Err(Error::VariantUndefined),
        }
    }

    /// No variant of this library converts. A component without a variant is
    /// refused.
    fn privacy_usage_to_accuracy(
        &self,
        _privacy_definition: &PrivacyDefinition,
        _properties: &NodeProperties,
        _alpha: Float,
    ) -> (r: Result<Option<Vec<crate::proto::Accuracy>>, Error>)
        ensures
            match self@.variant {
                Some(_) => r matches Ok(None),
                None => r matches Err(e) && e == Error::VariantUndefined,
            },
    {
        match &self.variant {
            Some(_) => Ok(None),
            None => Err(Error::VariantUndefined),
        }
    }
}

/// A computation of which a release can be summarized.
pub trait Report {
    /// The summary of the release of the node, one entry for each column;
    /// `None` for a component that is not summarized.
    fn summarize<A: Fn(Operation) -> Float>(
        &self,
        node_id: u32,
        component: &crate::proto::Component,
        public_arguments: &Arguments<Value>,
        properties: NodeProperties,
        release: &Value,
        variable_names: Option<&Vec<String>>,
        arithmetic: &A,
    ) -> (r: Result<Option<Vec<JSONRelease>>, Error>)
        requires
            total(*arithmetic),
    ;
}

impl Report for crate::proto::Component {
    /// Hands the summary on to the variant: a private maximum is summarized,
    /// and an error of it comes filed under it. A component without a variant
    /// is refused.
    fn summarize<A: Fn(Operation) -> Float>(
        &self,
        node_id: u32,
        component: &crate::proto::Component,
        public_arguments: &Arguments<Value>,
        properties: NodeProperties,
        release: &Value,
        variable_names: Option<&Vec<String>>,
        arithmetic: &A,
    ) -> (r: Result<Option<Vec<JSONRelease>>, Error>)
        ensures
            match self.variant {
                Some(Variant::DpMaximum(x)) => match r {
                    Ok(summaries) => {
                        &&& x.summary_refused(properties@) is None
                        &&& summaries matches Some(summaries)
                        &&& x.is_summary(
                            *arithmetic,
                            node_id,
                            component.submission,
                            properties@["data"@]->Array_0,
                            release@,
                            match variable_names {
                                Some(names) => Some(names.deep_view()),
                                None => None,
                            },
                            summaries.deep_view(),
                        )
                    },
                    Err(e) => e matches Error::Node(kind, inner) && kind == VariantKind::DpMaximum
                        && x.is_summary_refusal(properties@, release@, *inner),
                },
                Some(_) => r matches Ok(None),
                None => r matches Err(e) && e == Error::VariantUndefined,
            },
    {
        match &self.variant {
            Some(Variant::DpMaximum(x)) => file_at_node(
                VariantKind::DpMaximum,
                x.summarize(
                    node_id,
                    component,
                    public_arguments,
                    properties,
                    release,
                    variable_names,
                    arithmetic,
                ),
            ),
            Some(_) => Ok(None),
            None => Err(Error::VariantUndefined),
        }
    }
}

/// A computation that hands on the names of the columns it works on.
pub trait Named {
    /// The names of the columns of the result.
    fn get_names(
        &self,
        public_arguments: &Arguments<Value>,
        argument_variables: &Arguments<Vec<String>>,
        release: Option<&Value>,
    ) -> (r: Result<Vec<String>, Error>)
    ;
}

impl Named for crate::proto::Component {
    /// The names of the columns of the argument `data` pass through. Without
    /// that argument the variant is refused as one that has no names, and a
    /// component without a variant is refused.
    fn get_names(
        &self,
        _public_arguments: &Arguments<Value>,
        argument_variables: &Arguments<Vec<String>>,
        _release: Option<&Value>,
    ) -> (r: Result<Vec<String>, Error>)
        ensures
            match self@.variant {
                Some(variant) => if argument_variables@.contains_key("data"@) {
                    r matches Ok(names) && names.deep_view() == argument_variables@["data"@]
                } else {
                    r matches Err(e) && e == Error::CapabilityMissing(
                        Capability::Names,
                        variant.kind(),
                    )
                },
                None => r matches Err(e) && e == Error::VariantUndefined,
            },
    {
        let variant = match &self.variant {
            Some(variant) => variant,
            None => {
                return Err(Error::VariantUndefined);
            },
        };
        match argument_variables.get("data") {
            Some(variable_names) => Ok(crate::atom::duplicate_items(variable_names)),
            None => Err(Error::CapabilityMissing(Capability::Names, variant.kind())),
        }
    }
}

} // verus!
