//! The rewriting of components.

use crate::array::NdArray;
use crate::base::{
    Arguments, Array, ArrayProperties, NodeProperties, Value, ValuePropertiesView, ValueView,
};
use crate::components::arithmetic::{vector_of, vector_value};
use crate::components::bounds::{bound_name, within};
use crate::components::Expandable;
use crate::errors::{Argument, Bound, Error};
use crate::expansion::{ComponentExpansion, ComponentExpansionView};
use crate::float::Float;
use crate::inference::{infer_property, inferred};
use crate::proto::{
    Cast, Clamp, Component, ComponentView, DpMaximum, DpQuantile, Impute, Maximum, Median, Minimum,
    PrivacyDefinition, Quantile, Resize, ToBool, ToFloat, ToInt, ToText, Variant, VariantView,
};
use crate::utilities::{get_literal, literal_node, literal_release, text_is, to_lowercase, lowercase};
use vstd::prelude::*;

verus! {

/// A patch in the making: the patch so far, the component as rewritten so
/// far, and the last id in use.
pub ghost struct Rewriting {
    pub expansion: ComponentExpansionView,
    pub component: ComponentView,
    pub maximum_id: u32,
}

/// The rewriting after a bound is supplied. Where neither categories nor the
/// bound are among the arguments, a literal node is added that holds the bound
/// that the data carries, under the id that follows the last in use, and the
/// component takes it as its argument.
pub open spec fn with_literal_bound(
    which: Bound,
    state: Rewriting,
    properties: Map<Seq<char>, ValuePropertiesView>,
) -> Result<Rewriting, Error> {
    if properties.contains_key("categories"@) || properties.contains_key(bound_name(which)) {
        Ok(state)
    } else if state.maximum_id == u32::MAX {
        Err(Error::IdOverflow)
    } else if !properties.contains_key("data"@) {
        Err(Error::Missing(Argument::Data))
    } else {
        match properties["data"@] {
            ValuePropertiesView::Array(data) => match data.f64_bound(which) {
                Err(e) => Err(e),
                Ok(bound) => {
                    let id = (state.maximum_id + 1) as u32;
                    let value = vector_of(bound);
                    Ok(
                        Rewriting {
                            expansion: ComponentExpansionView {
                                computation_graph: state.expansion.computation_graph.insert(
                                    id,
                                    literal_node(state.component.submission),
                                ),
                                properties: state.expansion.properties.insert(
                                    id,
                                    inferred(value, None),
                                ),
                                releases: state.expansion.releases.insert(id, literal_release(value)),
                                ..state.expansion
                            },
                            component: ComponentView {
                                arguments: state.component.arguments.insert(bound_name(which), id),
                                ..state.component
                            },
                            maximum_id: id,
                        },
                    )
                },
            },
            _ => Err(Error::PropertiesNotArray),
        }
    }
}

/// The patch that supplies a component with the bounds it lacks: a literal
/// node for the lower bound, one for the upper bound, and the component with
/// these as its arguments in place of the node expanded. It asks for no node
/// to be visited. With `eager`, the data must be there and an array even where
/// no bound is lacking.
pub open spec fn with_literal_bounds(
    component: ComponentView,
    properties: Map<Seq<char>, ValuePropertiesView>,
    component_id: u32,
    maximum_id: u32,
    eager: bool,
) -> Result<ComponentExpansionView, Error> {
    if eager && !properties.contains_key("data"@) {
        Err(Error::Missing(Argument::Data))
    } else if eager && properties["data"@] !is Array {
        Err(within(Argument::Data, Error::PropertiesNotArray))
    } else {
        match with_literal_bound(
            Bound::Lower,
            Rewriting { expansion: ComponentExpansionView::empty(), component, maximum_id },
            properties,
        ) {
            Err(e) => Err(e),
            Ok(state) => match with_literal_bound(Bound::Upper, state, properties) {
                Err(e) => Err(e),
                Ok(state) => Ok(
                    ComponentExpansionView {
                        computation_graph: state.expansion.computation_graph.insert(
                            component_id,
                            state.component,
                        ),
                        ..state.expansion
                    },
                ),
            },
        }
    }
}

fn supply_bound(
    which: Bound,
    expansion: &mut ComponentExpansion,
    component: &mut Component,
    maximum_id: &mut u32,
    properties: &NodeProperties,
) -> (r: Result<(), Error>)
    ensures
        match r {
            Ok(_) => with_literal_bound(
                which,
                Rewriting {
                    expansion: old(expansion)@,
                    component: old(component)@,
                    maximum_id: *old(maximum_id),
                },
                properties@,
            ) == Ok::<Rewriting, Error>(
                Rewriting {
                    expansion: final(expansion)@,
                    component: final(component)@,
                    maximum_id: *final(maximum_id),
                },
            ),
            Err(e) => with_literal_bound(
                which,
                Rewriting {
                    expansion: old(expansion)@,
                    component: old(component)@,
                    maximum_id: *old(maximum_id),
                },
                properties@,
            ) == Err::<Rewriting, Error>(e),
        },
{
    let name = match which {
        Bound::Lower => "lower",
        Bound::Upper => "upper",
    };
    assert(name@ == bound_name(which));
    if properties.contains_key("categories") || properties.contains_key(name) {
        return Ok(());
    }
    if *maximum_id == u32::MAX {
        return Err(Error::IdOverflow);
    }
    let data = match properties.get("data") {
        Some(data) => data,
        None => {
            return Err(Error::Missing(Argument::Data));
        },
    };
    let data = match data.array() {
        Ok(data) => data,
        Err(e) => {
            return Err(e);
        },
    };
    let bound = match which {
        Bound::Lower => data.lower_f64(),
        Bound::Upper => data.upper_f64(),
    };
    let bound = match bound {
        Ok(bound) => bound,
        Err(e) => {
            return Err(e);
        },
    };
    let id = *maximum_id + 1;
    *maximum_id = id;
    let value = vector_value(bound);
    let inferred = match infer_property(&value, None) {
        Ok(inferred) => inferred,
        Err(e) => {
            return Err(e);
        },
    };
    let (patch_node, release) = get_literal(value, component.submission);
    expansion.insert_literal(id, patch_node, inferred, release);
    component.insert_argument(name, id);
    Ok(())
}

/// The patch that supplies a component with the bounds it lacks.
pub fn supply_bounds(
    component: &Component,
    properties: &NodeProperties,
    component_id: u32,
    maximum_id: u32,
    eager: bool,
) -> (r: Result<ComponentExpansion, Error>)
    ensures
        match r {
            Ok(expansion) => with_literal_bounds(
                component@,
                properties@,
                component_id,
                maximum_id,
                eager,
            ) == Ok::<ComponentExpansionView, Error>(expansion@),
            Err(e) => with_literal_bounds(component@, properties@, component_id, maximum_id, eager)
                == Err::<ComponentExpansionView, Error>(e),
        },
{
    if eager {
        let data = match properties.get("data") {
            Some(data) => data,
            None => {
                return Err(Error::Missing(Argument::Data));
            },
        };
        match data.array() {
            Ok(_) => {},
            Err(e) => {
                return Err(e.within(Argument::Data));
            },
        }
    }
    let mut component = component.duplicate();
    let mut expansion = ComponentExpansion::new();
    let mut maximum_id = maximum_id;
    match supply_bound(Bound::Lower, &mut expansion, &mut component, &mut maximum_id, properties) {
        Ok(_) => {},
        Err(e) => {
            return Err(e);
        },
    }
    match supply_bound(Bound::Upper, &mut expansion, &mut component, &mut maximum_id, properties) {
        Ok(_) => {},
        Err(e) => {
            return Err(e);
        },
    }
    expansion.insert_component(component_id, component);
    Ok(expansion)
}

impl Expandable for Clamp {
    fn expand_component(
        &self,
        _privacy_definition: &Option<PrivacyDefinition>,
        component: &Component,
        _public_arguments: &Arguments<Value>,
        properties: &NodeProperties,
        component_id: u32,
        maximum_id: u32,
    ) -> (r: Result<ComponentExpansion, Error>)
        ensures
            match r {
                Ok(expansion) => with_literal_bounds(
                    component@,
                    properties@,
                    component_id,
                    maximum_id,
                    false,
                ) == Ok::<ComponentExpansionView, Error>(expansion@),
                Err(e) => with_literal_bounds(
                    component@,
                    properties@,
                    component_id,
                    maximum_id,
                    false,
                ) == Err::<ComponentExpansionView, Error>(e),
            },
    {
        supply_bounds(component, properties, component_id, maximum_id, false)
    }
}

impl Expandable for Impute {
    fn expand_component(
        &self,
        _privacy_definition: &Option<PrivacyDefinition>,
        component: &Component,
        _public_arguments: &Arguments<Value>,
        properties: &NodeProperties,
        component_id: u32,
        maximum_id: u32,
    ) -> (r: Result<ComponentExpansion, Error>)
        ensures
            match r {
                Ok(expansion) => with_literal_bounds(
                    component@,
                    properties@,
                    component_id,
                    maximum_id,
                    false,
                ) == Ok::<ComponentExpansionView, Error>(expansion@),
                Err(e) => with_literal_bounds(
                    component@,
                    properties@,
                    component_id,
                    maximum_id,
                    false,
                ) == Err::<ComponentExpansionView, Error>(e),
            },
    {
        supply_bounds(component, properties, component_id, maximum_id, false)
    }
}

impl Expandable for Resize {
    fn expand_component(
        &self,
        _privacy_definition: &Option<PrivacyDefinition>,
        component: &Component,
        _public_arguments: &Arguments<Value>,
        properties: &NodeProperties,
        component_id: u32,
        maximum_id: u32,
    ) -> (r: Result<ComponentExpansion, Error>)
        ensures
            match r {
                Ok(expansion) => with_literal_bounds(
                    component@,
                    properties@,
                    component_id,
                    maximum_id,
                    true,
                ) == Ok::<ComponentExpansionView, Error>(expansion@),
                Err(e) => with_literal_bounds(
                    component@,
                    properties@,
                    component_id,
                    maximum_id,
                    true,
                ) == Err::<ComponentExpansionView, Error>(e),
            },
    {
        supply_bounds(component, properties, component_id, maximum_id, true)
    }
}

/// The patch that puts a component of another variant, with the same
/// arguments, in the place of the node expanded, and asks for that node to be
/// visited again.
pub open spec fn replaced_by(component: ComponentView, component_id: u32, variant: VariantView) -> ComponentExpansionView {
    ComponentExpansionView {
        computation_graph: Map::<u32, ComponentView>::empty().insert(
            component_id,
            ComponentView { variant: Some(variant), ..component },
        ),
        traversal: seq![component_id],
        ..ComponentExpansionView::empty()
    }
}

/// The patch that puts a component of another variant in the place of the
/// node expanded.
pub fn replace_by(component: &Component, component_id: u32, variant: Variant) -> (r:
    ComponentExpansion)
    ensures
        r@ == replaced_by(component@, component_id, variant@),
{
    let mut expansion = ComponentExpansion::new();
    expansion.insert_component(
        component_id,
        Component {
            arguments: component.arguments.duplicate(),
            variant: Some(variant),
            omit: component.omit,
            submission: component.submission,
        },
    );
    expansion.visit(component_id);
    assert(expansion@.traversal =~= seq![component_id]);
    expansion
}

impl Expandable for Minimum {
    fn expand_component(
        &self,
        _privacy_definition: &Option<PrivacyDefinition>,
        component: &Component,
        _public_arguments: &Arguments<Value>,
        _properties: &NodeProperties,
        component_id: u32,
        _maximum_id: u32,
    ) -> (r: Result<ComponentExpansion, Error>)
        ensures
            r matches Ok(expansion) && expansion@ == replaced_by(
                component@,
                component_id,
                VariantView::Quantile { alpha: Float { bits: 0 }, interpolation: "lower"@ },
            ),
    {
        Ok(
            replace_by(
                component,
                component_id,
                Variant::Quantile(
                    Quantile { alpha: Float::zero(), interpolation: "lower".to_owned() },
                ),
            ),
        )
    }
}

impl Expandable for Median {
    fn expand_component(
        &self,
        _privacy_definition: &Option<PrivacyDefinition>,
        component: &Component,
        _public_arguments: &Arguments<Value>,
        _properties: &NodeProperties,
        component_id: u32,
        _maximum_id: u32,
    ) -> (r: Result<ComponentExpansion, Error>)
        ensures
            r matches Ok(expansion) && expansion@ == replaced_by(
                component@,
                component_id,
                VariantView::Quantile {
                    alpha: Float { bits: crate::float::HALF_BITS },
                    interpolation: "midpoint"@,
                },
            ),
    {
        Ok(
            replace_by(
                component,
                component_id,
                Variant::Quantile(
                    Quantile {
                        alpha: Float { bits: crate::float::HALF_BITS },
                        interpolation: "midpoint".to_owned(),
                    },
                ),
            ),
        )
    }
}

impl Expandable for Maximum {
    fn expand_component(
        &self,
        _privacy_definition: &Option<PrivacyDefinition>,
        component: &Component,
        _public_arguments: &Arguments<Value>,
        _properties: &NodeProperties,
        component_id: u32,
        _maximum_id: u32,
    ) -> (r: Result<ComponentExpansion, Error>)
        ensures
            r matches Ok(expansion) && expansion@ == replaced_by(
                component@,
                component_id,
                VariantView::Quantile {
                    alpha: Float { bits: crate::float::ONE_BITS },
                    interpolation: "upper"@,
                },
            ),
    {
        Ok(
            replace_by(
                component,
                component_id,
                Variant::Quantile(Quantile { alpha: Float::one(), interpolation: "upper".to_owned() }),
            ),
        )
    }
}

impl Expandable for ToBool {
    fn expand_component(
        &self,
        _privacy_definition: &Option<PrivacyDefinition>,
        component: &Component,
        _public_arguments: &Arguments<Value>,
        _properties: &NodeProperties,
        component_id: u32,
        _maximum_id: u32,
    ) -> (r: Result<ComponentExpansion, Error>)
        ensures
            r matches Ok(expansion) && expansion@ == replaced_by(
                component@,
                component_id,
                VariantView::Cast { atomic_type: "bool"@ },
            ),
    {
        Ok(
            replace_by(
                component,
                component_id,
                Variant::Cast(Cast { atomic_type: "bool".to_owned() }),
            ),
        )
    }
}

impl Expandable for ToFloat {
    fn expand_component(
        &self,
        _privacy_definition: &Option<PrivacyDefinition>,
        component: &Component,
        _public_arguments: &Arguments<Value>,
        _properties: &NodeProperties,
        component_id: u32,
        _maximum_id: u32,
    ) -> (r: Result<ComponentExpansion, Error>)
        ensures
            r matches Ok(expansion) && expansion@ == replaced_by(
                component@,
                component_id,
                VariantView::Cast { atomic_type: "float"@ },
            ),
    {
        Ok(
            replace_by(
                component,
                component_id,
                Variant::Cast(Cast { atomic_type: "float".to_owned() }),
            ),
        )
    }
}

impl Expandable for ToInt {
    fn expand_component(
        &self,
        _privacy_definition: &Option<PrivacyDefinition>,
        component: &Component,
        _public_arguments: &Arguments<Value>,
        _properties: &NodeProperties,
        component_id: u32,
        _maximum_id: u32,
    ) -> (r: Result<ComponentExpansion, Error>)
        ensures
            r matches Ok(expansion) && expansion@ == replaced_by(
                component@,
                component_id,
                VariantView::Cast { atomic_type: "int"@ },
            ),
    {
        Ok(
            replace_by(
                component,
                component_id,
                Variant::Cast(Cast { atomic_type: "int".to_owned() }),
            ),
        )
    }
}

impl Expandable for ToText {
    fn expand_component(
        &self,
        _privacy_definition: &Option<PrivacyDefinition>,
        component: &Component,
        _public_arguments: &Arguments<Value>,
        _properties: &NodeProperties,
        component_id: u32,
        _maximum_id: u32,
    ) -> (r: Result<ComponentExpansion, Error>)
        ensures
            r matches Ok(expansion) && expansion@ == replaced_by(
                component@,
                component_id,
                VariantView::Cast { atomic_type: "string"@ },
            ),
    {
        Ok(
            replace_by(
                component,
                component_id,
                Variant::Cast(Cast { atomic_type: "string".to_owned() }),
            ),
        )
    }
}

impl DpMaximum {
    /// The mechanism that a private maximum is released by: the one named, in
    /// lower case; where that is "automatic", the exponential mechanism with
    /// candidates and the Laplace mechanism without.
    pub open spec fn chosen_mechanism(lowered: Seq<char>, with_candidates: bool) -> Seq<char> {
        if lowered == "automatic"@ {
            if with_candidates {
                "exponential"@
            } else {
                "laplace"@
            }
        } else {
            lowered
        }
    }

    /// The mechanism that a private maximum is released by.
    pub fn choose_mechanism(lowered: String, with_candidates: bool) -> (r: String)
        ensures
            r@ == DpMaximum::chosen_mechanism(lowered@, with_candidates),
    {
        if text_is(&lowered, "automatic") {
            if with_candidates {
                "exponential".to_owned()
            } else {
                "laplace".to_owned()
            }
        } else {
            lowered
        }
    }
}

impl Expandable for DpMaximum {
    fn expand_component(
        &self,
        _privacy_definition: &Option<PrivacyDefinition>,
        component: &Component,
        _public_arguments: &Arguments<Value>,
        properties: &NodeProperties,
        component_id: u32,
        _maximum_id: u32,
    ) -> (r: Result<ComponentExpansion, Error>)
        ensures
            r matches Ok(expansion) && expansion@ == replaced_by(
                component@,
                component_id,
                VariantView::DpQuantile {
                    alpha: Float { bits: crate::float::ONE_BITS },
                    interpolation: "upper"@,
                    mechanism: DpMaximum::chosen_mechanism(
                        lowercase(self.mechanism@),
                        properties@.contains_key("candidates"@),
                    ),
                    privacy_usage: self.privacy_usage@,
                },
            ),
    {
        let mechanism = DpMaximum::choose_mechanism(
            to_lowercase(self.mechanism.as_str()),
            properties.contains_key("candidates"),
        );
        let privacy_usage = self.privacy_usage.clone();
        assert(privacy_usage@ =~= self.privacy_usage@);
        Ok(
            replace_by(
                component,
                component_id,
                Variant::DpQuantile(
                    DpQuantile {
                        alpha: Float::one(),
                        interpolation: "upper".to_owned(),
                        mechanism,
                        privacy_usage,
                    },
                ),
            ),
        )
    }
}

} // verus!
