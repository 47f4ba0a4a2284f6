//! What holds of the library as a whole.

use crate::base::{
    ArrayPropertiesView, DataType, NatureView, ValuePropertiesView, ValueView, Vector1DNullView,
};
use crate::components::bounds::{
    resolved_bound, strictly_below, tightened, widened, Numeric,
};
use crate::components::clamp::{clamped_bounds, pulled_in};
use crate::components::expand::{replaced_by, with_literal_bound, Rewriting};
use crate::components::impute::{imputed_bounds, imputed_side};
use crate::components::{expanded, rewritten};
use crate::errors::{Bound, Error};
use crate::expansion::ComponentExpansionView;
use crate::graph::{is_accepted, is_fresh, rank};
use crate::float::Float;
use crate::proto::{Cast, Clamp, ComponentView, Covariance, Impute, Resize, VariantView};
use vstd::prelude::*;

verus! {

/// Pulling a bound in narrows. In every column, a lower bound that is a
/// number is at most the bound that results, and so is the lower bound of the
/// data where it is a number; an upper bound is at least the bound that
/// results, and so is that of the data. The result is one of the two.
pub proof fn law_tightening_narrows<T: Numeric>(
    which: Bound,
    bound: Seq<T>,
    data: Seq<Option<T>>,
    column: int,
)
    requires
        0 <= column < tightened(which, bound, data).len(),
        !bound[column].undefined(),
    ensures
        ({
            let result = tightened(which, bound, data)[column];
            &&& result == bound[column] || Some(result) == data[column]
            &&& which == Bound::Lower ==> bound[column].at_most(result)
            &&& which == Bound::Upper ==> result.at_most(bound[column])
            &&& (data[column] is Some && !data[column]->0.undefined()) ==> {
                &&& which == Bound::Lower ==> data[column]->0.at_most(result)
                &&& which == Bound::Upper ==> result.at_most(data[column]->0)
            }
        }),
{
    bound[column].lemma_order(bound[column]);
    match data[column] {
        Some(known) => {
            bound[column].lemma_order(known);
        },
        None => {},
    }
}

/// Pushing a bound out widens. In every column of which the data knows a
/// bound, a bound results; where both bounds are numbers, a lower bound that
/// results is at most both, and an upper bound that results is at least both.
/// The result is one of the two.
pub proof fn law_widening_contains<T: Numeric>(
    which: Bound,
    bound: Seq<T>,
    data: Seq<Option<T>>,
    column: int,
)
    requires
        0 <= column < widened(which, bound, data).len(),
        data[column] is Some,
        !bound[column].undefined(),
        !data[column]->0.undefined(),
    ensures
        ({
            let known = data[column]->0;
            &&& widened(which, bound, data)[column] matches Some(result)
            &&& result == bound[column] || result == known
            &&& which == Bound::Lower ==> result.at_most(bound[column]) && result.at_most(known)
            &&& which == Bound::Upper ==> bound[column].at_most(result) && known.at_most(result)
        }),
{
    bound[column].lemma_order(data[column]->0);
}

/// The bounds of a numeric clamp are monotone. Where clamping succeeds, the
/// bounds resolved from the arguments have each lower bound below its upper
/// bound; the bounds left on the data are those bounds pulled in to the
/// bounds that the data had; and of the bounds left on the data, too, each
/// lower bound is below its upper bound.
pub proof fn law_clamp_bounds<T: Numeric>(
    public_arguments: Map<Seq<char>, ValueView>,
    properties: Map<Seq<char>, ValuePropertiesView>,
    data: ArrayPropertiesView,
    num_columns: i64,
)
    requires
        clamped_bounds::<T>(public_arguments, properties, data, num_columns) is Ok,
    ensures
        ({
            let lower = resolved_bound::<T>(
                Bound::Lower,
                public_arguments,
                properties,
                data,
                num_columns,
            )->Ok_0;
            let upper = resolved_bound::<T>(
                Bound::Upper,
                public_arguments,
                properties,
                data,
                num_columns,
            )->Ok_0;
            let left_lower = pulled_in(Bound::Lower, lower, data);
            let left_upper = pulled_in(Bound::Upper, upper, data);
            &&& strictly_below(lower, upper)
            &&& strictly_below(left_lower, left_upper)
            &&& forall|column: int|
                0 <= column < left_lower.len() && column < left_upper.len() ==> (
                #[trigger] left_lower[column]).below(left_upper[column])
            &&& clamped_bounds::<T>(public_arguments, properties, data, num_columns)->Ok_0
                == (NatureView::Continuous {
                lower: T::bounds_view(crate::base::wrapped(left_lower)),
                upper: T::bounds_view(crate::base::wrapped(left_upper)),
            })
        }),
{
}

/// The bounds of imputation and of resizing are monotone. Where either
/// succeeds, the bounds resolved from the arguments have each lower bound
/// below its upper bound, and the bounds left on the data are those bounds
/// pushed out to the bounds that the data had; where the data had none, none
/// is known.
pub proof fn law_impute_bounds<T: Numeric>(
    public_arguments: Map<Seq<char>, ValueView>,
    properties: Map<Seq<char>, ValuePropertiesView>,
    data: ArrayPropertiesView,
    num_columns: i64,
)
    requires
        imputed_bounds::<T>(public_arguments, properties, data, num_columns) is Ok,
    ensures
        ({
            let lower = resolved_bound::<T>(
                Bound::Lower,
                public_arguments,
                properties,
                data,
                num_columns,
            )->Ok_0;
            let upper = resolved_bound::<T>(
                Bound::Upper,
                public_arguments,
                properties,
                data,
                num_columns,
            )->Ok_0;
            &&& strictly_below(lower, upper)
            &&& imputed_bounds::<T>(public_arguments, properties, data, num_columns)->Ok_0
                == (NatureView::Continuous {
                lower: T::bounds_view(
                    match T::bound_option_of(data, Bound::Lower) {
                        Ok(known) => widened(Bound::Lower, lower, known),
                        Err(_) => crate::base::repeated(None::<T>, num_columns as int),
                    },
                ),
                upper: T::bounds_view(
                    match T::bound_option_of(data, Bound::Upper) {
                        Ok(known) => widened(Bound::Upper, upper, known),
                        Err(_) => crate::base::repeated(None::<T>, num_columns as int),
                    },
                ),
            })
        }),
{
}

/// A transformation keeps the data set: what a cast, a clamp, an imputation
/// or a resizing derives carries the id of the data set that its data
/// carries. So two of them applied to data of one data set agree in it.
pub proof fn law_dataset_id_is_kept(
    lowered: Seq<char>,
    public_arguments: Map<Seq<char>, ValueView>,
    properties: Map<Seq<char>, ValuePropertiesView>,
)
    ensures
        Cast::propagated(lowered, public_arguments, properties) matches Ok(
            ValuePropertiesView::Array(derived),
        ) ==> derived.dataset_id == properties["data"@]->Array_0.dataset_id,
        Clamp::propagated(public_arguments, properties) matches Ok(
            ValuePropertiesView::Array(derived),
        ) ==> derived.dataset_id == properties["data"@]->Array_0.dataset_id,
        Impute::propagated(public_arguments, properties) matches Ok(
            ValuePropertiesView::Array(derived),
        ) ==> derived.dataset_id == properties["data"@]->Array_0.dataset_id,
        Resize::propagated(public_arguments, properties) matches Ok(
            ValuePropertiesView::Array(derived),
        ) ==> derived.dataset_id == properties["data"@]->Array_0.dataset_id,
{
}

/// Data sets are not mixed: a covariance between a left and a right argument
/// that carry different data set ids is refused.
pub proof fn law_covariance_needs_one_dataset(
    properties: Map<Seq<char>, ValuePropertiesView>,
    left: ArrayPropertiesView,
    right: ArrayPropertiesView,
)
    requires
        !properties.contains_key("data"@),
        properties.contains_key("left"@),
        properties.contains_key("right"@),
        properties["left"@] == ValuePropertiesView::Array(left),
        properties["right"@] == ValuePropertiesView::Array(right),
        left.dataset_id != right.dataset_id,
    ensures
        Covariance::refused(properties) is Some,
{
}

/// Whether a variant is primitive: it is what the rewriting of another
/// variant puts in its place, and is not rewritten itself.
pub open spec fn is_primitive(variant: VariantView) -> bool {
    variant is Quantile || variant is Cast || variant is DpQuantile || variant is Sum
        || variant is Variance || variant is Covariance || variant is Literal
}

/// Expansion has a fixpoint: to expand a primitive component changes nothing.
pub proof fn law_primitive_stays(
    variant: VariantView,
    component: ComponentView,
    properties: Map<Seq<char>, ValuePropertiesView>,
    component_id: u32,
    maximum_id: u32,
)
    requires
        is_primitive(variant),
        !crate::base::holds_partitioned(properties),
    ensures
        expanded(variant, component, properties, component_id, maximum_id) == Ok::<
            ComponentExpansionView,
            Error,
        >(ComponentExpansionView::empty()),
{
}

/// Expansion reaches its fixpoint in one step: where a variant is replaced by
/// another, the patch holds the component of the new variant under the id of
/// the node, and to expand that component changes nothing.
pub proof fn law_expansion_settles(
    variant: VariantView,
    component: ComponentView,
    properties: Map<Seq<char>, ValuePropertiesView>,
    component_id: u32,
    maximum_id: u32,
)
    requires
        variant is Minimum || variant is Median || variant is Maximum || variant is ToBool
            || variant is ToFloat || variant is ToInt || variant is ToString
            || variant is DpMaximum,
        !crate::base::holds_partitioned(properties),
    ensures
        ({
            let first = expanded(variant, component, properties, component_id, maximum_id);
            &&& first matches Ok(patch)
            &&& patch.computation_graph.contains_key(component_id)
            &&& patch.computation_graph[component_id].variant matches Some(next)
            &&& is_primitive(next)
            &&& expanded(
                next,
                patch.computation_graph[component_id],
                properties,
                component_id,
                maximum_id,
            ) == Ok::<ComponentExpansionView, Error>(ComponentExpansionView::empty())
        }),
{
    let first = rewritten(variant, component, properties, component_id, maximum_id);
    assert(first is Some);
    assert(first->0 is Ok);
    let patch = first->0->Ok_0;
    assert(patch.traversal =~= seq![component_id]);
    assert(patch.is_valid(component_id));
}

/// Expansion of a component that lacks no bound adds no node: where both
/// bounds or categories are among its arguments, the patch of a clamp, an
/// imputation or a resizing holds the component as it is and nothing else.
pub proof fn law_bounded_component_stays(
    variant: VariantView,
    component: ComponentView,
    properties: Map<Seq<char>, ValuePropertiesView>,
    component_id: u32,
    maximum_id: u32,
)
    requires
        variant is Clamp || variant is Impute || variant is Resize,
        !crate::base::holds_partitioned(properties),
        properties.contains_key("data"@),
        properties["data"@] is Array,
        properties.contains_key("categories"@) || (properties.contains_key("lower"@)
            && properties.contains_key("upper"@)),
    ensures
        expanded(variant, component, properties, component_id, maximum_id) == Ok::<
            ComponentExpansionView,
            Error,
        >(
            ComponentExpansionView {
                computation_graph: Map::<u32, ComponentView>::empty().insert(component_id, component),
                ..ComponentExpansionView::empty()
            },
        ),
{
}

/// Every patch of this library leads on. Whatever a component with a variant
/// restates itself as is taken up by the analysis: the patch is fresh, and it
/// adds nodes, keeps the rank of the node without asking for another visit,
/// or lowers the rank of the node.
pub proof fn law_patches_are_accepted(
    component: ComponentView,
    properties: Map<Seq<char>, ValuePropertiesView>,
    component_id: u32,
    maximum_id: u32,
)
    requires
        component.variant is Some,
        component_id <= maximum_id,
        expanded(component.variant->0, component, properties, component_id, maximum_id) is Ok,
    ensures
        is_accepted(
            expanded(component.variant->0, component, properties, component_id, maximum_id)->Ok_0,
            rank(component),
            component_id,
            maximum_id,
        ),
{
    let variant = component.variant->0;
    let patch = expanded(variant, component, properties, component_id, maximum_id)->Ok_0;
    if variant is Index || variant is Union || variant is Mapped {
    } else if crate::base::holds_partitioned(properties) {
        assert(patch.computation_graph.contains_key(component_id));
    } else {
        match variant {
            VariantView::Clamp | VariantView::Impute | VariantView::Resize => {
                let eager = variant is Resize;
                let first = with_literal_bound(
                    Bound::Lower,
                    Rewriting { expansion: ComponentExpansionView::empty(), component, maximum_id },
                    properties,
                )->Ok_0;
                let second = with_literal_bound(Bound::Upper, first, properties)->Ok_0;
                assert(first.component.variant == component.variant);
                assert(second.component.variant == component.variant);
                assert(patch.computation_graph == second.expansion.computation_graph.insert(
                    component_id,
                    second.component,
                ));
                assert(patch.releases == second.expansion.releases);
                assert(patch.traversal.len() == 0);
                assert(maximum_id <= first.maximum_id <= second.maximum_id);
                assert forall|key: u32| #[trigger]
                    first.expansion.computation_graph.contains_key(key) implies key
                    > maximum_id by {}
                assert forall|key: u32| #[trigger]
                    first.expansion.releases.contains_key(key) implies key > maximum_id by {}
                assert forall|key: u32| #[trigger]
                    second.expansion.computation_graph.contains_key(key) implies key
                    > maximum_id by {}
                assert forall|key: u32| #[trigger]
                    second.expansion.releases.contains_key(key) implies key > maximum_id by {}
                assert(is_fresh(patch, component_id, maximum_id));
            },
            _ => {
                if rewritten(variant, component, properties, component_id, maximum_id) is Some {
                    assert(patch.computation_graph.contains_key(component_id));
                }
            },
        }
    }
}

} // verus!
