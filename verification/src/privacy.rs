//! What an analysis spends of privacy, and the conversions between the
//! privacy a component spends and the accuracy it has.

use crate::base::NodeProperties;
use crate::components::{Accuracy as _, Mechanism};
use crate::errors::{Capability, Error};
use crate::float::{computes, total, Float, Operation};
use crate::graph::{
    get_input_properties, is_failure, is_valid, is_verdict, keys_of, nodes_of,
    propagate_properties, releases_of, ComputationGraph, GraphProperties, Release, State,
};
use crate::proto::{Accuracies, Accuracy, Component, PrivacyDefinition, PrivacyUsage};
use vstd::prelude::*;

verus! {

/// `sums` holds, for each usage, the sum of the usages up to it, each the one
/// before with the usage added.
pub open spec fn are_running_sums<A: Fn(Operation) -> Float>(
    arithmetic: A,
    usages: Seq<PrivacyUsage>,
    sums: Seq<PrivacyUsage>,
) -> bool {
    &&& sums.len() == usages.len()
    &&& usages.len() > 0 ==> sums[0] == usages[0]
    &&& forall|i: int|
        #![trigger sums[i]]
        1 <= i < usages.len() ==> computes(
            arithmetic,
            Operation::Add(sums[i - 1].epsilon, usages[i].epsilon),
            sums[i].epsilon,
        ) && computes(arithmetic, Operation::Add(sums[i - 1].delta, usages[i].delta), sums[i].delta)
}

/// `sum` is the usages added up, one after the other. Nothing is the sum of no
/// usage.
pub open spec fn is_sum<A: Fn(Operation) -> Float>(
    arithmetic: A,
    usages: Seq<PrivacyUsage>,
    sum: PrivacyUsage,
) -> bool {
    exists|sums: Seq<PrivacyUsage>|
        {
            &&& #[trigger] are_running_sums(arithmetic, usages, sums)
            &&& usages.len() > 0
            &&& sum == sums.last()
        }
}

/// The usages added up; none where there is no usage.
pub fn sum_privacy_usage<A: Fn(Operation) -> Float>(usages: &Vec<PrivacyUsage>, arithmetic: &A) -> (r:
    Option<PrivacyUsage>)
    requires
        total(*arithmetic),
    ensures
        match r {
            Some(sum) => is_sum(*arithmetic, usages@, sum),
            None => usages@.len() == 0,
        },
{
    if usages.len() == 0 {
        return None;
    }
    let mut sum = usages[0];
    let ghost mut sums: Seq<PrivacyUsage> = seq![sum];
    let mut i: usize = 1;
    while i < usages.len()
        invariant
            total(*arithmetic),
            1 <= i <= usages@.len(),
            are_running_sums(*arithmetic, usages@.take(i as int), sums),
            sum == sums.last(),
        decreases usages@.len() - i,
    {
        let next = usages[i];
        let epsilon = arithmetic(Operation::Add(sum.epsilon, next.epsilon));
        let delta = arithmetic(Operation::Add(sum.delta, next.delta));
        sum = PrivacyUsage { epsilon, delta };
        proof {
            sums = sums.push(sum);
        }
        i += 1;
    }
    assert(usages@.take(i as int) =~= usages@);
    Some(sum)
}

/// What an analysis spends of privacy: the sum of what its nodes spend, once
/// properties are derived of every node. An analysis that is not valid is
/// refused. No variant of this library spends privacy, so a valid analysis is
/// refused as one that releases nothing.
pub fn compute_privacy_usage<A: Fn(Operation) -> Float>(
    privacy_definition: PrivacyDefinition,
    computation_graph: ComputationGraph,
    release: Release,
    arithmetic: &A,
) -> (r: Result<PrivacyUsage, Error>)
    requires
        total(*arithmetic),
    ensures
        match r {
            Ok(_) => false,
            Err(e) => if e == Error::NothingReleased {
                exists|settled: ComputationGraph, released: Release, properties: GraphProperties| #[trigger]
                    is_valid(
                        *arithmetic,
                        nodes_of(computation_graph),
                        releases_of(release),
                        settled,
                        released,
                        properties,
                    )
            } else {
                is_failure(*arithmetic, nodes_of(computation_graph), releases_of(release), e)
            },
        },
{
    let mut graph = computation_graph;
    let mut known = release;
    let definition = Some(privacy_definition);
    let properties = match propagate_properties(&definition, &mut graph, &mut known, arithmetic) {
        Ok((properties, _)) => properties,
        Err(e) => {
            proof {
                let last = choose|last: State| #[trigger]
                    is_verdict(
                        *arithmetic,
                        nodes_of(computation_graph),
                        releases_of(release),
                        last,
                        Err::<(), Error>(e),
                    );
                assert(e != Error::NothingReleased);
            }
            return Err(e);
        },
    };
    assert(is_valid(
        *arithmetic,
        nodes_of(computation_graph),
        releases_of(release),
        graph,
        known,
        properties,
    ));
    let ids = keys_of(&graph);
    let mut usages: Vec<PrivacyUsage> = Vec::new();
    let mut i: usize = 0;
    while i < ids.len()
        invariant
            i <= ids@.len(),
            usages@.len() == 0,
        decreases ids@.len() - i,
    {
        let id = ids[i];
        if let Some(component) = graph.get(&id) {
            let inputs: NodeProperties = get_input_properties(component, &properties);
            let recorded = match known.get(&id) {
                Some(node) => node.privacy_usages.as_ref(),
                None => None,
            };
            if let Ok(Some(spent)) = component.get_privacy_usage(&privacy_definition, recorded, &inputs) {
                let mut spent = spent;
                usages.append(&mut spent);
            }
        }
        i += 1;
    }
    match sum_privacy_usage(&usages, arithmetic) {
        Some(sum) => Ok(sum),
        None => Err(Error::NothingReleased),
    }
}

/// The privacy that a component spends to have the accuracies asked for, one
/// usage for each column. A component that offers no such conversion is
/// refused, as is one without a variant.
pub fn accuracy_to_privacy_usage(
    component: &Component,
    privacy_definition: &PrivacyDefinition,
    properties: &NodeProperties,
    accuracies: &Accuracies,
) -> (r: Result<Vec<PrivacyUsage>, Error>)
    ensures
        r matches Err(e) && e == (match component@.variant {
            Some(variant) => Error::CapabilityMissing(Capability::Accuracy, variant.kind()),
            None => Error::VariantUndefined,
        }),
{
    match component.accuracy_to_privacy_usage(privacy_definition, properties, accuracies) {
        Ok(Some(usages)) => Ok(usages),
        Ok(None) => match &component.variant {
            Some(variant) => Err(Error::CapabilityMissing(Capability::Accuracy, variant.kind())),
            None => Err(Error::VariantUndefined),
        },
        Err(e) => Err(e),
    }
}

/// The accuracy that a component has for the privacy it spends, one for each
/// column, at the share `alpha` of cases left out. A component that offers no
/// such conversion is refused, as is one without a variant.
pub fn privacy_usage_to_accuracy(
    component: &Component,
    privacy_definition: &PrivacyDefinition,
    properties: &NodeProperties,
    alpha: Float,
) -> (r: Result<Vec<Accuracy>, Error>)
    ensures
        r matches Err(e) && e == (match component@.variant {
            Some(variant) => Error::CapabilityMissing(Capability::Accuracy, variant.kind()),
            None => Error::VariantUndefined,
        }),
{
    match component.privacy_usage_to_accuracy(privacy_definition, properties, alpha) {
        Ok(Some(accuracies)) => Ok(accuracies),
        Ok(None) => match &component.variant {
            Some(variant) => Err(Error::CapabilityMissing(Capability::Accuracy, variant.kind())),
            None => Err(Error::VariantUndefined),
        },
        Err(e) => Err(e),
    }
}

} // verus!
