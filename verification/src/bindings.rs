//! A shorthand for building an analysis node by node.

use crate::base::{ReleaseNode, Value, ValueProperties};
use crate::errors::Error;
use crate::float::{total, Float, Operation};
use crate::graph::{
    extend, get_properties, is_failure, is_valid, lemma_failure, nodes_of, releases_of,
    ComputationGraph, GraphProperties, Release,
};
use crate::proto::{Component, Neighboring, PrivacyDefinition};
use std::collections::BTreeMap;
use vstd::prelude::*;

verus! {

/// An analysis in the making.
#[derive(Debug, PartialEq)]
pub struct Analysis {
    pub privacy_definition: PrivacyDefinition,
    pub components: ComputationGraph,
    /// The number of nodes added so far, which is the id of the next.
    pub component_count: u32,
    pub submission_count: u32,
    pub release: Release,
}

impl Analysis {
    /// An analysis without nodes, under a definition of privacy for groups of
    /// one, with neighbours by adding or removing a record, and with none of
    /// the protections switched on.
    pub fn new() -> (r: Analysis)
        ensures
            r.privacy_definition == (PrivacyDefinition {
                group_size: 1,
                neighboring: 1,
                strict_parameter_checks: false,
                protect_overflow: false,
                protect_elapsed_time: false,
                protect_memory_utilization: false,
                protect_floating_point: false,
            }),
            r.components@ == Map::<u32, Component>::empty(),
            r.release@ == Map::<u32, ReleaseNode>::empty(),
            r.component_count == 0,
            r.submission_count == 0,
    {
        Analysis {
            privacy_definition: PrivacyDefinition {
                group_size: 1,
                neighboring: Neighboring::AddRemove.to_i32(),
                strict_parameter_checks: false,
                protect_overflow: false,
                protect_elapsed_time: false,
                protect_memory_utilization: false,
                protect_floating_point: false,
            },
            components: BTreeMap::new(),
            component_count: 0,
            submission_count: 0,
            release: BTreeMap::new(),
        }
    }

    /// Adds a node, under the id that follows the last, and gives the id; none
    /// where no id is left.
    pub fn add(&mut self, component: Component) -> (r: Option<u32>)
        ensures
            match r {
                Some(id) => {
                    &&& id == old(self).component_count
                    &&& final(self).component_count == id + 1
                    &&& nodes_of(final(self).components) == nodes_of(old(self).components).insert(
                        id,
                        component@,
                    )
                    &&& final(self).release == old(self).release
                },
                None => old(self).component_count == u32::MAX && *final(self) == *old(self),
            },
    {
        if self.component_count == u32::MAX {
            return None;
        }
        let id = self.component_count;
        self.components.insert(id, component);
        self.component_count = id + 1;
        assert(nodes_of(self.components) =~= nodes_of(old(self).components).insert(id, component@));
        Some(id)
    }

    /// Records the value of a node.
    pub fn release_value(&mut self, id: u32, node: ReleaseNode)
        ensures
            final(self).release@ == old(self).release@.insert(id, node),
            final(self).components == old(self).components,
            final(self).component_count == old(self).component_count,
    {
        self.release.insert(id, node);
    }

    /// The properties of the node `id`. They are refused where the analysis is
    /// not valid, and where nothing is derived of the node.
    pub fn properties<A: Fn(Operation) -> Float>(&self, id: u32, arithmetic: &A) -> (r: Result<
        ValueProperties,
        Error,
    >)
        requires
            total(*arithmetic),
        ensures
            match r {
                Ok(derived) => exists|
                    settled: ComputationGraph,
                    released: Release,
                    properties: GraphProperties,
                |
                    {
                        &&& #[trigger] is_valid(
                            *arithmetic,
                            nodes_of(self.components),
                            releases_of(self.release),
                            settled,
                            released,
                            properties,
                        )
                        &&& properties@.contains_key(id)
                        &&& properties@[id]@ == derived@
                    },
                Err(e) => if e == Error::Underived(id) {
                    exists|settled: ComputationGraph, released: Release, properties: GraphProperties|
                        {
                            &&& #[trigger] is_valid(
                                *arithmetic,
                                nodes_of(self.components),
                                releases_of(self.release),
                                settled,
                                released,
                                properties,
                            )
                            &&& !properties@.contains_key(id)
                        }
                } else {
                    is_failure(*arithmetic, nodes_of(self.components), releases_of(self.release), e)
                },
            },
    {
        let mut graph: ComputationGraph = BTreeMap::new();
        extend(&mut graph, &self.components);
        let mut release: Release = BTreeMap::new();
        extend(&mut release, &self.release);
        let mut node_ids: Vec<u32> = Vec::new();
        node_ids.push(id);
        assert(nodes_of(graph) =~= nodes_of(self.components));
        assert(releases_of(release) =~= releases_of(self.release));
        let (properties, warnings) = match get_properties(
            Some(self.privacy_definition),
            graph,
            release,
            node_ids,
            arithmetic,
        ) {
            Ok(derived) => derived,
            Err(e) => {
                proof {
                    lemma_failure(*arithmetic, nodes_of(graph), releases_of(release), e);
                }
                return Err(e);
            },
        };
        if warnings.len() > 0 {
            return Err(Error::Warnings);
        }
        match properties.get(&id) {
            Some(derived) => {
                let own = derived.duplicate();
                proof {
                    let (settled, released, all) = choose|
                        settled: ComputationGraph,
                        released: Release,
                        all: GraphProperties,
                    |
                        {
                            &&& #[trigger] is_valid(
                                *arithmetic,
                                nodes_of(self.components),
                                releases_of(self.release),
                                settled,
                                released,
                                all,
                            )
                            &&& forall|other: u32| #[trigger]
                                properties@.contains_key(other) <==> all@.contains_key(other) && (
                                node_ids@.len() == 0 || node_ids@.contains(other))
                            &&& forall|other: u32| #[trigger]
                                properties@.contains_key(other) ==> properties@[other]@
                                    == all@[other]@
                        };
                    assert(properties@.contains_key(id));
                    assert(is_valid(
                        *arithmetic,
                        nodes_of(self.components),
                        releases_of(self.release),
                        settled,
                        released,
                        all,
                    ) && all@.contains_key(id) && all@[id]@ == own@);
                }
                Ok(own)
            },
            None => {
                proof {
                    let (settled, released, all) = choose|
                        settled: ComputationGraph,
                        released: Release,
                        all: GraphProperties,
                    |
                        {
                            &&& #[trigger] is_valid(
                                *arithmetic,
                                nodes_of(self.components),
                                releases_of(self.release),
                                settled,
                                released,
                                all,
                            )
                            &&& forall|other: u32| #[trigger]
                                properties@.contains_key(other) <==> all@.contains_key(other) && (
                                node_ids@.len() == 0 || node_ids@.contains(other))
                            &&& forall|other: u32| #[trigger]
                                properties@.contains_key(other) ==> properties@[other]@
                                    == all@[other]@
                        };
                    assert(node_ids@[0] == id);
                    assert(node_ids@.contains(id));
                    assert(!properties@.contains_key(id));
                    assert(!all@.contains_key(id));
                }
                Err(Error::Underived(id))
            },
        }
    }
}

} // verus!
