//! The patch by which a composite component is rewritten into primitive ones.

use crate::base::{ReleaseNode, ReleaseNodeView, ValueProperties, ValuePropertiesView};
use crate::errors::Error;
use crate::proto::{Component, ComponentView};
use std::collections::BTreeMap;
use vstd::prelude::*;

verus! {

/// A patch to an analysis: the nodes to add or to replace, the properties and
/// releases of new literal nodes, and the order in which to visit nodes next.
#[derive(Debug, PartialEq)]
pub struct ComponentExpansion {
    /// The nodes to add or to replace, by their ids.
    pub computation_graph: BTreeMap<u32, Component>,
    /// The properties of new nodes that are already known.
    pub properties: BTreeMap<u32, ValueProperties>,
    /// The values of new nodes that are already known.
    pub releases: BTreeMap<u32, ReleaseNode>,
    /// The nodes to visit next; where there are any, the last is the node
    /// that was expanded.
    pub traversal: Vec<u32>,
    pub warnings: Vec<Error>,
}

/// What a [`ComponentExpansion`] holds.
pub ghost struct ComponentExpansionView {
    pub computation_graph: Map<u32, ComponentView>,
    pub properties: Map<u32, ValuePropertiesView>,
    pub releases: Map<u32, ReleaseNodeView>,
    pub traversal: Seq<u32>,
    pub warnings: Seq<Error>,
}

impl View for ComponentExpansion {
    type V = ComponentExpansionView;

    open spec fn view(&self) -> ComponentExpansionView {
        ComponentExpansionView {
            computation_graph: self.computation_graph@.map_values(|c: Component| c@),
            properties: self.properties@.map_values(|p: ValueProperties| p@),
            releases: self.releases@.map_values(|r: ReleaseNode| r@),
            traversal: self.traversal@,
            warnings: self.warnings@,
        }
    }
}

impl ComponentExpansionView {
    /// The patch that changes nothing.
    pub open spec fn empty() -> ComponentExpansionView {
        ComponentExpansionView {
            computation_graph: Map::empty(),
            properties: Map::empty(),
            releases: Map::empty(),
            traversal: Seq::empty(),
            warnings: Seq::empty(),
        }
    }

    /// The traversal is empty or ends in the expanded node.
    pub open spec fn is_valid(self, component_id: u32) -> bool {
        self.traversal.len() == 0 || self.traversal.last() == component_id
    }
}

impl ComponentExpansion {
    /// The patch that changes nothing.
    pub fn new() -> (r: ComponentExpansion)
        ensures
            r@ == ComponentExpansionView::empty(),
    {
        let r = ComponentExpansion {
            computation_graph: BTreeMap::new(),
            properties: BTreeMap::new(),
            releases: BTreeMap::new(),
            traversal: Vec::new(),
            warnings: Vec::new(),
        };
        assert(r@.computation_graph =~= Map::empty());
        assert(r@.properties =~= Map::empty());
        assert(r@.releases =~= Map::empty());
        r
    }

    /// Adds or replaces a node.
    pub fn insert_component(&mut self, id: u32, component: Component)
        ensures
            final(self)@ == (ComponentExpansionView {
                computation_graph: old(self)@.computation_graph.insert(id, component@),
                ..old(self)@
            }),
    {
        self.computation_graph.insert(id, component);
        assert(self@.computation_graph =~= old(self)@.computation_graph.insert(id, component@));
    }

    /// Adds a literal node with its properties and its value.
    pub fn insert_literal(
        &mut self,
        id: u32,
        component: Component,
        properties: ValueProperties,
        release: ReleaseNode,
    )
        ensures
            final(self)@ == (ComponentExpansionView {
                computation_graph: old(self)@.computation_graph.insert(id, component@),
                properties: old(self)@.properties.insert(id, properties@),
                releases: old(self)@.releases.insert(id, release@),
                ..old(self)@
            }),
    {
        self.computation_graph.insert(id, component);
        self.properties.insert(id, properties);
        self.releases.insert(id, release);
        assert(self@.computation_graph =~= old(self)@.computation_graph.insert(id, component@));
        assert(self@.properties =~= old(self)@.properties.insert(id, properties@));
        assert(self@.releases =~= old(self)@.releases.insert(id, release@));
    }

    /// Asks for a node to be visited after those asked for before.
    pub fn visit(&mut self, id: u32)
        ensures
            final(self)@ == (ComponentExpansionView {
                traversal: old(self)@.traversal.push(id),
                ..old(self)@
            }),
    {
        self.traversal.push(id);
    }

    /// Refuses a patch whose traversal does not end in the expanded node.
    pub fn is_valid(&self, component_id: u32) -> (r: Result<(), Error>)
        ensures
            r == (if self@.is_valid(component_id) {
                Ok::<(), Error>(())
            } else {
                Err::<(), Error>(Error::Traversal)
            }),
    {
        if self.traversal.len() == 0 || self.traversal[self.traversal.len() - 1] == component_id {
            Ok(())
        } else {
            Err(Error::Traversal)
        }
    }
}

} // verus!
