//! The analysis as a graph: the nodes, what is released of them, and the
//! derivation of the properties of every node from those of its arguments.

use crate::base::{
    Arguments, NodeProperties, ReleaseNode, ReleaseNodeView, Value, ValueProperties,
    ValuePropertiesView, ValueView,
};
use crate::components::{derives, expanded, propagation_refused, Component as _, Expandable};
use crate::errors::Error;
use crate::expansion::{ComponentExpansion, ComponentExpansionView};
use crate::float::{total, Float, Operation};
use crate::inference::{infer_property, inferred};
use crate::proto::{Component, ComponentView, PrivacyDefinition, Variant, VariantView};
use std::collections::BTreeMap;
use vstd::prelude::*;

verus! {

/// The nodes of an analysis, by their ids.
pub type ComputationGraph = BTreeMap<u32, Component>;

/// What is released of the nodes of an analysis, by their ids.
pub type Release = BTreeMap<u32, ReleaseNode>;

/// The properties derived of the nodes of an analysis, by their ids.
pub type GraphProperties = BTreeMap<u32, ValueProperties>;

/// What the nodes hold.
pub open spec fn nodes_of(graph: ComputationGraph) -> Map<u32, ComponentView> {
    graph@.map_values(|component: Component| component@)
}

/// What the releases hold.
pub open spec fn releases_of(release: Release) -> Map<u32, ReleaseNodeView> {
    release@.map_values(|node: ReleaseNode| node@)
}

/// What the properties hold.
pub open spec fn properties_of(properties: GraphProperties) -> Map<u32, ValuePropertiesView> {
    properties@.map_values(|derived: ValueProperties| derived@)
}

/// The ids under which a map holds something, each once.
pub fn keys_of<T>(map: &BTreeMap<u32, T>) -> (r: Vec<u32>)
    ensures
        r@.no_duplicates(),
        forall|id: u32| map@.contains_key(id) <==> r@.contains(id),
{
    let mut out: Vec<u32> = Vec::new();
    let keys = map.keys();
    proof {
        vstd::std_specs::btree::axiom_spec_keys_iter(map);
    }
    let ghost all = vstd::std_specs::iter::IteratorSpec::remaining(&keys);
    for key in iter: keys
        invariant
            iter.seq() == all,
            out@ == iter.seq().take(iter.index() as int).unref(),
    {
        out.push(*key);
    }
    proof {
        assert(out@ =~= all.unref());
        assert forall|id: u32| map@.contains_key(id) <==> out@.contains(id) by {
            assert(map@.dom().contains(id) == out@.to_set().contains(id));
        }
    }
    out
}

/// The properties of the arguments of a node, by the arguments' names: those
/// of the arguments of which properties are derived.
pub open spec fn input_properties(
    component: ComponentView,
    properties: Map<u32, ValuePropertiesView>,
) -> Map<Seq<char>, ValuePropertiesView> {
    Map::new(
        |name: Seq<char>|
            component.arguments.contains_key(name) && properties.contains_key(
                component.arguments[name],
            ),
        |name: Seq<char>| properties[component.arguments[name]],
    )
}

/// The public arguments of a node, by their names: the values of the
/// arguments of which a public value is released.
pub open spec fn public_arguments(
    component: ComponentView,
    release: Map<u32, ReleaseNodeView>,
) -> Map<Seq<char>, ValueView> {
    Map::new(
        |name: Seq<char>|
            component.arguments.contains_key(name) && release.contains_key(
                component.arguments[name],
            ) && release[component.arguments[name]].public,
        |name: Seq<char>| release[component.arguments[name]].value,
    )
}

/// Whether properties are derived of every argument of a node.
pub open spec fn is_ready(component: ComponentView, properties: Map<u32, ValuePropertiesView>) -> bool {
    forall|name: Seq<char>| #[trigger]
        component.arguments.contains_key(name) ==> properties.contains_key(
            component.arguments[name],
        )
}

/// The properties of the arguments of a node.
pub fn get_input_properties(component: &Component, properties: &GraphProperties) -> (r:
    NodeProperties)
    ensures
        r@ == input_properties(component@, properties_of(*properties)),
{
    let ghost expected = input_properties(component@, properties_of(*properties));
    let names = component.arguments.names();
    let mut out: NodeProperties = Arguments::new();
    let mut i: usize = 0;
    while i < names.len()
        invariant
            expected == input_properties(component@, properties_of(*properties)),
            forall|k: int| 0 <= k < names@.len() ==> component.arguments.contains((#[trigger] names@[k])@),
            i <= names.len(),
            forall|name: Seq<char>|
                #![trigger out.contains(name)]
                out.contains(name) ==> expected.contains_key(name) && out.value(name)@
                    == expected[name],
            forall|k: int|
                0 <= k < i && expected.contains_key((#[trigger] names@[k])@) ==> out.contains(
                    names@[k]@,
                ),
        decreases names.len() - i,
    {
        let name = names[i].as_str();
        if let Some(id) = component.arguments.get(name) {
            if let Some(derived) = properties.get(id) {
                out.insert(name, derived.duplicate());
            }
        }
        i += 1;
    }
    proof {
        assert forall|name: Seq<char>| expected.contains_key(name) implies out.contains(name) by {
            assert(component.arguments.contains(name));
            let k = choose|k: int| 0 <= k < names@.len() && (#[trigger] names@[k])@ == name;
            assert(out.contains(names@[k]@));
        }
        assert(out@ =~= expected);
    }
    out
}

/// The public arguments of a node.
pub fn get_public_arguments(component: &Component, release: &Release) -> (r: Arguments<Value>)
    ensures
        r@ == public_arguments(component@, releases_of(*release)),
{
    let ghost expected = public_arguments(component@, releases_of(*release));
    let names = component.arguments.names();
    let mut out: Arguments<Value> = Arguments::new();
    let mut i: usize = 0;
    while i < names.len()
        invariant
            expected == public_arguments(component@, releases_of(*release)),
            forall|k: int| 0 <= k < names@.len() ==> component.arguments.contains((#[trigger] names@[k])@),
            i <= names.len(),
            forall|name: Seq<char>|
                #![trigger out.contains(name)]
                out.contains(name) ==> expected.contains_key(name) && out.value(name)@
                    == expected[name],
            forall|k: int|
                0 <= k < i && expected.contains_key((#[trigger] names@[k])@) ==> out.contains(
                    names@[k]@,
                ),
        decreases names.len() - i,
    {
        let name = names[i].as_str();
        if let Some(id) = component.arguments.get(name) {
            if let Some(node) = release.get(id) {
                if node.public {
                    out.insert(name, node.value.duplicate());
                }
            }
        }
        i += 1;
    }
    proof {
        assert forall|name: Seq<char>| expected.contains_key(name) implies out.contains(name) by {
            assert(component.arguments.contains(name));
            let k = choose|k: int| 0 <= k < names@.len() && (#[trigger] names@[k])@ == name;
            assert(out.contains(names@[k]@));
        }
        assert(out@ =~= expected);
    }
    out
}

/// Whether properties are derived of every argument of a node.
pub fn all_arguments_derived(component: &Component, properties: &GraphProperties) -> (r: bool)
    ensures
        r == is_ready(component@, properties_of(*properties)),
{
    let names = component.arguments.names();
    let mut i: usize = 0;
    while i < names.len()
        invariant
            forall|k: int| 0 <= k < names@.len() ==> component.arguments.contains((#[trigger] names@[k])@),
            i <= names.len(),
            forall|k: int|
                0 <= k < i ==> properties_of(*properties).contains_key(
                    component@.arguments[(#[trigger] names@[k])@],
                ),
        decreases names.len() - i,
    {
        let name = names[i].as_str();
        match component.arguments.get(name) {
            Some(id) => {
                if properties.get(id).is_none() {
                    assert(component@.arguments.contains_key(name@));
                    return false;
                }
            },
            None => {},
        }
        i += 1;
    }
    proof {
        assert forall|name: Seq<char>| #[trigger]
            component@.arguments.contains_key(name) implies properties_of(*properties).contains_key(
            component@.arguments[name],
        ) by {
            assert(component.arguments.contains(name));
            let k = choose|k: int| 0 <= k < names@.len() && (#[trigger] names@[k])@ == name;
            assert(properties_of(*properties).contains_key(component@.arguments[names@[k]@]));
        }
    }
    true
}

/// Why the properties of a node stand: they are what its released value
/// shows, or what its component derives from the properties of its arguments,
/// all of which are derived.
pub open spec fn is_justified<A: Fn(Operation) -> Float>(
    arithmetic: A,
    graph: Map<u32, ComponentView>,
    release: Map<u32, ReleaseNodeView>,
    properties: Map<u32, ValuePropertiesView>,
    id: u32,
) -> bool {
    ||| release.contains_key(id) && properties[id] == inferred(release[id].value, None)
    ||| {
        &&& graph.contains_key(id)
        &&& graph[id].variant is Some
        &&& is_ready(graph[id], properties)
        &&& derives(
            arithmetic,
            graph[id].variant->0,
            public_arguments(graph[id], release),
            input_properties(graph[id], properties),
            id,
            properties[id],
        )
    }
}

/// The properties derived of an analysis are sound: each of them is
/// justified.
pub open spec fn is_sound<A: Fn(Operation) -> Float>(
    arithmetic: A,
    graph: Map<u32, ComponentView>,
    release: Map<u32, ReleaseNodeView>,
    properties: Map<u32, ValuePropertiesView>,
) -> bool {
    forall|id: u32| #[trigger]
        properties.contains_key(id) ==> is_justified(arithmetic, graph, release, properties, id)
}

/// No id in use is beyond `maximum_id`.
pub open spec fn ids_within(
    graph: Map<u32, ComponentView>,
    release: Map<u32, ReleaseNodeView>,
    properties: Map<u32, ValuePropertiesView>,
    maximum_id: u32,
) -> bool {
    &&& forall|id: u32| #[trigger] graph.contains_key(id) ==> id <= maximum_id
    &&& forall|id: u32| #[trigger] release.contains_key(id) ==> id <= maximum_id
    &&& forall|id: u32| #[trigger] properties.contains_key(id) ==> id <= maximum_id
}

/// One state of an analysis grows into another: but for the node visited,
/// which has no properties yet, every node, release and property stays as it
/// is, and what is new of releases and properties has a new id or that of the
/// node visited.
pub open spec fn grows_into(
    graph: Map<u32, ComponentView>,
    release: Map<u32, ReleaseNodeView>,
    properties: Map<u32, ValuePropertiesView>,
    next_graph: Map<u32, ComponentView>,
    next_release: Map<u32, ReleaseNodeView>,
    next_properties: Map<u32, ValuePropertiesView>,
    maximum_id: u32,
    visited: u32,
) -> bool {
    &&& !properties.contains_key(visited)
    &&& forall|id: u32|
        #![trigger graph.contains_key(id)]
        graph.contains_key(id) ==> next_graph.contains_key(id) && (id != visited ==> next_graph[id]
            == graph[id])
    &&& forall|id: u32|
        #![trigger release.contains_key(id)]
        release.contains_key(id) ==> next_release.contains_key(id) && next_release[id] == release[id]
    &&& forall|id: u32|
        #![trigger next_release.contains_key(id)]
        next_release.contains_key(id) && !release.contains_key(id) ==> id > maximum_id
    &&& forall|id: u32|
        #![trigger properties.contains_key(id)]
        properties.contains_key(id) ==> next_properties.contains_key(id) && next_properties[id]
            == properties[id]
    &&& forall|id: u32|
        #![trigger next_properties.contains_key(id)]
        next_properties.contains_key(id) && !properties.contains_key(id) ==> id > maximum_id || id
            == visited
}

/// What is justified stays justified as an analysis grows.
pub proof fn lemma_justified_stays<A: Fn(Operation) -> Float>(
    arithmetic: A,
    graph: Map<u32, ComponentView>,
    release: Map<u32, ReleaseNodeView>,
    properties: Map<u32, ValuePropertiesView>,
    next_graph: Map<u32, ComponentView>,
    next_release: Map<u32, ReleaseNodeView>,
    next_properties: Map<u32, ValuePropertiesView>,
    maximum_id: u32,
    visited: u32,
)
    requires
        is_sound(arithmetic, graph, release, properties),
        ids_within(graph, release, properties, maximum_id),
        grows_into(
            graph,
            release,
            properties,
            next_graph,
            next_release,
            next_properties,
            maximum_id,
            visited,
        ),
    ensures
        forall|id: u32| #[trigger]
            properties.contains_key(id) ==> is_justified(
                arithmetic,
                next_graph,
                next_release,
                next_properties,
                id,
            ),
{
    assert forall|id: u32| #[trigger] properties.contains_key(id) implies is_justified(
        arithmetic,
        next_graph,
        next_release,
        next_properties,
        id,
    ) by {
        assert(is_justified(arithmetic, graph, release, properties, id));
        assert(next_properties.contains_key(id) && next_properties[id] == properties[id]);
        if release.contains_key(id) && properties[id] == inferred(release[id].value, None) {
            assert(next_release.contains_key(id) && next_release[id] == release[id]);
        } else {
            let component = graph[id];
            assert(graph.contains_key(id));
            assert(id != visited);
            assert(next_graph[id] == component);
            assert forall|name: Seq<char>| #[trigger]
                component.arguments.contains_key(name) implies next_properties.contains_key(
                component.arguments[name],
            ) by {
                assert(properties.contains_key(component.arguments[name]));
            }
            assert(input_properties(component, next_properties) =~= input_properties(
                component,
                properties,
            )) by {
                assert forall|name: Seq<char>|
                    component.arguments.contains_key(name) implies properties.contains_key(
                    component.arguments[name],
                ) && next_properties[component.arguments[name]]
                    == properties[component.arguments[name]] by {
                    assert(properties.contains_key(component.arguments[name]));
                }
            }
            assert(public_arguments(component, next_release) =~= public_arguments(
                component,
                release,
            )) by {
                assert forall|name: Seq<char>|
                    component.arguments.contains_key(name) implies (next_release.contains_key(
                    component.arguments[name],
                ) <==> release.contains_key(component.arguments[name])) by {
                    let argument = component.arguments[name];
                    assert(properties.contains_key(argument));
                    if next_release.contains_key(argument) && !release.contains_key(argument) {
                        assert(argument > maximum_id);
                    }
                    if release.contains_key(argument) {
                        assert(next_release.contains_key(argument));
                    }
                }
                assert forall|name: Seq<char>|
                    component.arguments.contains_key(name) && release.contains_key(
                        component.arguments[name],
                    ) implies next_release[component.arguments[name]]
                    == release[component.arguments[name]] by {
                    assert(release.contains_key(component.arguments[name]));
                }
            }
        }
    }
}

/// The largest of `start` and the ids under which a map holds something.
pub fn largest_id<T>(map: &BTreeMap<u32, T>, start: u32) -> (r: u32)
    ensures
        start <= r,
        forall|id: u32| #[trigger] map@.contains_key(id) ==> id <= r,
        r == start || map@.contains_key(r),
{
    let keys = keys_of(map);
    let mut best: u32 = start;
    let mut i: usize = 0;
    while i < keys.len()
        invariant
            i <= keys.len(),
            start <= best,
            forall|j: int| 0 <= j < i ==> keys@[j] <= best,
            best == start || keys@.contains(best),
        decreases keys.len() - i,
    {
        if keys[i] > best {
            best = keys[i];
            assert(keys@.contains(keys@[i as int]));
        }
        i += 1;
    }
    proof {
        assert forall|id: u32| #[trigger] map@.contains_key(id) implies id <= best by {
            assert(keys@.contains(id));
        }
    }
    best
}

/// The properties that the released values show, for every node of which a
/// value is released.
pub fn infer_released(release: &Release) -> (r: GraphProperties)
    ensures
        forall|id: u32| #[trigger] r@.contains_key(id) <==> release@.contains_key(id),
        forall|id: u32| #[trigger]
            r@.contains_key(id) ==> r@[id]@ == inferred(release@[id]@.value, None),
{
    let keys = keys_of(release);
    let mut out: GraphProperties = BTreeMap::new();
    let mut i: usize = 0;
    while i < keys.len()
        invariant
            i <= keys.len(),
            forall|id: u32| keys@.contains(id) <==> release@.contains_key(id),
            forall|id: u32| #[trigger] out@.contains_key(id) <==> keys@.take(i as int).contains(id),
            forall|id: u32| #[trigger]
                out@.contains_key(id) ==> release@.contains_key(id) && out@[id]@ == inferred(
                    release@[id]@.value,
                    None,
                ),
        decreases keys.len() - i,
    {
        let id = keys[i];
        assert(keys@.contains(id));
        let ghost before = out@;
        match release.get(&id) {
            Some(node) => {
                match infer_property(&node.value, None) {
                    Ok(derived) => {
                        out.insert(id, derived);
                    },
                    Err(_) => {},
                }
            },
            None => {},
        }
        proof {
            let next = keys@.take(i + 1);
            assert(next.drop_last() =~= keys@.take(i as int));
            assert(next.last() == id);
            assert forall|other: u32| #[trigger] out@.contains_key(other) <==> next.contains(
                other,
            ) by {
                if next.contains(other) {
                    let j = choose|j: int| 0 <= j < next.len() && next[j] == other;
                    if j < i {
                        assert(keys@.take(i as int)[j] == other);
                    }
                }
                if keys@.take(i as int).contains(other) {
                    let j = choose|j: int|
                        0 <= j < keys@.take(i as int).len() && keys@.take(i as int)[j] == other;
                    assert(next[j] == other);
                }
                if other == id {
                    assert(next[i as int] == other);
                }
            }
        }
        i += 1;
    }
    proof {
        assert(keys@.take(i as int) =~= keys@);
    }
    out
}

/// Whether a patch touches only the node expanded and new nodes, and
/// releases only values of new nodes.
pub open spec fn is_fresh(patch: ComponentExpansionView, id: u32, maximum_id: u32) -> bool {
    &&& forall|key: u32| #[trigger]
        patch.computation_graph.contains_key(key) ==> key == id || key > maximum_id
    &&& forall|key: u32| #[trigger] patch.releases.contains_key(key) ==> key > maximum_id
}

fn check_fresh(patch: &ComponentExpansion, id: u32, maximum_id: u32) -> (r: bool)
    ensures
        r == is_fresh(patch@, id, maximum_id),
{
    let keys = keys_of(&patch.computation_graph);
    let mut i: usize = 0;
    while i < keys.len()
        invariant
            i <= keys.len(),
            forall|key: u32| keys@.contains(key) <==> patch.computation_graph@.contains_key(key),
            forall|j: int| 0 <= j < i ==> keys@[j] == id || keys@[j] > maximum_id,
        decreases keys.len() - i,
    {
        if keys[i] != id && keys[i] <= maximum_id {
            assert(keys@.contains(keys@[i as int]));
            assert(patch@.computation_graph.contains_key(keys@[i as int]));
            return false;
        }
        i += 1;
    }
    let released = keys_of(&patch.releases);
    let mut i: usize = 0;
    while i < released.len()
        invariant
            i <= released.len(),
            forall|key: u32| released@.contains(key) <==> patch.releases@.contains_key(key),
            forall|j: int| 0 <= j < i ==> released@[j] > maximum_id,
        decreases released.len() - i,
    {
        if released[i] <= maximum_id {
            assert(released@.contains(released@[i as int]));
            assert(patch@.releases.contains_key(released@[i as int]));
            return false;
        }
        i += 1;
    }
    proof {
        assert forall|key: u32| #[trigger] patch@.computation_graph.contains_key(key) implies key
            == id || key > maximum_id by {
            assert(keys@.contains(key));
        }
        assert forall|key: u32| #[trigger] patch@.releases.contains_key(key) implies key
            > maximum_id by {
            assert(released@.contains(key));
        }
    }
    true
}

/// How many times a component can still be restated in a simpler form: a
/// composite operation once as the operation it stands for and once more as
/// that operation mapped over partitions, any other operation once, and a
/// selection, a union and a mapped component not at all.
pub open spec fn rank(component: ComponentView) -> nat {
    match component.variant {
        None => 0,
        Some(VariantView::Index) | Some(VariantView::Union { .. }) | Some(VariantView::Mapped(_)) => 0,
        Some(VariantView::Maximum)
        | Some(VariantView::Median)
        | Some(VariantView::Minimum)
        | Some(VariantView::ToBool)
        | Some(VariantView::ToFloat)
        | Some(VariantView::ToInt)
        | Some(VariantView::ToString)
        | Some(VariantView::DpMaximum { .. }) => 2,
        Some(_) => 1,
    }
}

/// The rank of a component.
pub fn rank_of(component: &Component) -> (r: u8)
    ensures
        r == rank(component@),
{
    match &component.variant {
        None => 0,
        Some(Variant::Index(_)) | Some(Variant::Union(_)) | Some(Variant::Mapped(_)) => 0,
        Some(Variant::Maximum(_))
        | Some(Variant::Median(_))
        | Some(Variant::Minimum(_))
        | Some(Variant::ToBool(_))
        | Some(Variant::ToFloat(_))
        | Some(Variant::ToInt(_))
        | Some(Variant::ToString(_))
        | Some(Variant::DpMaximum(_)) => 2,
        Some(_) => 1,
    }
}

/// Whether a patch holds a node or a release under an id beyond `maximum_id`.
pub open spec fn adds_nodes(patch: ComponentExpansionView, maximum_id: u32) -> bool {
    ||| exists|key: u32| key > maximum_id && #[trigger] patch.computation_graph.contains_key(key)
    ||| exists|key: u32| key > maximum_id && #[trigger] patch.releases.contains_key(key)
}

/// Whether a patch is taken up. It must be fresh, and it must lead on: it
/// adds nodes; or it asks for no other visit and leaves the node as it is or
/// puts a component of no higher rank in its place; or it asks for another
/// visit and puts a component of lower rank in the place of the node.
pub open spec fn is_accepted(
    patch: ComponentExpansionView,
    rank_before: nat,
    id: u32,
    maximum_id: u32,
) -> bool {
    &&& is_fresh(patch, id, maximum_id)
    &&& {
        ||| adds_nodes(patch, maximum_id)
        ||| patch.traversal.len() == 0 && (!patch.computation_graph.contains_key(id) || rank(
            patch.computation_graph[id],
        ) <= rank_before)
        ||| lowers_rank(patch, rank_before, id)
    }
}

/// Whether a patch puts a component of lower rank in the place of the node.
pub open spec fn lowers_rank(patch: ComponentExpansionView, rank_before: nat, id: u32) -> bool {
    patch.computation_graph.contains_key(id) && rank(patch.computation_graph[id]) < rank_before
}

/// Whether the patch is taken up, and with it the largest id in use after it
/// and whether the patch by itself leads on: by adding nodes, or by a
/// component of lower rank.
fn accept(patch: &ComponentExpansion, rank_before: u8, id: u32, maximum_id: u32) -> (r: Option<
    (u32, bool),
>)
    ensures
        match r {
            Some((top, strict)) => {
                &&& is_accepted(patch@, rank_before as nat, id, maximum_id)
                &&& maximum_id <= top
                &&& forall|key: u32| #[trigger]
                    patch@.computation_graph.contains_key(key) ==> key <= top
                &&& forall|key: u32| #[trigger] patch@.releases.contains_key(key) ==> key <= top
                &&& is_top(patch@, maximum_id, top)
                &&& (top > maximum_id) == adds_nodes(patch@, maximum_id)
                &&& strict == (top > maximum_id || lowers_rank(patch@, rank_before as nat, id))
                &&& patch@.traversal.len() > 0 ==> strict
            },
            None => !is_accepted(patch@, rank_before as nat, id, maximum_id),
        },
{
    let revisit = patch.traversal.len() > 0;
    let reach = largest_id(&patch.computation_graph, maximum_id);
    let top = largest_id(&patch.releases, reach);
    let adds = top > maximum_id;
    let lowers = match patch.computation_graph.get(&id) {
        Some(next) => rank_of(next) < rank_before,
        None => false,
    };
    let keeps = match patch.computation_graph.get(&id) {
        Some(next) => rank_of(next) <= rank_before,
        None => true,
    };
    let fresh = check_fresh(patch, id, maximum_id);
    proof {
        if adds {
            if reach > maximum_id {
                assert(patch@.computation_graph.contains_key(reach));
            } else {
                assert(patch@.releases.contains_key(top));
            }
            assert(adds_nodes(patch@, maximum_id));
        } else {
            assert(!adds_nodes(patch@, maximum_id));
        }
        assert forall|key: u32| #[trigger] patch@.computation_graph.contains_key(key) implies key
            <= top by {
            assert(key <= reach);
        }
    }
    if fresh && (adds || lowers || (!revisit && keeps)) {
        Some((top, adds || lowers))
    } else {
        None
    }
}

/// The nodes after a patch: those of the patch, and the others as they were.
pub open spec fn patched_nodes(
    graph: Map<u32, ComponentView>,
    patch: ComponentExpansionView,
) -> Map<u32, ComponentView> {
    graph.union_prefer_right(patch.computation_graph)
}

/// The releases after a patch: those of the patch, and the others as they
/// were.
pub open spec fn patched_releases(
    release: Map<u32, ReleaseNodeView>,
    patch: ComponentExpansionView,
) -> Map<u32, ReleaseNodeView> {
    release.union_prefer_right(patch.releases)
}

/// The properties after a patch: what the releases of the patch show, and the
/// others as they were.
pub open spec fn patched_properties(
    properties: Map<u32, ValuePropertiesView>,
    patch: ComponentExpansionView,
) -> Map<u32, ValuePropertiesView> {
    properties.union_prefer_right(
        patch.releases.map_values(|node: ReleaseNodeView| inferred(node.value, None)),
    )
}

/// What can be copied into a map of nodes.
pub trait Copied: Sized + View {
    /// A copy that holds what this value holds.
    fn copied(&self) -> (r: Self)
        ensures
            r@ == self@,
    ;
}

impl Copied for Component {
    fn copied(&self) -> (r: Component) {
        self.duplicate()
    }
}

impl Copied for ReleaseNode {
    fn copied(&self) -> (r: ReleaseNode) {
        let privacy_usages = match &self.privacy_usages {
            Some(usages) => {
                let copy = usages.clone();
                assert(copy@ =~= usages@);
                Some(copy)
            },
            None => None,
        };
        ReleaseNode { value: self.value.duplicate(), privacy_usages, public: self.public }
    }
}

impl Copied for ValueProperties {
    fn copied(&self) -> (r: ValueProperties) {
        self.duplicate()
    }
}

/// What a map holds, by id.
pub open spec fn held<T: View>(map: BTreeMap<u32, T>) -> Map<u32, T::V> {
    map@.map_values(|item: T| item@)
}

/// Puts what `source` holds into `target`, in place of what was there under
/// the same ids.
pub fn extend<T: Copied>(target: &mut BTreeMap<u32, T>, source: &BTreeMap<u32, T>)
    ensures
        held(*final(target)) == held(*old(target)).union_prefer_right(held(*source)),
{
    let ghost before = held(*target);
    let keys = keys_of(source);
    let mut i: usize = 0;
    while i < keys.len()
        invariant
            i <= keys.len(),
            forall|key: u32| keys@.contains(key) <==> source@.contains_key(key),
            held(*target) == before.union_prefer_right(
                held(*source).restrict(keys@.take(i as int).to_set()),
            ),
        decreases keys.len() - i,
    {
        let key = keys[i];
        assert(keys@.contains(key));
        let ghost so_far = held(*target);
        match source.get(&key) {
            Some(item) => {
                target.insert(key, item.copied());
                proof {
                    assert(held(*target) =~= so_far.insert(key, held(*source)[key]));
                    let next = keys@.take(i + 1);
                    assert(next.drop_last() =~= keys@.take(i as int));
                    assert(next.last() == key);
                    assert(next.drop_last().to_set().insert(next.last()) =~= next.to_set());
                    assert(held(*target) =~= before.union_prefer_right(
                        held(*source).restrict(keys@.take(i + 1).to_set()),
                    ));
                }
            },
            None => {},
        }
        i += 1;
    }
    proof {
        assert(keys@.take(i as int) =~= keys@);
        assert(held(*source).restrict(keys@.to_set()) =~= held(*source)) by {
            assert forall|k: u32| held(*source).contains_key(k) implies keys@.to_set().contains(
                k,
            ) by {
                assert(keys@.contains(k));
            }
        }
    }
}

fn apply_patch(
    graph: &mut ComputationGraph,
    release: &mut Release,
    properties: &mut GraphProperties,
    warnings: &mut Vec<Error>,
    patch: ComponentExpansion,
)
    ensures
        nodes_of(*final(graph)) == patched_nodes(nodes_of(*old(graph)), patch@),
        releases_of(*final(release)) == patched_releases(releases_of(*old(release)), patch@),
        properties_of(*final(properties)) == patched_properties(
            properties_of(*old(properties)),
            patch@,
        ),
        final(warnings)@ == old(warnings)@ + patch@.warnings,
{
    let mut patch = patch;
    extend(graph, &patch.computation_graph);
    extend(release, &patch.releases);
    let inferred_properties = infer_released(&patch.releases);
    proof {
        assert(held(inferred_properties) =~= patch@.releases.map_values(
            |node: ReleaseNodeView| inferred(node.value, None),
        ));
    }
    extend(properties, &inferred_properties);
    warnings.append(&mut patch.warnings);
}

/// The state of an analysis is in order: what is derived is sound, and no id
/// in use is beyond `maximum_id`.
pub open spec fn in_order<A: Fn(Operation) -> Float>(
    arithmetic: A,
    graph: ComputationGraph,
    release: Release,
    properties: GraphProperties,
    maximum_id: u32,
) -> bool {
    &&& is_sound(arithmetic, nodes_of(graph), releases_of(release), properties_of(properties))
    &&& ids_within(nodes_of(graph), releases_of(release), properties_of(properties), maximum_id)
}

/// Nothing is lost between two states of an analysis: every node stays a
/// node, and what was derived stays derived as it was.
pub open spec fn nothing_lost(
    graph: ComputationGraph,
    properties: GraphProperties,
    next_graph: ComputationGraph,
    next_properties: GraphProperties,
) -> bool {
    &&& forall|id: u32| #[trigger] graph@.contains_key(id) ==> next_graph@.contains_key(id)
    &&& forall|id: u32| #[trigger]
        properties@.contains_key(id) ==> next_properties@.contains_key(id) && next_properties@[id]@
            == properties@[id]@
}

/// What a node weighs while nothing is derived of it: one more than its rank.
pub open spec fn weight(
    graph: Map<u32, ComponentView>,
    properties: Map<u32, ValuePropertiesView>,
    id: u32,
) -> nat {
    if graph.contains_key(id) && !properties.contains_key(id) {
        rank(graph[id]) + 1
    } else {
        0
    }
}

/// The visit of a node led on. Unless ids were taken up, the nodes are the
/// same but for the node visited, nothing else is derived but of that node,
/// and that node weighs no more than before; with `progress`, it weighs less.
/// Without `progress`, the node visited is left waiting for an argument.
pub open spec fn leads_on(
    graph: Map<u32, ComponentView>,
    properties: Map<u32, ValuePropertiesView>,
    maximum_id: u32,
    next_graph: Map<u32, ComponentView>,
    next_properties: Map<u32, ValuePropertiesView>,
    next_maximum_id: u32,
    visited: u32,
    progress: bool,
) -> bool {
    &&& maximum_id <= next_maximum_id
    &&& maximum_id < next_maximum_id ==> progress
    &&& maximum_id == next_maximum_id ==> {
        &&& forall|id: u32|
            #![trigger next_graph.contains_key(id)]
            next_graph.contains_key(id) <==> graph.contains_key(id)
        &&& forall|id: u32|
            #![trigger next_graph[id]]
            id != visited && graph.contains_key(id) ==> next_graph[id] == graph[id]
        &&& forall|id: u32|
            #![trigger next_properties.contains_key(id)]
            id != visited ==> (next_properties.contains_key(id) <==> properties.contains_key(id))
        &&& weight(next_graph, next_properties, visited) <= weight(graph, properties, visited)
        &&& progress ==> weight(next_graph, next_properties, visited) < weight(
            graph,
            properties,
            visited,
        )
    }
    &&& !progress ==> !next_properties.contains_key(visited) && !is_ready(
        next_graph[visited],
        next_properties,
    )
}

/// The state of an analysis while it is settled: its nodes, what is released
/// and what is derived of them, and the largest id in use.
pub ghost struct State {
    pub graph: Map<u32, ComponentView>,
    pub release: Map<u32, ReleaseNodeView>,
    pub properties: Map<u32, ValuePropertiesView>,
    pub maximum_id: u32,
}

/// The state that holds what the maps hold.
pub open spec fn state_of(
    graph: ComputationGraph,
    release: Release,
    properties: GraphProperties,
    maximum_id: u32,
) -> State {
    State {
        graph: nodes_of(graph),
        release: releases_of(release),
        properties: properties_of(properties),
        maximum_id,
    }
}

/// The state in which an analysis is taken up: of the nodes of which a value
/// is released, the properties are those that the value shows, and nothing is
/// derived of the others; the largest id in use is the largest id of a node
/// or of a release, and 0 where there is none.
pub open spec fn is_initial(
    state: State,
    graph: Map<u32, ComponentView>,
    release: Map<u32, ReleaseNodeView>,
) -> bool {
    &&& state.graph == graph
    &&& state.release == release
    &&& state.properties == release.map_values(|node: ReleaseNodeView| inferred(node.value, None))
    &&& forall|id: u32| #[trigger] graph.contains_key(id) ==> id <= state.maximum_id
    &&& forall|id: u32| #[trigger] release.contains_key(id) ==> id <= state.maximum_id
    &&& state.maximum_id == 0 || graph.contains_key(state.maximum_id) || release.contains_key(
        state.maximum_id,
    )
}

/// `top` is the largest id in use once a patch is taken up.
pub open spec fn is_top(patch: ComponentExpansionView, maximum_id: u32, top: u32) -> bool {
    &&& maximum_id <= top
    &&& forall|key: u32| #[trigger] patch.computation_graph.contains_key(key) ==> key <= top
    &&& forall|key: u32| #[trigger] patch.releases.contains_key(key) ==> key <= top
    &&& top == maximum_id || patch.computation_graph.contains_key(top)
        || patch.releases.contains_key(top)
}

/// One visit leads from `before` to `after`. The node `id`, of which nothing
/// is derived while something is derived of each of its arguments, restates
/// itself, and the patch is taken up. Where the patch asks for another visit,
/// or leaves the node waiting for an argument, that is all; otherwise the
/// properties of the node are what its variant derives.
#[verifier::opaque]
pub open spec fn is_visit<A: Fn(Operation) -> Float>(
    arithmetic: A,
    before: State,
    id: u32,
    after: State,
) -> bool {
    let component = before.graph[id];
    let input = input_properties(component, before.properties);
    &&& before.graph.contains_key(id)
    &&& !before.properties.contains_key(id)
    &&& is_ready(component, before.properties)
    &&& component.variant is Some
    &&& expanded(component.variant->0, component, input, id, before.maximum_id) matches Ok(patch)
        && {
        let graph = patched_nodes(before.graph, patch);
        let release = patched_releases(before.release, patch);
        let properties = patched_properties(before.properties, patch);
        &&& is_accepted(patch, rank(component), id, before.maximum_id)
        &&& is_top(patch, before.maximum_id, after.maximum_id)
        &&& after.graph == graph
        &&& after.release == release
        &&& if patch.traversal.len() > 0 || !is_ready(graph[id], properties) {
            after.properties == properties
        } else {
            &&& graph[id].variant is Some
            &&& after.properties.contains_key(id)
            &&& after.properties == properties.insert(id, after.properties[id])
            &&& derives(
                arithmetic,
                graph[id].variant->0,
                public_arguments(graph[id], release),
                input_properties(graph[id], properties),
                id,
                after.properties[id],
            )
        }
    }
}

/// The visit of the node `id` in the state `before` is refused with `inner`:
/// the node has no variant; it cannot restate itself; its patch is not taken
/// up; or the patch is taken up and asks for no other visit, and then the
/// node has no variant, or nothing can be derived of it though something is
/// derived of each of its arguments.
#[verifier::opaque]
pub open spec fn is_refused(before: State, id: u32, inner: Error) -> bool {
    let component = before.graph[id];
    let input = input_properties(component, before.properties);
    &&& before.graph.contains_key(id)
    &&& !before.properties.contains_key(id)
    &&& is_ready(component, before.properties)
    &&& match component.variant {
        None => inner == Error::VariantUndefined,
        Some(variant) => match expanded(variant, component, input, id, before.maximum_id) {
            Err(e) => inner == e,
            Ok(patch) => if !is_accepted(patch, rank(component), id, before.maximum_id) {
                inner == Error::Patch
            } else {
                let graph = patched_nodes(before.graph, patch);
                let release = patched_releases(before.release, patch);
                let properties = patched_properties(before.properties, patch);
                &&& patch.traversal.len() == 0
                &&& match graph[id].variant {
                    None => inner == Error::VariantUndefined,
                    Some(next) => is_ready(graph[id], properties) && propagation_refused(
                        next,
                        public_arguments(graph[id], release),
                        input_properties(graph[id], properties),
                    ) == Some(inner),
                }
            },
        },
    }
}

/// `last` is reached from `first` by so many visits, one after the other.
pub open spec fn reaches<A: Fn(Operation) -> Float>(
    arithmetic: A,
    first: State,
    last: State,
    visits: nat,
) -> bool
    decreases visits,
{
    if visits == 0 {
        first == last
    } else {
        exists|middle: State, id: u32|
            #![trigger is_visit(arithmetic, middle, id, last)]
            reaches(arithmetic, first, middle, (visits - 1) as nat) && is_visit(
                arithmetic,
                middle,
                id,
                last,
            )
    }
}

/// One more visit reaches one state further.
pub proof fn lemma_reaches_further<A: Fn(Operation) -> Float>(
    arithmetic: A,
    first: State,
    middle: State,
    visits: nat,
    id: u32,
    last: State,
)
    requires
        reaches(arithmetic, first, middle, visits),
        is_visit(arithmetic, middle, id, last),
    ensures
        reaches(arithmetic, first, last, visits + 1),
{
    reveal_with_fuel(reaches, 2);
    assert(reaches(arithmetic, first, middle, ((visits + 1) - 1) as nat));
}

/// A patch that is taken up leads on, whatever the visit does next.
proof fn lemma_patch_leads_on(
    graph: Map<u32, ComponentView>,
    properties: Map<u32, ValuePropertiesView>,
    maximum_id: u32,
    patch: ComponentExpansionView,
    next_graph: Map<u32, ComponentView>,
    next_properties: Map<u32, ValuePropertiesView>,
    top: u32,
    id: u32,
    strict: bool,
)
    requires
        graph.contains_key(id),
        !properties.contains_key(id),
        id <= maximum_id,
        is_accepted(patch, rank(graph[id]), id, maximum_id),
        next_graph == patched_nodes(graph, patch),
        next_properties == patched_properties(properties, patch),
        maximum_id <= top,
        (top > maximum_id) == adds_nodes(patch, maximum_id),
        strict == (top > maximum_id || lowers_rank(patch, rank(graph[id]), id)),
    ensures
        next_graph.contains_key(id),
        !next_properties.contains_key(id),
        top == maximum_id ==> {
            &&& forall|key: u32|
                #![trigger next_graph.contains_key(key)]
                next_graph.contains_key(key) <==> graph.contains_key(key)
            &&& forall|key: u32|
                #![trigger next_graph[key]]
                key != id && graph.contains_key(key) ==> next_graph[key] == graph[key]
            &&& forall|key: u32|
                #![trigger next_properties.contains_key(key)]
                next_properties.contains_key(key) <==> properties.contains_key(key)
            &&& rank(next_graph[id]) <= rank(graph[id])
            &&& strict ==> rank(next_graph[id]) < rank(graph[id])
        },
        top > maximum_id ==> strict,
{
    if patch.releases.contains_key(id) {
        assert(id > maximum_id);
    }
    if top == maximum_id {
        assert(!adds_nodes(patch, maximum_id));
        assert forall|key: u32| !(#[trigger] patch.releases.contains_key(key)) by {
            if patch.releases.contains_key(key) {
                assert(key > maximum_id);
            }
        }
        assert forall|key: u32| #[trigger] patch.computation_graph.contains_key(key) implies key
            == id by {
            if key != id {
                assert(key > maximum_id);
            }
        }
        assert forall|key: u32|
            #![trigger next_graph.contains_key(key)]
            next_graph.contains_key(key) <==> graph.contains_key(key) by {
            if patch.computation_graph.contains_key(key) {
                assert(key == id);
            }
        }
        assert forall|key: u32|
            #![trigger next_graph[key]]
            key != id && graph.contains_key(key) implies next_graph[key] == graph[key] by {
            if patch.computation_graph.contains_key(key) {
                assert(key == id);
            }
        }
        assert forall|key: u32|
            #![trigger next_properties.contains_key(key)]
            next_properties.contains_key(key) <==> properties.contains_key(key) by {
            assert(!patch.releases.contains_key(key));
        }
    }
}

/// Visits a node that is ready: rewrites it, applies the patch, and, unless
/// the patch asks for the node to be visited again, derives its properties.
fn visit<A: Fn(Operation) -> Float>(
    privacy_definition: &Option<PrivacyDefinition>,
    graph: &mut ComputationGraph,
    release: &mut Release,
    properties: &mut GraphProperties,
    warnings: &mut Vec<Error>,
    maximum_id: &mut u32,
    id: u32,
    arithmetic: &A,
) -> (r: Result<bool, Error>)
    requires
        total(*arithmetic),
        in_order(*arithmetic, *old(graph), *old(release), *old(properties), *old(maximum_id)),
        old(graph)@.contains_key(id),
        !old(properties)@.contains_key(id),
        is_ready(nodes_of(*old(graph))[id], properties_of(*old(properties))),
    ensures
        in_order(*arithmetic, *final(graph), *final(release), *final(properties), *final(maximum_id)),
        nothing_lost(*old(graph), *old(properties), *final(graph), *final(properties)),
        r matches Ok(progress) ==> leads_on(
            nodes_of(*old(graph)),
            properties_of(*old(properties)),
            *old(maximum_id),
            nodes_of(*final(graph)),
            properties_of(*final(properties)),
            *final(maximum_id),
            id,
            progress,
        ),
        r is Ok ==> is_visit(
            *arithmetic,
            state_of(*old(graph), *old(release), *old(properties), *old(maximum_id)),
            id,
            state_of(*final(graph), *final(release), *final(properties), *final(maximum_id)),
        ),
        final(warnings)@ == old(warnings)@,
        r matches Err(e) ==> e matches Error::NodeId(at, inner) && at == id && is_refused(
            state_of(*old(graph), *old(release), *old(properties), *old(maximum_id)),
            id,
            *inner,
        ),
{
    proof {
        reveal(is_visit);
        reveal(is_refused);
    }
    let ghost graph_before = nodes_of(*graph);
    let ghost release_before = releases_of(*release);
    let ghost properties_before = properties_of(*properties);
    let ghost maximum_before = *maximum_id;
    let (expansion, rank_before) = {
        let component = match graph.get(&id) {
            Some(component) => component,
            None => {
                assert(false);
                return Err(Error::VariantUndefined.at_id(id));
            },
        };
        let input = get_input_properties(component, properties);
        let public = get_public_arguments(component, release);
        match component.expand_component(
            privacy_definition,
            component,
            &public,
            &input,
            id,
            *maximum_id,
        ) {
            Ok(expansion) => (expansion, rank_of(component)),
            Err(e) => {
                return Err(e.at_id(id));
            },
        }
    };
    let ghost patch = expansion@;
    let revisit = expansion.traversal.len() > 0;
    let (top, strict) = match accept(&expansion, rank_before, id, *maximum_id) {
        Some(taken) => taken,
        None => {
            return Err(Error::Patch.at_id(id));
        },
    };
    apply_patch(graph, release, properties, warnings, expansion);
    *maximum_id = top;
    let ghost graph_after = nodes_of(*graph);
    let ghost release_after = releases_of(*release);
    let ghost properties_after = properties_of(*properties);
    proof {
        assert(graph_before.contains_key(id));
        assert(id <= maximum_before);
        assert(grows_into(graph_before, release_before, properties_before, graph_after, release_after, properties_after, maximum_before, id)) by {
            assert forall|key: u32|
                #![trigger graph_before.contains_key(key)]
                graph_before.contains_key(key) implies graph_after.contains_key(key) && (key != id ==> graph_after[key]
                == graph_before[key]) by {
                if patch.computation_graph.contains_key(key) && key != id {
                    assert(key > maximum_before);
                }
            }
            assert forall|key: u32|
                #![trigger release_before.contains_key(key)]
                release_before.contains_key(key) implies release_after.contains_key(key) && release_after[key] == release_before[key] by {
                if patch.releases.contains_key(key) {
                    assert(key > maximum_before);
                }
            }
            assert forall|key: u32|
                #![trigger properties_before.contains_key(key)]
                properties_before.contains_key(key) implies properties_after.contains_key(key) && properties_after[key] == properties_before[key] by {
                if patch.releases.contains_key(key) {
                    assert(key > maximum_before);
                }
            }
            assert forall|key: u32|
                #![trigger release_after.contains_key(key)]
                release_after.contains_key(key) && !release_before.contains_key(key) implies key > maximum_before by {
                assert(patch.releases.contains_key(key));
            }
            assert forall|key: u32|
                #![trigger properties_after.contains_key(key)]
                properties_after.contains_key(key) && !properties_before.contains_key(key) implies key > maximum_before || key == id by {
                assert(patch.releases.contains_key(key));
            }
        }
        lemma_justified_stays(*arithmetic, graph_before, release_before, properties_before, graph_after, release_after, properties_after, maximum_before, id);
        assert forall|key: u32| #[trigger] properties_after.contains_key(key) implies is_justified(
            *arithmetic,
            graph_after,
            release_after,
            properties_after,
            key,
        ) by {
            if !properties_before.contains_key(key) {
                assert(patch.releases.contains_key(key));
                assert(release_after.contains_key(key) && release_after[key] == patch.releases[key]);
                assert(properties_after[key] == inferred(patch.releases[key].value, None));
            }
        }
        assert(ids_within(graph_after, release_after, properties_after, top)) by {
            assert forall|key: u32| #[trigger] graph_after.contains_key(key) implies key <= top by {
                if !graph_before.contains_key(key) {
                    assert(patch.computation_graph.contains_key(key));
                }
            }
            assert forall|key: u32| #[trigger] release_after.contains_key(key) implies key <= top by {
                if !release_before.contains_key(key) {
                    assert(patch.releases.contains_key(key));
                }
            }
            assert forall|key: u32| #[trigger] properties_after.contains_key(key) implies key <= top by {
                if !properties_before.contains_key(key) {
                    assert(patch.releases.contains_key(key));
                }
            }
        }
        assert(!properties_after.contains_key(id)) by {
            if patch.releases.contains_key(id) {
                assert(id > maximum_before);
            }
        }
        assert(properties@.contains_key(id) == properties_after.contains_key(id));
        assert forall|key: u32| #[trigger] old(graph)@.contains_key(key) implies graph@.contains_key(
            key,
        ) by {
            assert(graph_before.contains_key(key));
            assert(graph_after.contains_key(key));
        }
        assert forall|key: u32| #[trigger] old(properties)@.contains_key(key) implies properties@.contains_key(
            key,
        ) && properties@[key]@ == old(properties)@[key]@ by {
            assert(properties_before.contains_key(key));
            assert(properties_after.contains_key(key) && properties_after[key] == properties_before[key]);
        }
    }
    proof {
        lemma_patch_leads_on(
            graph_before,
            properties_before,
            maximum_before,
            patch,
            graph_after,
            properties_after,
            top,
            id,
            strict,
        );
    }
    if revisit {
        return Ok(true);
    }
    let component = match graph.get(&id) {
        Some(component) => component,
        None => {
            proof {
                assert(graph_after.contains_key(id));
                assert(false);
            }
            return Err(Error::VariantUndefined.at_id(id));
        },
    };
    if component.variant.is_none() {
        return Err(Error::VariantUndefined.at_id(id));
    }
    if !all_arguments_derived(component, properties) {
        return Ok(strict);
    }
    let input = get_input_properties(component, properties);
    let public = get_public_arguments(component, release);
    match component.propagate_property(privacy_definition, &public, input, id, arithmetic) {
        Err(e) => Err(e.at_id(id)),
        Ok(derived) => {
            let mut derived = derived;
            let ghost value = derived.value@;
            properties.insert(id, derived.value);
            warnings.append(&mut derived.warnings);
            proof {
                let properties_last = properties_of(*properties);
                assert(properties_last =~= properties_after.insert(id, value));
                assert(grows_into(graph_after, release_after, properties_after, graph_after, release_after, properties_last, top, id));
                lemma_justified_stays(*arithmetic, graph_after, release_after, properties_after, graph_after, release_after, properties_last, top, id);
                let component = graph_after[id];
                assert(input_properties(component, properties_last) =~= input_properties(component, properties_after)) by {
                    assert forall|name: Seq<char>|
                        component.arguments.contains_key(name) implies component.arguments[name]
                        != id by {
                        assert(properties_after.contains_key(component.arguments[name]));
                    }
                }
                assert forall|name: Seq<char>| #[trigger]
                    component.arguments.contains_key(name) implies properties_last.contains_key(
                    component.arguments[name],
                ) by {
                    assert(properties_after.contains_key(component.arguments[name]));
                }
                assert(is_justified(*arithmetic, graph_after, release_after, properties_last, id));
                assert forall|key: u32| #[trigger] properties_last.contains_key(key) implies is_justified(
                    *arithmetic,
                    graph_after,
                    release_after,
                    properties_last,
                    key,
                ) by {
                    if key != id {
                        assert(properties_after.contains_key(key));
                    }
                }
                assert forall|key: u32| #[trigger] old(properties)@.contains_key(
                    key,
                ) implies properties@.contains_key(key) && properties@[key]@ == old(
                    properties,
                )@[key]@ by {
                    assert(properties_before.contains_key(key));
                    assert(properties_after.contains_key(key) && properties_after[key] == properties_before[key]);
                    assert(properties_last.contains_key(key) && properties_last[key] == properties_after[key]);
                }
            }
            Ok(true)
        },
    }
}

/// Whether properties are derived of every node.
pub open spec fn is_complete(
    graph: Map<u32, ComponentView>,
    properties: Map<u32, ValuePropertiesView>,
) -> bool {
    forall|id: u32| #[trigger] graph.contains_key(id) ==> properties.contains_key(id)
}

/// Nodes are left of which nothing is derived, and each of them waits for an
/// argument of which nothing is derived.
pub open spec fn is_stuck(
    graph: Map<u32, ComponentView>,
    properties: Map<u32, ValuePropertiesView>,
) -> bool {
    &&& !is_complete(graph, properties)
    &&& forall|id: u32|
        #![trigger graph.contains_key(id)]
        graph.contains_key(id) && !properties.contains_key(id) ==> !is_ready(graph[id], properties)
}

/// What the nodes with ids below `bound` weigh together.
pub open spec fn weight_below(
    graph: Map<u32, ComponentView>,
    properties: Map<u32, ValuePropertiesView>,
    bound: nat,
) -> nat
    decreases bound,
{
    if bound == 0 {
        0
    } else {
        weight_below(graph, properties, (bound - 1) as nat) + weight(
            graph,
            properties,
            (bound - 1) as u32,
        )
    }
}

/// What all nodes weigh together of which nothing is derived.
pub open spec fn pending_weight(
    graph: Map<u32, ComponentView>,
    properties: Map<u32, ValuePropertiesView>,
) -> nat {
    weight_below(graph, properties, 0x1_0000_0000)
}

/// Where one node comes to weigh no more and every other node weighs what it
/// did, all together weigh no more; and less where the one node weighs less.
pub proof fn lemma_weight_below(
    graph: Map<u32, ComponentView>,
    properties: Map<u32, ValuePropertiesView>,
    next_graph: Map<u32, ComponentView>,
    next_properties: Map<u32, ValuePropertiesView>,
    visited: u32,
    bound: nat,
)
    requires
        bound <= 0x1_0000_0000,
        forall|id: u32|
            id != visited ==> #[trigger] weight(next_graph, next_properties, id) == weight(
                graph,
                properties,
                id,
            ),
        weight(next_graph, next_properties, visited) <= weight(graph, properties, visited),
    ensures
        weight_below(next_graph, next_properties, bound) <= weight_below(graph, properties, bound),
        bound > visited && weight(next_graph, next_properties, visited) < weight(
            graph,
            properties,
            visited,
        ) ==> weight_below(next_graph, next_properties, bound) < weight_below(
            graph,
            properties,
            bound,
        ),
    decreases bound,
{
    if bound > 0 {
        lemma_weight_below(
            graph,
            properties,
            next_graph,
            next_properties,
            visited,
            (bound - 1) as nat,
        );
        let last = (bound - 1) as u32;
        if last != visited {
            assert(weight(next_graph, next_properties, last) == weight(graph, properties, last));
        }
    }
}

/// A visit that led on without taking up ids left the nodes weighing no more
/// than before, and less with progress.
pub proof fn lemma_leads_on(
    graph: Map<u32, ComponentView>,
    properties: Map<u32, ValuePropertiesView>,
    maximum_id: u32,
    next_graph: Map<u32, ComponentView>,
    next_properties: Map<u32, ValuePropertiesView>,
    visited: u32,
    progress: bool,
)
    requires
        leads_on(
            graph,
            properties,
            maximum_id,
            next_graph,
            next_properties,
            maximum_id,
            visited,
            progress,
        ),
    ensures
        pending_weight(next_graph, next_properties) <= pending_weight(graph, properties),
        progress ==> pending_weight(next_graph, next_properties) < pending_weight(graph, properties),
{
    assert forall|id: u32| id != visited implies #[trigger] weight(
        next_graph,
        next_properties,
        id,
    ) == weight(graph, properties, id) by {
        assert(next_graph.contains_key(id) <==> graph.contains_key(id));
        assert(next_properties.contains_key(id) <==> properties.contains_key(id));
        if graph.contains_key(id) {
            assert(next_graph[id] == graph[id]);
        }
    }
    lemma_weight_below(graph, properties, next_graph, next_properties, visited, 0x1_0000_0000);
}

/// Whether a node waits for an argument depends only on of which nodes
/// something is derived.
pub proof fn lemma_ready(
    component: ComponentView,
    properties: Map<u32, ValuePropertiesView>,
    next_properties: Map<u32, ValuePropertiesView>,
)
    requires
        forall|id: u32|
            #![trigger next_properties.contains_key(id)]
            next_properties.contains_key(id) <==> properties.contains_key(id),
    ensures
        is_ready(component, next_properties) == is_ready(component, properties),
{
    if is_ready(component, properties) {
        assert forall|name: Seq<char>| #[trigger]
            component.arguments.contains_key(name) implies next_properties.contains_key(
            component.arguments[name],
        ) by {
            assert(properties.contains_key(component.arguments[name]));
        }
    }
    if is_ready(component, next_properties) {
        assert forall|name: Seq<char>| #[trigger]
            component.arguments.contains_key(name) implies properties.contains_key(
            component.arguments[name],
        ) by {
            assert(next_properties.contains_key(component.arguments[name]));
        }
    }
}

/// The state in which the settling of an analysis begins: it holds the maps,
/// and the largest id in use is the largest id under which one of them holds
/// something, and 0 where none does.
pub open spec fn is_start(
    state: State,
    graph: Map<u32, ComponentView>,
    release: Map<u32, ReleaseNodeView>,
    properties: Map<u32, ValuePropertiesView>,
) -> bool {
    &&& state.graph == graph
    &&& state.release == release
    &&& state.properties == properties
    &&& ids_within(graph, release, properties, state.maximum_id)
    &&& state.maximum_id == 0 || graph.contains_key(state.maximum_id) || release.contains_key(
        state.maximum_id,
    ) || properties.contains_key(state.maximum_id)
}

/// How the settling of an analysis ends in the state `last`: well, where
/// properties are derived of every node; with a cycle, where the nodes that
/// are left all wait for an argument; at a node, where its visit is refused.
pub open spec fn is_outcome(last: State, result: Result<(), Error>) -> bool {
    match result {
        Ok(_) => is_complete(last.graph, last.properties),
        Err(Error::Cycle) => is_stuck(last.graph, last.properties),
        Err(Error::NodeId(id, inner)) => is_refused(last, id, *inner),
        Err(_) => false,
    }
}

/// The settling that begins in `first` ends in `last` with `result`: `last`
/// is reached from `first` by visits, and there the settling ends so.
pub open spec fn settles<A: Fn(Operation) -> Float>(
    arithmetic: A,
    first: State,
    last: State,
    result: Result<(), Error>,
) -> bool {
    &&& exists|visits: nat| reaches(arithmetic, first, last, visits)
    &&& is_outcome(last, result)
}

/// The settling of an analysis that is taken up with the given nodes and
/// releases ends in `last` with `result`.
pub open spec fn is_verdict<A: Fn(Operation) -> Float>(
    arithmetic: A,
    graph: Map<u32, ComponentView>,
    release: Map<u32, ReleaseNodeView>,
    last: State,
    result: Result<(), Error>,
) -> bool {
    exists|first: State| #[trigger]
        is_initial(first, graph, release) && settles(arithmetic, first, last, result)
}

/// Derives the properties of every node of which they are not derived yet.
/// The nodes are visited in sweeps, in the order of their ids, each as soon as
/// properties are derived of all its arguments: it is rewritten, and, unless
/// the patch asks for another visit, its properties are derived. The analysis
/// is settled when properties are derived of every node; it is refused where
/// the visit of a node fails, and where the nodes that are left all wait for
/// an argument. Every visit takes up ids or leaves the nodes weighing less, so
/// the sweeps come to an end.
pub fn settle<A: Fn(Operation) -> Float>(
    privacy_definition: &Option<PrivacyDefinition>,
    graph: &mut ComputationGraph,
    release: &mut Release,
    properties: &mut GraphProperties,
    warnings: &mut Vec<Error>,
    arithmetic: &A,
) -> (r: Result<(), Error>)
    requires
        total(*arithmetic),
        is_sound(
            *arithmetic,
            nodes_of(*old(graph)),
            releases_of(*old(release)),
            properties_of(*old(properties)),
        ),
    ensures
        is_sound(
            *arithmetic,
            nodes_of(*final(graph)),
            releases_of(*final(release)),
            properties_of(*final(properties)),
        ),
        nothing_lost(*old(graph), *old(properties), *final(graph), *final(properties)),
        final(warnings)@ == old(warnings)@,
        exists|first: State, last: State|
            {
                &&& #[trigger] settles(*arithmetic, first, last, r)
                &&& is_start(
                    first,
                    nodes_of(*old(graph)),
                    releases_of(*old(release)),
                    properties_of(*old(properties)),
                )
                &&& (r is Ok || r == Err::<(), Error>(Error::Cycle)) ==> last == state_of(
                    *final(graph),
                    *final(release),
                    *final(properties),
                    last.maximum_id,
                )
            },
{
    let mut maximum_id = largest_id(properties, largest_id(release, largest_id(graph, 0)));
    let ghost first = state_of(*graph, *release, *properties, maximum_id);
    let ghost mut visits: nat = 0;
    assert(is_start(
        first,
        nodes_of(*old(graph)),
        releases_of(*old(release)),
        properties_of(*old(properties)),
    ));
    loop
        invariant
            total(*arithmetic),
            in_order(*arithmetic, *graph, *release, *properties, maximum_id),
            nothing_lost(*old(graph), *old(properties), *graph, *properties),
            reaches(*arithmetic, first, state_of(*graph, *release, *properties, maximum_id), visits),
            is_start(
                first,
                nodes_of(*old(graph)),
                releases_of(*old(release)),
                properties_of(*old(properties)),
            ),
            warnings@ == old(warnings)@,
        ensures
            in_order(*arithmetic, *graph, *release, *properties, maximum_id),
            nothing_lost(*old(graph), *old(properties), *graph, *properties),
            reaches(*arithmetic, first, state_of(*graph, *release, *properties, maximum_id), visits),
            warnings@ == old(warnings)@,
            forall|id: u32|
                #![trigger nodes_of(*graph).contains_key(id)]
                nodes_of(*graph).contains_key(id) && !properties_of(*properties).contains_key(id)
                    ==> !is_ready(nodes_of(*graph)[id], properties_of(*properties)),
        decreases
                u32::MAX - maximum_id,
                pending_weight(nodes_of(*graph), properties_of(*properties)),
    {
        let ghost start_maximum = maximum_id;
        let ghost start_graph = nodes_of(*graph);
        let ghost start_properties = properties_of(*properties);
        let keys = keys_of(graph);
        proof {
            assert forall|k: int| 0 <= k < keys@.len() implies graph@.contains_key(
            #[trigger] keys@[k]) by {
                assert(keys@.contains(keys@[k]));
            }
        }
        let mut progress = false;
        let mut i: usize = 0;
        while i < keys.len()
            invariant
                total(*arithmetic),
                i <= keys.len(),
                in_order(*arithmetic, *graph, *release, *properties, maximum_id),
                nothing_lost(*old(graph), *old(properties), *graph, *properties),
                forall|k: int| 0 <= k < keys@.len() ==> graph@.contains_key(#[trigger] keys@[k]),
                forall|id: u32| start_graph.contains_key(id) ==> keys@.contains(id),
                reaches(
                    *arithmetic,
                    first,
                    state_of(*graph, *release, *properties, maximum_id),
                    visits,
                ),
                is_start(
                    first,
                    nodes_of(*old(graph)),
                    releases_of(*old(release)),
                    properties_of(*old(properties)),
                ),
                warnings@ == old(warnings)@,
                start_maximum <= maximum_id,
                start_maximum < maximum_id ==> progress,
                start_maximum == maximum_id ==> pending_weight(
                    nodes_of(*graph),
                    properties_of(*properties),
                ) <= pending_weight(start_graph, start_properties),
                progress && start_maximum == maximum_id ==> pending_weight(
                    nodes_of(*graph),
                    properties_of(*properties),
                ) < pending_weight(start_graph, start_properties),
                !progress ==> is_waiting(
                    start_graph,
                    nodes_of(*graph),
                    properties_of(*properties),
                    keys@,
                    i as int,
                ),
            decreases keys.len() - i,
        {
            let id = keys[i];
            let ghost graph_before = *graph;
            let ghost properties_before = *properties;
            let ghost maximum_before = maximum_id;
            let ghost state_before = state_of(*graph, *release, *properties, maximum_id);
            let mut led = false;
            let mut visited = false;
            if properties.get(&id).is_none() {
                let ready = match graph.get(&id) {
                    Some(component) => all_arguments_derived(component, properties),
                    None => false,
                };
                if ready {
                    match visit(
                        privacy_definition,
                        graph,
                        release,
                        properties,
                        warnings,
                        &mut maximum_id,
                        id,
                        arithmetic,
                    ) {
                        Ok(outcome) => {
                            led = outcome;
                            visited = true;
                            proof {
                                lemma_reaches_further(
                                    *arithmetic,
                                    first,
                                    state_before,
                                    visits,
                                    id,
                                    state_of(*graph, *release, *properties, maximum_id),
                                );
                                visits = visits + 1;
                            }
                        },
                        Err(e) => {
                            proof {
                                assert(graph@.contains_key(id));
                                assert(settles(*arithmetic, first, state_before, Err::<(), Error>(e)));
                                lemma_nothing_lost(
                                    *old(graph),
                                    *old(properties),
                                    graph_before,
                                    properties_before,
                                    *graph,
                                    *properties,
                                );
                            }
                            return Err(e);
                        },
                    }
                    proof {
                        lemma_nothing_lost(
                            *old(graph),
                            *old(properties),
                            graph_before,
                            properties_before,
                            *graph,
                            *properties,
                        );
                        assert forall|k: int| 0 <= k < keys@.len() implies graph@.contains_key(
                        #[trigger] keys@[k]) by {
                            assert(graph_before@.contains_key(keys@[k]));
                        }
                    }
                }
            }
            proof {
                if visited {
                    if maximum_id == maximum_before {
                        lemma_leads_on(
                            nodes_of(graph_before),
                            properties_of(properties_before),
                            maximum_before,
                            nodes_of(*graph),
                            properties_of(*properties),
                            id,
                            led,
                        );
                    }
                    if !progress && !led {
                        lemma_still_waiting(
                            start_graph,
                            nodes_of(graph_before),
                            properties_of(properties_before),
                            maximum_before,
                            nodes_of(*graph),
                            properties_of(*properties),
                            keys@,
                            i as int,
                        );
                    }
                } else if !progress {
                    assert(is_waiting(
                        start_graph,
                        nodes_of(*graph),
                        properties_of(*properties),
                        keys@,
                        i + 1,
                    ));
                }
            }
            if led {
                progress = true;
            }
            i += 1;
        }
        if !progress {
            proof {
                assert forall|id: u32|
                    #![trigger nodes_of(*graph).contains_key(id)]
                    nodes_of(*graph).contains_key(id) && !properties_of(*properties).contains_key(
                        id,
                    ) implies !is_ready(nodes_of(*graph)[id], properties_of(*properties)) by {
                    assert(start_graph.contains_key(id));
                    assert(keys@.contains(id));
                    let k = choose|k: int| 0 <= k < keys@.len() && keys@[k] == id;
                    assert(keys@[k] == id);
                }
            }
            break;
        }
    }
    let keys = keys_of(graph);
    let mut i: usize = 0;
    while i < keys.len()
        invariant
            i <= keys.len(),
            in_order(*arithmetic, *graph, *release, *properties, maximum_id),
            nothing_lost(*old(graph), *old(properties), *graph, *properties),
            forall|id: u32| graph@.contains_key(id) <==> keys@.contains(id),
            forall|k: int| 0 <= k < i ==> properties@.contains_key(#[trigger] keys@[k]),
            reaches(*arithmetic, first, state_of(*graph, *release, *properties, maximum_id), visits),
            warnings@ == old(warnings)@,
            is_start(
                first,
                nodes_of(*old(graph)),
                releases_of(*old(release)),
                properties_of(*old(properties)),
            ),
            forall|id: u32|
                #![trigger nodes_of(*graph).contains_key(id)]
                nodes_of(*graph).contains_key(id) && !properties_of(*properties).contains_key(id)
                    ==> !is_ready(nodes_of(*graph)[id], properties_of(*properties)),
        decreases keys.len() - i,
    {
        if properties.get(&keys[i]).is_none() {
            proof {
                assert(keys@.contains(keys@[i as int]));
                assert(nodes_of(*graph).contains_key(keys@[i as int]));
                assert(!properties_of(*properties).contains_key(keys@[i as int]));
                let last = state_of(*graph, *release, *properties, maximum_id);
                assert(is_stuck(last.graph, last.properties));
                assert(settles(*arithmetic, first, last, Err::<(), Error>(Error::Cycle)));
            }
            return Err(Error::Cycle);
        }
        i += 1;
    }
    proof {
        assert forall|id: u32| #[trigger] nodes_of(*graph).contains_key(id) implies properties_of(
            *properties,
        ).contains_key(id) by {
            assert(keys@.contains(id));
            let k = choose|k: int| 0 <= k < keys@.len() && keys@[k] == id;
            assert(properties@.contains_key(keys@[k]));
        }
        let last = state_of(*graph, *release, *properties, maximum_id);
        assert(settles(*arithmetic, first, last, Ok::<(), Error>(())));
    }
    Ok(())
}

/// In a sweep without progress so far, the nodes are those the sweep began
/// with, and each of the first `count` of them of which nothing is derived
/// waits for an argument.
pub open spec fn is_waiting(
    start_graph: Map<u32, ComponentView>,
    graph: Map<u32, ComponentView>,
    properties: Map<u32, ValuePropertiesView>,
    keys: Seq<u32>,
    count: int,
) -> bool {
    &&& forall|id: u32|
        #![trigger graph.contains_key(id)]
        graph.contains_key(id) <==> start_graph.contains_key(id)
    &&& forall|k: int|
        #![trigger keys[k]]
        0 <= k < count && k < keys.len() && !properties.contains_key(keys[k]) ==> !is_ready(
            graph[keys[k]],
            properties,
        )
}

/// A visit without progress leaves the sweep waiting as far as it has come.
pub proof fn lemma_still_waiting(
    start_graph: Map<u32, ComponentView>,
    graph: Map<u32, ComponentView>,
    properties: Map<u32, ValuePropertiesView>,
    maximum_id: u32,
    next_graph: Map<u32, ComponentView>,
    next_properties: Map<u32, ValuePropertiesView>,
    keys: Seq<u32>,
    place: int,
)
    requires
        0 <= place < keys.len(),
        is_waiting(start_graph, graph, properties, keys, place),
        forall|k: int| 0 <= k < keys.len() ==> graph.contains_key(#[trigger] keys[k]),
        !properties.contains_key(keys[place]),
        exists|next_maximum_id: u32|
            leads_on(
                graph,
                properties,
                maximum_id,
                next_graph,
                next_properties,
                next_maximum_id,
                keys[place],
                false,
            ),
    ensures
        is_waiting(start_graph, next_graph, next_properties, keys, place + 1),
{
    let visited = keys[place];
    let next_maximum_id = choose|next_maximum_id: u32|
        leads_on(
            graph,
            properties,
            maximum_id,
            next_graph,
            next_properties,
            next_maximum_id,
            visited,
            false,
        );
    assert(next_maximum_id == maximum_id);
    assert forall|id: u32|
        #![trigger next_properties.contains_key(id)]
        next_properties.contains_key(id) <==> properties.contains_key(id) by {
        if id == visited {
            assert(!next_properties.contains_key(visited));
        }
    }
    assert forall|id: u32|
        #![trigger next_graph.contains_key(id)]
        next_graph.contains_key(id) <==> start_graph.contains_key(id) by {
        assert(next_graph.contains_key(id) <==> graph.contains_key(id));
        assert(graph.contains_key(id) <==> start_graph.contains_key(id));
    }
    assert forall|k: int|
        #![trigger keys[k]]
        0 <= k < place + 1 && k < keys.len() && !next_properties.contains_key(
            keys[k],
        ) implies !is_ready(next_graph[keys[k]], next_properties) by {
        if keys[k] != visited {
            assert(graph.contains_key(keys[k]));
            assert(next_graph[keys[k]] == graph[keys[k]]);
            assert(!properties.contains_key(keys[k]));
            lemma_ready(graph[keys[k]], properties, next_properties);
        }
    }
}

/// What is not lost over two steps is not lost over both.
pub proof fn lemma_nothing_lost(
    graph: ComputationGraph,
    properties: GraphProperties,
    middle_graph: ComputationGraph,
    middle_properties: GraphProperties,
    next_graph: ComputationGraph,
    next_properties: GraphProperties,
)
    requires
        nothing_lost(graph, properties, middle_graph, middle_properties),
        nothing_lost(middle_graph, middle_properties, next_graph, next_properties),
    ensures
        nothing_lost(graph, properties, next_graph, next_properties),
{
    assert forall|id: u32| #[trigger] graph@.contains_key(id) implies next_graph@.contains_key(
        id,
    ) by {
        assert(middle_graph@.contains_key(id));
    }
    assert forall|id: u32| #[trigger] properties@.contains_key(
        id,
    ) implies next_properties@.contains_key(id) && next_properties@[id]@ == properties@[id]@ by {
        assert(middle_properties@.contains_key(id));
    }
}

/// An analysis is valid, and settles into the nodes, releases and properties
/// given: the settling of the analysis ends well in the state that holds
/// them. The properties are then sound.
pub open spec fn is_valid<A: Fn(Operation) -> Float>(
    arithmetic: A,
    graph: Map<u32, ComponentView>,
    release: Map<u32, ReleaseNodeView>,
    settled: ComputationGraph,
    released: Release,
    properties: GraphProperties,
) -> bool {
    &&& exists|maximum_id: u32| #[trigger]
        is_verdict(
            arithmetic,
            graph,
            release,
            state_of(settled, released, properties, maximum_id),
            Ok::<(), Error>(()),
        )
    &&& is_sound(arithmetic, nodes_of(settled), releases_of(released), properties_of(properties))
}

/// An analysis is refused with `error`: its settling ends so in some state.
pub open spec fn is_failure<A: Fn(Operation) -> Float>(
    arithmetic: A,
    graph: Map<u32, ComponentView>,
    release: Map<u32, ReleaseNodeView>,
    error: Error,
) -> bool {
    exists|last: State| #[trigger]
        is_verdict(arithmetic, graph, release, last, Err::<(), Error>(error))
}

/// An analysis is refused only for a cycle or at a node.
pub proof fn lemma_failure<A: Fn(Operation) -> Float>(
    arithmetic: A,
    graph: Map<u32, ComponentView>,
    release: Map<u32, ReleaseNodeView>,
    error: Error,
)
    requires
        is_failure(arithmetic, graph, release, error),
    ensures
        error == Error::Cycle || error is NodeId,
{
    let last = choose|last: State| #[trigger]
        is_verdict(arithmetic, graph, release, last, Err::<(), Error>(error));
    let first = choose|first: State| #[trigger]
        is_initial(first, graph, release) && settles(
            arithmetic,
            first,
            last,
            Err::<(), Error>(error),
        );
    assert(is_outcome(last, Err::<(), Error>(error)));
}

/// Derives the properties of every node of an analysis. The nodes of which a
/// value is released have the properties that the value shows; the others are
/// visited as [`settle`] says. The graph and the release take up the patches
/// of the nodes that restate themselves. No component of this library warns,
/// so no warning comes with the properties.
pub fn propagate_properties<A: Fn(Operation) -> Float>(
    privacy_definition: &Option<PrivacyDefinition>,
    graph: &mut ComputationGraph,
    release: &mut Release,
    arithmetic: &A,
) -> (r: Result<(GraphProperties, Vec<Error>), Error>)
    requires
        total(*arithmetic),
    ensures
        match r {
            Ok((properties, warnings)) => warnings@.len() == 0 && is_valid(
                *arithmetic,
                nodes_of(*old(graph)),
                releases_of(*old(release)),
                *final(graph),
                *final(release),
                properties,
            ),
            Err(e) => is_failure(
                *arithmetic,
                nodes_of(*old(graph)),
                releases_of(*old(release)),
                e,
            ),
        },
{
    let mut properties = infer_released(release);
    let mut warnings: Vec<Error> = Vec::new();
    let ghost inferred_properties = properties_of(properties);
    proof {
        assert(inferred_properties =~= releases_of(*release).map_values(
            |node: ReleaseNodeView| inferred(node.value, None),
        ));
        assert forall|id: u32| #[trigger]
            properties_of(properties).contains_key(id) implies is_justified(
            *arithmetic,
            nodes_of(*graph),
            releases_of(*release),
            properties_of(properties),
            id,
        ) by {
            assert(properties@.contains_key(id));
            assert(releases_of(*release).contains_key(id));
        }
    }
    let settled = settle(privacy_definition, graph, release, &mut properties, &mut warnings, arithmetic);
    proof {
        let (first, last) = choose|first: State, last: State|
            {
                &&& #[trigger] settles(*arithmetic, first, last, settled)
                &&& is_start(
                    first,
                    nodes_of(*old(graph)),
                    releases_of(*old(release)),
                    inferred_properties,
                )
                &&& (settled is Ok || settled == Err::<(), Error>(Error::Cycle)) ==> last
                    == state_of(*graph, *release, properties, last.maximum_id)
            };
        assert(is_initial(first, nodes_of(*old(graph)), releases_of(*old(release)))) by {
            if inferred_properties.contains_key(first.maximum_id) {
                assert(releases_of(*old(release)).contains_key(first.maximum_id));
            }
        }
        assert(is_verdict(
            *arithmetic,
            nodes_of(*old(graph)),
            releases_of(*old(release)),
            last,
            settled,
        ));
        if settled is Ok {
            assert(is_verdict(
                *arithmetic,
                nodes_of(*old(graph)),
                releases_of(*old(release)),
                state_of(*graph, *release, properties, last.maximum_id),
                Ok::<(), Error>(()),
            ));
        }
    }
    match settled {
        Ok(_) => Ok((properties, warnings)),
        Err(e) => Err(e),
    }
}

/// Whether an analysis is valid: whether properties can be derived of every
/// node.
pub fn validate_analysis<A: Fn(Operation) -> Float>(
    privacy_definition: Option<PrivacyDefinition>,
    computation_graph: ComputationGraph,
    release: Release,
    arithmetic: &A,
) -> (r: Result<(), Error>)
    requires
        total(*arithmetic),
    ensures
        match r {
            Ok(_) => exists|settled: ComputationGraph, released: Release, properties: GraphProperties| #[trigger]
                is_valid(
                    *arithmetic,
                    nodes_of(computation_graph),
                    releases_of(release),
                    settled,
                    released,
                    properties,
                ),
            Err(e) => is_failure(*arithmetic, nodes_of(computation_graph), releases_of(release), e),
        },
{
    let mut graph = computation_graph;
    let mut known = release;
    match propagate_properties(&privacy_definition, &mut graph, &mut known, arithmetic) {
        Ok((properties, _)) => {
            assert(is_valid(
                *arithmetic,
                nodes_of(computation_graph),
                releases_of(release),
                graph,
                known,
                properties,
            ));
            Ok(())
        },
        Err(e) => Err(e),
    }
}

/// The properties of the nodes asked for, and of all nodes where none is
/// asked for, with the warnings that came up.
pub fn get_properties<A: Fn(Operation) -> Float>(
    privacy_definition: Option<PrivacyDefinition>,
    computation_graph: ComputationGraph,
    release: Release,
    node_ids: Vec<u32>,
    arithmetic: &A,
) -> (r: Result<(GraphProperties, Vec<Error>), Error>)
    requires
        total(*arithmetic),
    ensures
        match r {
            Ok((selected, warnings)) => warnings@.len() == 0 && exists|
                settled: ComputationGraph,
                released: Release,
                properties: GraphProperties,
            |
                {
                    &&& #[trigger] is_valid(
                        *arithmetic,
                        nodes_of(computation_graph),
                        releases_of(release),
                        settled,
                        released,
                        properties,
                    )
                    &&& forall|id: u32| #[trigger]
                        selected@.contains_key(id) <==> properties@.contains_key(id) && (
                        node_ids@.len() == 0 || node_ids@.contains(id))
                    &&& forall|id: u32| #[trigger]
                        selected@.contains_key(id) ==> selected@[id]@ == properties@[id]@
                },
            Err(e) => is_failure(*arithmetic, nodes_of(computation_graph), releases_of(release), e),
        },
{
    let mut graph = computation_graph;
    let mut known = release;
    let (properties, warnings) = match propagate_properties(
        &privacy_definition,
        &mut graph,
        &mut known,
        arithmetic,
    ) {
        Ok(derived) => derived,
        Err(e) => {
            return Err(e);
        },
    };
    let ghost valid = is_valid(
        *arithmetic,
        nodes_of(computation_graph),
        releases_of(release),
        graph,
        known,
        properties,
    );
    assert(valid);
    if node_ids.len() == 0 {
        return Ok((properties, warnings));
    }
    let mut selected: GraphProperties = BTreeMap::new();
    let mut i: usize = 0;
    while i < node_ids.len()
        invariant
            i <= node_ids.len(),
            warnings@.len() == 0,
            valid,
            valid == is_valid(
                *arithmetic,
                nodes_of(computation_graph),
                releases_of(release),
                graph,
                known,
                properties,
            ),
            forall|id: u32| #[trigger]
                selected@.contains_key(id) <==> properties@.contains_key(id) && node_ids@.take(
                    i as int,
                ).contains(id),
            forall|id: u32| #[trigger]
                selected@.contains_key(id) ==> selected@[id]@ == properties@[id]@,
        decreases node_ids.len() - i,
    {
        let id = node_ids[i];
        match properties.get(&id) {
            Some(derived) => {
                selected.insert(id, derived.duplicate());
            },
            None => {},
        }
        proof {
            let next = node_ids@.take(i + 1);
            assert(next.drop_last() =~= node_ids@.take(i as int));
            assert(next.last() == id);
            assert forall|other: u32| #[trigger]
                selected@.contains_key(other) <==> properties@.contains_key(other) && next.contains(
                    other,
                ) by {
                if next.contains(other) {
                    let j = choose|j: int| 0 <= j < next.len() && next[j] == other;
                    if j < i {
                        assert(node_ids@.take(i as int)[j] == other);
                    }
                }
                if node_ids@.take(i as int).contains(other) {
                    let j = choose|j: int|
                        0 <= j < node_ids@.take(i as int).len() && node_ids@.take(i as int)[j]
                            == other;
                    assert(next[j] == other);
                }
                if other == id {
                    assert(next[i as int] == other);
                }
            }
        }
        i += 1;
    }
    proof {
        assert(node_ids@.take(i as int) =~= node_ids@);
        assert(is_valid(
            *arithmetic,
            nodes_of(computation_graph),
            releases_of(release),
            graph,
            known,
            properties,
        ));
    }
    Ok((selected, warnings))
}

/// The patch that restates one node, given its public arguments and the
/// properties of its arguments.
pub fn expand_component(
    privacy_definition: &Option<PrivacyDefinition>,
    component: &Component,
    public_arguments: &Arguments<Value>,
    properties: &NodeProperties,
    component_id: u32,
    maximum_id: u32,
) -> (r: Result<ComponentExpansion, Error>)
    ensures
        match component@.variant {
            Some(variant) => match r {
                Ok(expansion) => expanded(variant, component@, properties@, component_id, maximum_id)
                    == Ok::<ComponentExpansionView, Error>(expansion@),
                Err(e) => expanded(variant, component@, properties@, component_id, maximum_id)
                    == Err::<ComponentExpansionView, Error>(e),
            },
            None => r matches Err(e) && e == Error::VariantUndefined,
        },
{
    component.expand_component(
        privacy_definition,
        component,
        public_arguments,
        properties,
        component_id,
        maximum_id,
    )
}

} // verus!
