//! Free-function front of the introspection layer: assembling store states
//! from explored parts and parsing single tool outputs.

use vstd::prelude::*;
use vstd::string::*;
use crate::entities::{
    NodeView, PackageView, Ros2Node, Ros2NodeState, Ros2Package, Ros2State, Ros2Topic, StateView,
    TopicView,
};
use crate::introspect::{
    explore_topics_spec, node_info_wf, topic_info_wf, Ros2Discoverer, Ros2DiscovererParams,
    explore_node_view,
};
use crate::strutil::{first_token_spec, first_token, lines_spec, split_lines, str_eq, str_views,
    starts_with_spec, vec_contains_str};

verus! {

/// A store seeded with explored nodes only.
pub fn ros2_cold_state(nodes: Vec<Ros2Node>) -> (r: Ros2State)
    ensures
        r@ == (StateView {
            packages: Seq::<PackageView>::empty(),
            nodes: nodes@.map_values(|n: Ros2Node| n@),
            topics: Seq::<TopicView>::empty(),
            include_internals: false,
        }),
{
    let r = Ros2State { nodes, packages: Vec::new(), topics: Vec::new(), include_internals: false };
    proof {
        assert(r@ =~~= StateView {
            packages: Seq::<PackageView>::empty(),
            nodes: r.nodes@.map_values(|n: Ros2Node| n@),
            topics: Seq::<TopicView>::empty(),
            include_internals: false,
        });
    }
    r
}

/// A store seeded with explored nodes and topics.
pub fn ros2_hot_state(nodes: Vec<Ros2Node>, topics: Vec<Ros2Topic>) -> (r: Ros2State)
    ensures
        r@ == (StateView {
            packages: Seq::<PackageView>::empty(),
            nodes: nodes@.map_values(|n: Ros2Node| n@),
            topics: topics@.map_values(|t: Ros2Topic| t@),
            include_internals: false,
        }),
{
    let r = Ros2State { nodes, topics, packages: Vec::new(), include_internals: false };
    proof {
        assert(r@ =~~= StateView {
            packages: Seq::<PackageView>::empty(),
            nodes: r.nodes@.map_values(|n: Ros2Node| n@),
            topics: r.topics@.map_values(|t: Ros2Topic| t@),
            include_internals: false,
        });
    }
    r
}

/// A full store state: the packages already known are kept, and packages
/// are explored anew only when none were.
pub fn ros2_state(
    current_packages: Vec<Ros2Package>,
    explored_packages: Vec<Ros2Package>,
    nodes: Vec<Ros2Node>,
    topics: Vec<Ros2Topic>,
) -> (r: Ros2State)
    ensures
        r@.packages == (if current_packages@.len() == 0 {
            explored_packages@.map_values(|p: Ros2Package| p@)
        } else {
            current_packages@.map_values(|p: Ros2Package| p@)
        }),
        r@.nodes == nodes@.map_values(|n: Ros2Node| n@),
        r@.topics == topics@.map_values(|t: Ros2Topic| t@),
        !r@.include_internals,
{
    let packages = if current_packages.len() == 0 {
        explored_packages
    } else {
        current_packages
    };
    Ros2State { nodes, packages, topics, include_internals: false }
}

/// Whether the node is among the lifecycle-capable ones.
pub fn is_node_lifecycle(node_name: String, lifecycled_node_names: &Vec<String>) -> (r: bool)
    ensures
        r == str_views(lifecycled_node_names@).contains(node_name@),
{
    vec_contains_str(lifecycled_node_names, node_name.as_str())
}

/// Whether the node is among the running ones.
pub fn is_node_running(node_name: String, running_node_names: &Vec<String>) -> (r: bool)
    ensures
        r == str_views(running_node_names@).contains(node_name@),
{
    vec_contains_str(running_node_names, node_name.as_str())
}

/// The node names the lifecycle listing printed, one per line.
pub fn lifecycled_node_names(tool_output: &str) -> (r: Vec<String>)
    ensures
        str_views(r@) == lines_spec(tool_output@),
{
    split_lines(tool_output)
}

/// The lifecycle state named by the first word the state query printed.
pub open spec fn lifecycle_state_of(w: Seq<char>) -> Ros2NodeState {
    if w == "unconfigured"@ {
        Ros2NodeState::Unconfigured
    } else if w == "inactive"@ {
        Ros2NodeState::Inactive
    } else if w == "active"@ {
        Ros2NodeState::Active
    } else if w == "shutdown"@ {
        Ros2NodeState::Shutdown
    } else {
        Ros2NodeState::NonLifecycle
    }
}

/// Reads the lifecycle state out of the state query's output; the output
/// must carry at least one word.
pub fn lifecycle_state(tool_output: &str) -> (r: Ros2NodeState)
    requires
        first_token_spec(tool_output@).len() > 0,
    ensures
        r == lifecycle_state_of(first_token_spec(tool_output@)),
{
    let state_str = first_token(tool_output);
    if str_eq(state_str.as_str(), "unconfigured") {
        Ros2NodeState::Unconfigured
    } else if str_eq(state_str.as_str(), "inactive") {
        Ros2NodeState::Inactive
    } else if str_eq(state_str.as_str(), "active") {
        Ros2NodeState::Active
    } else if str_eq(state_str.as_str(), "shutdown") {
        Ros2NodeState::Shutdown
    } else {
        Ros2NodeState::NonLifecycle
    }
}

/// Builds topic records from the info text of each topic name.
pub fn explore_topics(topic_names: Vec<String>, topic_infos: Vec<String>) -> (r: Vec<Ros2Topic>)
    requires
        topic_names@.len() == topic_infos@.len(),
        forall|i: int| 0 <= i < topic_infos@.len() ==> topic_info_wf(topic_infos@[i]@),
    ensures
        r@.map_values(|t: Ros2Topic| t@) == explore_topics_spec(
            str_views(topic_names@),
            str_views(topic_infos@),
            topic_names@.len() as int,
        ),
{
    let discoverer = Ros2Discoverer::new(Ros2DiscovererParams { domain_id: 0 });
    discoverer.explore_topics(topic_names, topic_infos)
}

/// Parses each node's info text; every lookup must have succeeded.
pub fn explore_nodes(
    node_names: Vec<String>,
    node_infos: Vec<String>,
    lifecycled: &Vec<String>,
) -> (r: Vec<Ros2Node>)
    requires
        node_names@.len() == node_infos@.len(),
        forall|i: int|
            0 <= i < node_infos@.len() ==> !starts_with_spec(node_infos@[i]@, "Unable"@)
                && node_info_wf(node_infos@[i]@),
    ensures
        r@.len() == node_names@.len(),
        forall|i: int|
            0 <= i < r@.len() ==> r@[i]@ == explore_node_view(
                node_names@[i]@,
                node_infos@[i]@,
                str_views(lifecycled@),
            ),
{
    let discoverer = Ros2Discoverer::new(Ros2DiscovererParams { domain_id: 0 });
    discoverer.explore_nodes(node_names, node_infos, lifecycled)
}

/// The package path is the prefix the prefix query reported, as it is.
pub fn package_path(prefix_output: String) -> (r: String)
    ensures
        r@ == prefix_output@,
{
    prefix_output
}

} // verus!
