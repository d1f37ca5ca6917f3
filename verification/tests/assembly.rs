use ros2monitor::entities::{Ros2Node, Ros2Package, Ros2Topic};
use ros2monitor::utils::{
    is_node_lifecycle, is_node_running, lifecycled_node_names, package_path, ros2_cold_state,
    ros2_hot_state, ros2_state,
};

fn package(name: &str) -> Ros2Package {
    Ros2Package { name: name.to_string(), path: "/opt".to_string(), executables: vec![] }
}

#[test]
fn cold_state_holds_nodes_only() {
    let state = ros2_cold_state(vec![Ros2Node::create("talker".to_string())]);
    assert_eq!(state.nodes.len(), 1);
    assert_eq!(state.packages.len(), 0);
    assert_eq!(state.topics.len(), 0);
    assert!(!state.include_internals);
}

#[test]
fn hot_state_holds_nodes_and_topics() {
    let topic = Ros2Topic {
        name: "/chatter".to_string(),
        node_name: "talker".to_string(),
        topic_type: "T".to_string(),
        subscribers_num: 0,
        publishers_num: 0,
    };
    let state = ros2_hot_state(vec![Ros2Node::create("talker".to_string())], vec![topic]);
    assert_eq!(state.nodes.len(), 1);
    assert_eq!(state.topics.len(), 1);
}

#[test]
fn full_state_keeps_known_packages() {
    let kept = ros2_state(vec![package("known")], vec![package("explored")], vec![], vec![]);
    assert_eq!(kept.packages.len(), 1);
    assert_eq!(kept.packages[0].name, "known");
    let explored = ros2_state(vec![], vec![package("explored")], vec![], vec![]);
    assert_eq!(explored.packages[0].name, "explored");
}

#[test]
fn membership_checks() {
    let names = vec!["talker".to_string(), "listener".to_string()];
    assert!(is_node_lifecycle("talker".to_string(), &names));
    assert!(!is_node_lifecycle("absent".to_string(), &names));
    assert!(is_node_running("listener".to_string(), &names));
    assert!(!is_node_running("absent".to_string(), &names));
}

#[test]
fn lifecycle_listing_and_package_path() {
    assert_eq!(
        lifecycled_node_names("a\nb\n"),
        vec!["a".to_string(), "b".to_string()]
    );
    assert_eq!(package_path("/opt/pkg\n".to_string()), "/opt/pkg\n");
}
