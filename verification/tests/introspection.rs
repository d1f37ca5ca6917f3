use ros2monitor::introspect::{Ros2Discoverer, Ros2DiscovererParams};
use ros2monitor::entities::Ros2NodeState;
use ros2monitor::strutil::{split_lines, str_trim};
use ros2monitor::utils;

fn discoverer() -> Ros2Discoverer {
    Ros2Discoverer::new(Ros2DiscovererParams { domain_id: 0 })
}

#[test]
fn node_name_by_gid_test() {
    //let ros2_discoverer = Ros2Discoverer::new(Ros2DiscovererParams { domain_id: 0, interval: 1000 });
    //ros2_discoverer.node_name_by_gid("/turtle1/cmd_vel".to_string(), "0x7f0000000001".to_string());
}

#[test]
fn node_name_by_gid_finds_the_owner() {
    let info = "Type: std_msgs/msg/String\n\
        Publisher count: 1\n\
        Node name: talker\n\
        Node namespace: /\n\
        Topic type: std_msgs/msg/String\n\
        GID: 01.0f.ca.fe\n\
        Node name: listener\n\
        GID: 02.03.04.05\n";
    let d = discoverer();
    assert_eq!(d.node_name_by_gid("01".to_string(), info), "talker");
    assert_eq!(d.node_name_by_gid("02.03".to_string(), info), "listener");
    assert_eq!(d.node_name_by_gid("ff".to_string(), info), "");
}

#[test]
fn explore_topics_reads_node_and_type() {
    let names = vec!["/chatter".to_string(), "/ignored".to_string()];
    let infos = vec![
        "Node name: talker\nNode namespace: /\nTopic type: std_msgs/msg/String\n".to_string(),
        "no labels here\n".to_string(),
    ];
    let topics = discoverer().explore_topics(names, infos);
    assert_eq!(topics.len(), 1);
    assert_eq!(topics[0].name, "/chatter");
    assert_eq!(topics[0].node_name, "talker");
    assert_eq!(topics[0].topic_type, "std_msgs/msg/String");
    assert_eq!(topics[0].publishers_num, 0);
    assert_eq!(topics[0].subscribers_num, 0);
}

#[test]
fn explore_node_reads_every_section() {
    let info = "/talker\n\
        \x20 Subscribers:\n\
        \x20   /chatter: std_msgs/msg/String\n\
        \x20 Publishers:\n\
        \x20   /rosout: rcl_interfaces/msg/Log\n\
        \x20   /parameter_events: rcl_interfaces/msg/ParameterEvent\n\
        \x20 Service Servers:\n\
        \x20   /talker/describe_parameters: rcl_interfaces/srv/DescribeParameters\n\
        \x20 Service Clients:\n\
        \x20 Action Servers:\n\
        \x20 Action Clients:\n";
    let lifecycled = vec!["other".to_string()];
    let node = discoverer()
        .explore_node("talker".to_string(), info.to_string(), &lifecycled)
        .unwrap();
    assert_eq!(node.name, "talker");
    assert_eq!(node.package_name, "package");
    assert_eq!(node.subscribers.len(), 1);
    assert_eq!(node.subscribers[0].topic_name, "/chatter");
    assert_eq!(node.subscribers[0].topic_type, "/chatter");
    assert_eq!(node.subscribers[0].guid, "unknown");
    assert_eq!(node.publishers.len(), 2);
    assert_eq!(node.publishers[1].topic_name, "/parameter_events");
    assert_eq!(node.service_servers.len(), 1);
    assert_eq!(node.service_servers[0].name, "/talker/describe_parameters");
    assert_eq!(node.service_clients.len(), 0);
    assert_eq!(node.action_servers.len(), 0);
    assert_eq!(node.action_clients.len(), 0);
    assert!(!node.is_lifecycle);
    assert!(matches!(node.state, Ros2NodeState::NonLifecycle));
}

#[test]
fn explore_node_reports_failed_lookup() {
    let lifecycled: Vec<String> = vec![];
    let r = discoverer().explore_node(
        "gone".to_string(),
        "Unable to find node gone".to_string(),
        &lifecycled,
    );
    assert_eq!(r.unwrap_err(), "Unable to find node gone");
}

#[test]
fn lifecycle_membership_marks_nodes() {
    let info = "/talker\n\
        \x20 Subscribers:\n\
        \x20 Publishers:\n\
        \x20 Service Servers:\n\
        \x20 Service Clients:\n\
        \x20 Action Servers:\n\
        \x20 Action Clients:\n";
    let lifecycled = vec!["talker".to_string()];
    let node = discoverer()
        .explore_node("talker".to_string(), info.to_string(), &lifecycled)
        .unwrap();
    assert!(node.is_lifecycle);
    assert!(matches!(node.state, Ros2NodeState::Active));
}

#[test]
fn shutdown_response_reflects_the_control_exit() {
    let d = discoverer();
    assert_eq!(
        d.shutdown_node_response("talker".to_string(), true, true),
        "{\"result\": \"success\"}"
    );
    assert_eq!(
        d.shutdown_node_response("talker".to_string(), true, false),
        "{\"result\": \"failure\", \"msg\": \"Unable to set shutdown state for node talker\"}"
    );
    assert_eq!(
        d.shutdown_node_response("talker".to_string(), false, true),
        "{\"result\": \"success\"}"
    );
    // A failed kill is surfaced as the failure envelope.
    let node_name = "node_name".to_string();
    let expected_response = format!(
        "{{\"result\": \"failure\", \"msg\": \"Unable to kill node {}\"}}",
        node_name
    );
    let response = d.shutdown_node_response(node_name, false, false);
    assert_eq!(response, expected_response);
    let v: serde_json::Value = serde_json::from_str(&response).unwrap();
    assert_eq!(v["result"], "failure");
}

#[test]
fn listings_split_into_lines() {
    let d = discoverer();
    let names = d.ros2_node_names("/talker\n/listener\n");
    assert_eq!(names, vec!["/talker".to_string(), "/listener".to_string()]);
    assert_eq!(d.ros2_topic_names("").len(), 0);
    let crlf = d.ros2_package_names("a\r\nb");
    assert_eq!(crlf, vec!["a".to_string(), "b".to_string()]);
}

#[test]
fn explore_packages_collects_executables() {
    let names = vec!["demo_nodes".to_string(), "empty_pkg".to_string()];
    let paths = vec!["/opt/demo_nodes".to_string(), "/opt/empty_pkg".to_string()];
    let info = vec![
        "/install/demo_nodes/lib/talker".to_string(),
        "/install/demo_nodes/lib/listener".to_string(),
        "/install/other/lib/tool".to_string(),
    ];
    let packages = discoverer().explore_packages(names, paths, &info);
    assert_eq!(packages.len(), 1);
    assert_eq!(packages[0].name, "demo_nodes");
    assert_eq!(packages[0].path, "/opt/demo_nodes");
    assert_eq!(packages[0].executables.len(), 2);
    assert_eq!(packages[0].executables[0].name, "talker");
    assert_eq!(packages[0].executables[0].path, "/install/demo_nodes/lib/talker");
    assert_eq!(packages[0].executables[1].name, "listener");
}

#[test]
fn lifecycle_state_reads_the_first_word() {
    assert!(matches!(
        utils::lifecycle_state("inactive [2]\n"),
        Ros2NodeState::Inactive
    ));
    assert!(matches!(
        utils::lifecycle_state("  active\n"),
        Ros2NodeState::Active
    ));
    assert!(matches!(
        utils::lifecycle_state("unconfigured"),
        Ros2NodeState::Unconfigured
    ));
    assert!(matches!(
        utils::lifecycle_state("shutdown now"),
        Ros2NodeState::Shutdown
    ));
    assert!(matches!(
        utils::lifecycle_state("borked"),
        Ros2NodeState::NonLifecycle
    ));
}

#[test]
fn trimming_and_line_splitting() {
    assert_eq!(str_trim("  spaced out \t"), "spaced out");
    assert_eq!(str_trim(""), "");
    let ls = split_lines("one\ntwo\r\nthree\n");
    assert_eq!(ls, vec!["one".to_string(), "two".to_string(), "three".to_string()]);
    // A carriage return is consumed only as part of a "\r\n" ending.
    assert_eq!(split_lines("a\r"), vec!["a\r".to_string()]);
    assert_eq!(split_lines("x\r\ny\r"), vec!["x".to_string(), "y\r".to_string()]);
    assert_eq!("a\r".lines().collect::<Vec<_>>(), vec!["a\r"]);
}
