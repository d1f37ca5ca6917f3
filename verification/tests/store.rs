use ros2monitor::entities::{Host, Ros2Node, Ros2Publisher, Ros2State, Ros2Subscriber};
use ros2monitor::json::render_state;

fn test_publisher() -> Ros2Publisher {
    Ros2Publisher {
        topic_name: "test_name".to_string(),
        guid: "test_guid".to_string(),
        node_name: "test_node".to_string(),
        topic_type: "test_type".to_string(),
        host: Host::default(),
    }
}

fn test_subscriber() -> Ros2Subscriber {
    Ros2Subscriber {
        topic_name: "test_name".to_string(),
        guid: "test_guid".to_string(),
        node_name: "test_node".to_string(),
        topic_type: "test_type".to_string(),
        host: Host::default(),
    }
}

#[test]
fn add_node() {
    let mut state = Ros2State::new(false);
    assert_eq!(state.has_node("test_node".to_string()), false);
    let test_node = Ros2Node::create("test_node".to_string());
    state.add_node(test_node);
    assert_eq!(state.has_node("test_node".to_string()), true);
}

#[test]
fn add_publisher() {
    let mut state = Ros2State::new(false);
    let test_publisher: Ros2Publisher = test_publisher();
    assert_eq!(state.has_publisher(test_publisher.clone()), false);
    state.add_publisher(test_publisher.clone());
    assert_eq!(state.has_publisher(test_publisher.clone()), true);
}

#[test]
fn add_subscriber() {
    let mut state = Ros2State::new(false);
    let test_subscriber: Ros2Subscriber = test_subscriber();
    assert_eq!(state.has_subscriber(test_subscriber.clone()), false);
    state.add_subscriber(test_subscriber.clone());
    assert_eq!(state.has_subscriber(test_subscriber.clone()), true);
}

#[test]
fn remove_publisher() {
    let mut state = Ros2State::new(false);
    let test_publisher: Ros2Publisher = test_publisher();
    assert_eq!(state.has_publisher(test_publisher.clone()), false);
    state.add_publisher(test_publisher.clone());
    assert_eq!(state.has_publisher(test_publisher.clone()), true);
    state.remove_publisher(test_publisher.clone());
    assert_eq!(state.has_publisher(test_publisher.clone()), false);
}

#[test]
fn remove_subscriber() {
    let mut state = Ros2State::new(false);
    let test_subscriber: Ros2Subscriber = test_subscriber();
    assert_eq!(state.has_subscriber(test_subscriber.clone()), false);
    state.add_subscriber(test_subscriber.clone());
    assert_eq!(state.has_subscriber(test_subscriber.clone()), true);
    state.remove_subscriber(test_subscriber.clone());
    assert_eq!(state.has_subscriber(test_subscriber.clone()), false);
}

#[test]
fn is_internal_ignores_one_leading_slash() {
    let state = Ros2State::new(false);
    assert_eq!(state.is_internal("parameter_events".to_string()), true);
    assert_eq!(state.is_internal("/parameter_events".to_string()), true);
    assert_eq!(state.is_internal("rosout".to_string()), true);
    assert_eq!(state.is_internal("/rosout".to_string()), true);
    assert_eq!(state.is_internal("chatter".to_string()), false);
    assert_eq!(state.is_internal("/chatter".to_string()), false);
    // Only one slash is ever stripped.
    assert_eq!(state.is_internal("//parameter_events".to_string()), false);
}

#[test]
fn add_then_remove_publisher_restores_state() {
    // A node and a topic with a publisher counter of zero already exist;
    // adding a publisher and removing it again restores the store exactly.
    let mut state = Ros2State::new(false);
    let subscriber = Ros2Subscriber {
        topic_name: "/chatter".to_string(),
        guid: "g0".to_string(),
        node_name: "talker".to_string(),
        topic_type: "std_msgs/String".to_string(),
        host: Host::default(),
    };
    state.add_subscriber(subscriber);
    assert_eq!(state.topics.len(), 1);
    assert_eq!(state.topics[0].publishers_num, 0);
    let before = render_state(&state);

    let publisher = Ros2Publisher {
        topic_name: "/chatter".to_string(),
        guid: "g1".to_string(),
        node_name: "talker".to_string(),
        topic_type: "std_msgs/String".to_string(),
        host: Host::default(),
    };
    state.add_publisher(publisher.clone());
    assert_ne!(render_state(&state), before);
    state.remove_publisher(publisher);
    assert_eq!(render_state(&state), before);
}

#[test]
fn removed_publisher_counter_is_clamped_to_zero() {
    // The removal clamps the counter to min(current, 0); after two
    // additions and one removal the counter reads zero, not one.
    let mut state = Ros2State::new(false);
    let mut p1 = test_publisher();
    p1.guid = "g1".to_string();
    let mut p2 = test_publisher();
    p2.guid = "g2".to_string();
    state.add_publisher(p1.clone());
    state.add_publisher(p2);
    assert_eq!(state.topics.len(), 1);
    assert_eq!(state.topics[0].publishers_num, 2);
    state.remove_publisher(p1);
    assert_eq!(state.topics.len(), 1);
    assert_eq!(state.topics[0].publishers_num, 0);
}

#[test]
fn remove_publisher_without_match_is_a_no_op() {
    let mut state = Ros2State::new(false);
    let before = render_state(&state);
    state.remove_publisher(test_publisher());
    assert_eq!(render_state(&state), before);
}

#[test]
fn topic_with_spent_counters_is_deleted_on_next_removal() {
    // After one removal the counters are clamped to zero; a further
    // removal that still finds an endpoint record deletes the topic.
    let mut state = Ros2State::new(false);
    let mut s1 = test_subscriber();
    s1.guid = "g1".to_string();
    let mut s2 = test_subscriber();
    s2.guid = "g2".to_string();
    state.add_subscriber(s1.clone());
    state.add_subscriber(s2);
    assert_eq!(state.topics[0].subscribers_num, 2);
    state.remove_subscriber(s1.clone());
    assert_eq!(state.topics.len(), 1);
    assert_eq!(state.topics[0].subscribers_num, 0);
    state.remove_subscriber(s1);
    assert_eq!(state.topics.len(), 0);
}

#[test]
fn packages_and_topics_can_be_added_and_removed() {
    let mut state = Ros2State::new(false);
    let pkg = ros2monitor::entities::Ros2Package {
        name: "demo".to_string(),
        path: "/opt/demo".to_string(),
        executables: vec![],
    };
    assert!(!state.has_package("demo".to_string()));
    state.add_package(pkg.clone());
    assert!(state.has_package("demo".to_string()));
    // Adding the same package again is a no-op.
    state.add_package(pkg.clone());
    assert_eq!(state.packages.len(), 1);
    state.remove_package(pkg);
    assert!(!state.has_package("demo".to_string()));

    let topic = ros2monitor::entities::Ros2Topic {
        name: "/chatter".to_string(),
        node_name: "talker".to_string(),
        topic_type: "T".to_string(),
        subscribers_num: 0,
        publishers_num: 0,
    };
    state.add_topic(topic.clone());
    assert_eq!(state.topics.len(), 1);
    // Removing a topic directly is not supported.
    state.remove_topic(topic);
    assert_eq!(state.topics.len(), 1);

    assert!(!state.contains_node("talker".to_string()));
}

#[test]
fn remove_node_drops_its_topics() {
    let mut state = Ros2State::new(false);
    state.add_publisher(test_publisher());
    assert_eq!(state.topics.len(), 1);
    let node = Ros2Node::create("test_node".to_string());
    state.remove_node(node);
    assert_eq!(state.nodes.len(), 0);
    assert_eq!(state.topics.len(), 0);
}

#[test]
fn suppressed_internal_node_still_counts_topic() {
    // A node name with the internal marker is not added to the projection,
    // but the topic counter is still kept.
    let mut state = Ros2State::new(false);
    let mut p = test_publisher();
    p.node_name = "_hidden".to_string();
    state.add_publisher(p);
    assert_eq!(state.nodes.len(), 0);
    assert_eq!(state.topics.len(), 1);
    assert_eq!(state.topics[0].publishers_num, 1);
}

#[test]
fn internal_subscriber_still_attached_to_an_existing_node() {
    // The documented asymmetry: an excluded internal-topic subscriber is
    // still attached to the node object once the node exists, while a
    // publisher is not.
    let mut state = Ros2State::new(false);
    let mut seed = test_subscriber();
    seed.topic_name = "/chatter".to_string();
    state.add_subscriber(seed);
    assert_eq!(state.nodes.len(), 1);
    assert_eq!(state.nodes[0].subscribers.len(), 1);

    let mut internal_sub = test_subscriber();
    internal_sub.topic_name = "/rosout".to_string();
    state.add_subscriber(internal_sub);
    assert_eq!(state.nodes[0].subscribers.len(), 2);

    let mut internal_pub = test_publisher();
    internal_pub.topic_name = "/rosout".to_string();
    state.add_publisher(internal_pub);
    assert_eq!(state.nodes[0].publishers.len(), 0);
}

#[test]
fn internal_topic_entry_not_attached_without_include_internals() {
    let mut state = Ros2State::new(false);
    let mut p = test_publisher();
    p.topic_name = "/rosout".to_string();
    state.add_publisher(p.clone());
    // A freshly created node carries no entry for the excluded topic.
    assert_eq!(state.nodes.len(), 1);
    assert_eq!(state.nodes[0].publishers.len(), 0);
    // With internals included the entry is attached.
    let mut state2 = Ros2State::new(true);
    state2.add_publisher(p);
    assert_eq!(state2.nodes[0].publishers.len(), 1);
}
