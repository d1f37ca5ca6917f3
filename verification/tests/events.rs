use ros2monitor::discovery::{
    dispatch_event, normalize_participant, normalize_reader, normalize_writer,
    require_ros2_enabled, DiscoveryFlags, FastDDSEntity, FastDDSEvent, ParticipantData,
    ReaderData, WriterData,
};
use ros2monitor::entities::{Host, Ros2Publisher, Ros2State, Ros2Subscriber};
use ros2monitor::network::{FastDDSEndpoint, SHM_TRANSPORT, UDPV4_TRANSPORT};

fn publisher(node_name: &str) -> Ros2Publisher {
    Ros2Publisher {
        topic_name: "/chatter".to_string(),
        guid: "01.02".to_string(),
        node_name: node_name.to_string(),
        topic_type: "std_msgs/String".to_string(),
        host: Host::default(),
    }
}

#[test]
fn discovered_writer_is_added_and_published() {
    let mut state = Ros2State::new(false);
    let published = dispatch_event(
        &mut state,
        FastDDSEvent::PublisherDiscovered,
        FastDDSEntity::Publisher(publisher("talker")),
    );
    assert!(published);
    assert_eq!(state.nodes.len(), 1);
    assert_eq!(state.topics.len(), 1);
    assert_eq!(state.topics[0].publishers_num, 1);
}

#[test]
fn unresolved_events_are_dropped() {
    let mut state = Ros2State::new(false);
    assert!(!dispatch_event(
        &mut state,
        FastDDSEvent::PublisherDiscovered,
        FastDDSEntity::Publisher(publisher("")),
    ));
    assert!(!dispatch_event(
        &mut state,
        FastDDSEvent::PublisherDiscovered,
        FastDDSEntity::Publisher(publisher("_NODE_NAME_UNKNOWN_")),
    ));
    assert_eq!(state.nodes.len(), 0);
    assert_eq!(state.topics.len(), 0);
}

#[test]
fn removed_subscriber_leaves_through_the_store() {
    let mut state = Ros2State::new(false);
    let sub = Ros2Subscriber {
        topic_name: "/chatter".to_string(),
        guid: "g".to_string(),
        node_name: "listener".to_string(),
        topic_type: "std_msgs/String".to_string(),
        host: Host::default(),
    };
    assert!(dispatch_event(
        &mut state,
        FastDDSEvent::SubscriberDiscovered,
        FastDDSEntity::Subscriber(sub.clone()),
    ));
    assert_eq!(state.nodes[0].subscribers.len(), 1);
    assert!(dispatch_event(
        &mut state,
        FastDDSEvent::SubscriberRemoved,
        FastDDSEntity::Subscriber(sub),
    ));
    assert_eq!(state.nodes[0].subscribers.len(), 0);
}

#[test]
fn participant_events_are_a_no_op() {
    let mut state = Ros2State::new(false);
    let data = ParticipantData {
        guid: vec![1, 2],
        endpoint: FastDDSEndpoint { transport: SHM_TRANSPORT, addr: vec![] },
    };
    let context = normalize_participant(data);
    assert!(!dispatch_event(
        &mut state,
        FastDDSEvent::ContextDiscovered,
        FastDDSEntity::Context(context),
    ));
    assert_eq!(state.nodes.len(), 0);
}

#[test]
fn reader_records_are_normalized() {
    let data = ReaderData {
        topic_name: "rt/chatter".to_string(),
        topic_type: "std_msgs::msg::dds_::String_".to_string(),
        guid_prefix: vec![0x01, 0x0f],
        endpoint: FastDDSEndpoint { transport: UDPV4_TRANSPORT, addr: vec![192, 168, 1, 2] },
    };
    let sub = normalize_reader(data);
    assert_eq!(sub.topic_name, "/chatter");
    assert_eq!(sub.topic_type, "std_msgs::msg::dds_::String_");
    assert_eq!(sub.node_name, "unknown");
    assert_eq!(sub.guid, "01.0f");
    assert_eq!(sub.host.ip, "192.168.1.2");
    assert_eq!(sub.host.name, "unknown");
}

#[test]
fn writer_records_keep_absolute_names() {
    let data = WriterData {
        topic_name: "/already_slashed".to_string(),
        topic_type: "T".to_string(),
        guid_prefix: vec![0xff],
        endpoint: FastDDSEndpoint { transport: SHM_TRANSPORT, addr: vec![] },
    };
    let publisher = normalize_writer(data);
    assert_eq!(publisher.topic_name, "/already_slashed");
    assert_eq!(publisher.guid, "ff");
    assert_eq!(publisher.host.ip, "SHM");

    let relative = WriterData {
        topic_name: "bare".to_string(),
        topic_type: "T".to_string(),
        guid_prefix: vec![],
        endpoint: FastDDSEndpoint { transport: SHM_TRANSPORT, addr: vec![] },
    };
    assert_eq!(normalize_writer(relative).topic_name, "/bare");
}

#[test]
fn discovery_flags_combine() {
    let flags = DiscoveryFlags::enable_fastdds().union(DiscoveryFlags::enable_ros2());
    assert!(flags.contains(DiscoveryFlags::enable_fastdds()));
    assert!(flags.contains(DiscoveryFlags::enable_ros2()));
    assert!(!flags.contains(DiscoveryFlags::include_internals()));
    let all = flags.union(DiscoveryFlags::include_internals());
    assert!(all.contains(DiscoveryFlags::include_internals()));
}

#[test]
fn actions_require_the_ros2_backend() {
    assert!(require_ros2_enabled(DiscoveryFlags::enable_ros2()).is_ok());
    let refused = require_ros2_enabled(DiscoveryFlags::enable_fastdds()).unwrap_err();
    assert_eq!(
        refused,
        "You must enable ros2 support and run discovery server to perform this action"
    );
}
