use ros2monitor::api::{Api, CommandAction};
use ros2monitor::entities::{Host, Ros2Publisher, Ros2State};
use ros2monitor::introspect::{Ros2Discoverer, Ros2DiscovererParams};
use ros2monitor::protocol::JsonProtocol;

fn api() -> Api {
    Api::new(Box::new(Ros2Discoverer::new(Ros2DiscovererParams { domain_id: 0 })))
}

fn parsed(command: &str, args: Vec<(String, String)>) -> JsonProtocol {
    let mut p = JsonProtocol::new();
    let _ = p.parse_request(command.to_string(), args);
    p
}

#[test]
fn unknown_command_yields_exact_literal() {
    let state = Ros2State::new(false);
    // A rejected command leaves the command name empty, which no route
    // matches.
    let p = parsed("definitely_not_a_command", vec![]);
    match api().handle_request(&p, &state) {
        CommandAction::Respond(s) => assert_eq!(s, "Unknown request"),
        _ => panic!("expected a response"),
    }
}

#[test]
fn shutdown_without_node_name_reports_failure() {
    let state = Ros2State::new(false);
    let p = parsed("shutdown", vec![]);
    match api().handle_request(&p, &state) {
        CommandAction::Respond(s) => {
            let v: serde_json::Value = serde_json::from_str(&s).unwrap();
            assert_eq!(v["result"], "failure");
            assert!(v["msg"].as_str().unwrap().contains("node_name"));
        },
        _ => panic!("expected a response"),
    }
}

#[test]
fn shutdown_with_node_name_asks_for_the_stop() {
    let state = Ros2State::new(false);
    let p = parsed(
        "shutdown",
        vec![("node_name".to_string(), "talker".to_string())],
    );
    match api().handle_request(&p, &state) {
        CommandAction::ShutdownNode(n) => assert_eq!(n, "talker"),
        _ => panic!("expected a shutdown action"),
    }
}

#[test]
fn shutdown_with_empty_node_name_yields_empty_response() {
    let state = Ros2State::new(false);
    let p = parsed("shutdown", vec![("node_name".to_string(), "".to_string())]);
    match api().handle_request(&p, &state) {
        CommandAction::Respond(s) => assert_eq!(s, ""),
        _ => panic!("expected a response"),
    }
}

#[test]
fn state_after_one_publisher() {
    // End to end: one added publisher shows up as one node and one topic
    // with a publisher count of one.
    let mut state = Ros2State::new(false);
    state.add_publisher(Ros2Publisher {
        topic_name: "/chatter".to_string(),
        guid: "01.0f.c4".to_string(),
        node_name: "talker".to_string(),
        topic_type: "std_msgs/String".to_string(),
        host: Host::default(),
    });
    let p = parsed("state", vec![]);
    let response = match api().handle_request(&p, &state) {
        CommandAction::Respond(s) => s,
        _ => panic!("expected a response"),
    };
    let v: serde_json::Value = serde_json::from_str(&response).unwrap();
    let nodes = v["nodes"].as_array().unwrap();
    assert_eq!(nodes.len(), 1);
    assert_eq!(nodes[0]["name"], "talker");
    let topics = v["topics"].as_array().unwrap();
    assert_eq!(topics.len(), 1);
    assert_eq!(topics[0]["name"], "/chatter");
    assert_eq!(topics[0]["publishers_num"], 1);
    assert_eq!(topics[0]["subscribers_num"], 0);
}

#[test]
fn state_json_escapes_special_characters() {
    let mut state = Ros2State::new(false);
    state.add_publisher(Ros2Publisher {
        topic_name: "/a\"b\\c\nd".to_string(),
        guid: "g".to_string(),
        node_name: "weird\tname".to_string(),
        topic_type: "t".to_string(),
        host: Host::default(),
    });
    let response = api().ros2_state_json(&state);
    let v: serde_json::Value = serde_json::from_str(&response).unwrap();
    assert_eq!(v["nodes"][0]["name"], "weird\tname");
    assert_eq!(v["topics"][0]["name"], "/a\"b\\c\nd");
}

#[test]
fn stub_commands_answer_empty() {
    let state = Ros2State::new(false);
    for cmd in ["configure", "launch", "cleanup"] {
        let p = parsed(cmd, vec![("node_name".to_string(), "x".to_string())]);
        match api().handle_request(&p, &state) {
            CommandAction::Respond(s) => assert_eq!(s, ""),
            _ => panic!("expected a response"),
        }
    }
}

#[test]
fn start_node_accumulates_missing_arguments() {
    let state = Ros2State::new(false);
    let mut p = JsonProtocol::new();
    p.command = "launch".to_string();
    p.arguments = vec![("node_name".to_string(), "talker".to_string())];
    let r = api().start_node_command(&p, &state);
    let expected = "{\"result\": \"failure\", \"msg\": \
        You must provide package_name argument for command start_node\n\
        You must provide host argument for command start_node\n}\\n";
    assert_eq!(r, expected);
}

#[test]
fn start_node_with_all_arguments_succeeds() {
    let state = Ros2State::new(false);
    let mut p = JsonProtocol::new();
    p.command = "launch".to_string();
    p.arguments = vec![
        ("package_name".to_string(), "demo".to_string()),
        ("node_name".to_string(), "talker".to_string()),
        ("host".to_string(), "localhost".to_string()),
    ];
    let r = api().start_node_command(&p, &state);
    assert_eq!(r, "{\"result\": \"success\", \"msg\": \"\"}\\n");
}

#[test]
fn rename_topic_reports_missing_arguments() {
    let state = Ros2State::new(false);
    let p = parsed("rename_topic", vec![]);
    match api().handle_request(&p, &state) {
        CommandAction::Respond(s) => {
            assert_eq!(
                s,
                "{\"result\": \"failure\", \"msg\": \"You must provide new_topic_name argument for command rename_topic\"}"
            );
        },
        _ => panic!("expected a response"),
    }
    let p2 = parsed(
        "rename_topic",
        vec![("new_topic_name".to_string(), "/chatter".to_string())],
    );
    match api().rename_topic_command(&p2, &state) {
        CommandAction::Respond(s) => {
            assert_eq!(
                s,
                "{\"result\": \"failure\", \"msg\": \"You must provide old_topic_name argument for command rename_topic\"}"
            );
        },
        _ => panic!("expected a response"),
    }
}

#[test]
fn rename_topic_names_the_owning_node() {
    let mut state = Ros2State::new(false);
    state.add_publisher(Ros2Publisher {
        topic_name: "/chatter".to_string(),
        guid: "g".to_string(),
        node_name: "talker".to_string(),
        topic_type: "std_msgs/String".to_string(),
        host: Host::default(),
    });
    let p = parsed(
        "rename_topic",
        vec![
            ("new_topic_name".to_string(), "/chatter".to_string()),
            ("old_topic_name".to_string(), "/old_chatter".to_string()),
        ],
    );
    match api().handle_request(&p, &state) {
        CommandAction::RenameTopic(node, old, new) => {
            assert_eq!(node, "talker");
            assert_eq!(old, "/old_chatter");
            assert_eq!(new, "/chatter");
        },
        _ => panic!("expected a rename action"),
    }
}

#[test]
fn rename_topic_rejects_other_argument_names() {
    let mut p = JsonProtocol::new();
    let args = vec![("node_name".to_string(), "talker".to_string())];
    let r = p.parse_request("rename_topic".to_string(), args);
    let expected = "Argument node_name is not allowed for command rename_topic. \
        Allowed arguments for this command: [\"old_topic_name\", \"new_topic_name\"]";
    assert_eq!(r.unwrap_err(), expected);
}

#[test]
fn protocol_accepts_known_commands_and_arguments() {
    let mut p = JsonProtocol::new();
    assert!(p.parse_request("state".to_string(), vec![]).is_ok());
    assert_eq!(p.command, "state");
    let mut p2 = JsonProtocol::new();
    let args = vec![("node_name".to_string(), "talker".to_string())];
    assert!(p2.parse_request("shutdown".to_string(), args).is_ok());
    assert_eq!(p2.command, "shutdown");
    assert_eq!(p2.arguments.len(), 1);
    assert_eq!(p2.arguments[0].0, "node_name");
    assert_eq!(p2.arguments[0].1, "talker");
}

#[test]
fn protocol_rejects_unknown_command_with_exact_message() {
    let mut p = JsonProtocol::new();
    let r = p.parse_request("bogus".to_string(), vec![]);
    let expected = "You must use one of the following supported commands: \
        [\"state\", \"shutdown\", \"rename_topic\", \"launch\", \"cleanup\", \"configure\"]. \
        Command bogus is not supported";
    assert_eq!(r.unwrap_err(), expected);
}

#[test]
fn protocol_rejects_disallowed_argument_with_exact_message() {
    let mut p = JsonProtocol::new();
    let args = vec![("node_name".to_string(), "x".to_string())];
    let r = p.parse_request("state".to_string(), args);
    let expected = "Argument node_name is not allowed for command state. \
        Allowed arguments for this command: []";
    assert_eq!(r.unwrap_err(), expected);
}

#[test]
fn protocol_newest_argument_value_wins() {
    let mut p = JsonProtocol::new();
    let args = vec![
        ("node_name".to_string(), "first".to_string()),
        ("node_name".to_string(), "second".to_string()),
    ];
    assert!(p.parse_request("shutdown".to_string(), args).is_ok());
    assert_eq!(p.arguments.len(), 1);
    assert_eq!(p.arguments[0].1, "second");
}
