//! The command dispatcher: decodes a validated command and its arguments
//! into either a complete response or an action for the node controller to
//! carry out.  Everything decidable from the request and the snapshot is
//! decided here; only process control is left to the boundary.

use vstd::prelude::*;
use vstd::string::*;
use crate::entities::{
    first_where, lemma_first_where, lemma_first_where_is, Ros2State, StateView, TopicView,
    topic_name_is,
};
use crate::introspect::Ros2Discoverer;
use crate::json::{render_state, ros2_state_json_view};
use crate::protocol::{arg_name_is, find_arg_index, JsonProtocol};
use crate::strutil::{str_eq, str_views};

verus! {

/// The command interface over the store and the node controller.
pub struct Api {
    pub ros2discoverer: Box<Ros2Discoverer>,
}

/// What the dispatcher decided: either the response is complete, or the
/// boundary must stop a node or restart one under a topic remap and build
/// the response from what the controller reports.
pub enum CommandAction {
    Respond(String),
    ShutdownNode(String),
    RenameTopic(String, String, String),
}

#[verifier::ext_equal]
pub ghost enum ActionView {
    Respond(Seq<char>),
    ShutdownNode(Seq<char>),
    RenameTopic(Seq<char>, Seq<char>, Seq<char>),
}

impl View for CommandAction {
    type V = ActionView;

    open spec fn view(&self) -> ActionView {
        match self {
            CommandAction::Respond(s) => ActionView::Respond(s@),
            CommandAction::ShutdownNode(n) => ActionView::ShutdownNode(n@),
            CommandAction::RenameTopic(n, o, t) => ActionView::RenameTopic(n@, o@, t@),
        }
    }
}

/// An argument of that name was sent.
pub open spec fn has_arg(args: Seq<(String, String)>, name: Seq<char>) -> bool {
    first_where(args, arg_name_is(name)) != -1
}

/// The value sent under that name.
pub open spec fn arg_value_of(args: Seq<(String, String)>, name: Seq<char>) -> Seq<char>
    recommends
        has_arg(args, name),
{
    args[first_where(args, arg_name_is(name))].1@
}

/// Looks an argument up by name.
fn get_arg(args: &Vec<(String, String)>, name: &str) -> (r: Option<String>)
    ensures
        match r {
            Some(v) => has_arg(args@, name@) && v@ == arg_value_of(args@, name@),
            None => !has_arg(args@, name@),
        },
{
    match find_arg_index(args, name) {
        Some(i) => Some(args[i].1.clone()),
        None => None,
    }
}

// ---------------------------------------------------------------------------
// What each command returns
// ---------------------------------------------------------------------------

/// `shutdown`: a missing node name is answered with a failure envelope, an
/// empty one with empty text, and otherwise the named node is to be
/// stopped.
pub open spec fn spec_shutdown_command(args: Seq<(String, String)>) -> ActionView {
    if !has_arg(args, "node_name"@) {
        ActionView::Respond(
            "{\"result\": \"failure\", \"msg\": \"You must provide node_name argument for command kill_node\"}"@,
        )
    } else if arg_value_of(args, "node_name"@).len() == 0 {
        ActionView::Respond(Seq::<char>::empty())
    } else {
        ActionView::ShutdownNode(arg_value_of(args, "node_name"@))
    }
}

/// `rename_topic`: both topic names must be sent; the node owning the
/// topic of the new name is to be restarted under a remap.
pub open spec fn spec_rename_topic_command(
    args: Seq<(String, String)>,
    st: StateView,
) -> ActionView {
    if !has_arg(args, "new_topic_name"@) {
        ActionView::Respond(
            "{\"result\": \"failure\", \"msg\": \"You must provide new_topic_name argument for command rename_topic\"}"@,
        )
    } else if !has_arg(args, "old_topic_name"@) {
        ActionView::Respond(
            "{\"result\": \"failure\", \"msg\": \"You must provide old_topic_name argument for command rename_topic\"}"@,
        )
    } else {
        let ti = first_where(st.topics, topic_name_is(arg_value_of(args, "new_topic_name"@)));
        ActionView::RenameTopic(
            st.topics[ti].node_name,
            arg_value_of(args, "old_topic_name"@),
            arg_value_of(args, "new_topic_name"@),
        )
    }
}

/// `start_node`: every missing argument is reported in one accumulated
/// failure envelope.
pub open spec fn spec_start_node_response(args: Seq<(String, String)>) -> Seq<char> {
    let m1 = !has_arg(args, "package_name"@);
    let m2 = !has_arg(args, "node_name"@);
    let m3 = !has_arg(args, "host"@);
    let error_msg = (if m1 {
        "You must provide package_name argument for command start_node\n"@
    } else {
        Seq::<char>::empty()
    }) + (if m2 {
        "You must provide node_name argument for command start_node\n"@
    } else {
        Seq::<char>::empty()
    }) + (if m3 {
        "You must provide host argument for command start_node\n"@
    } else {
        Seq::<char>::empty()
    });
    if m1 || m2 || m3 {
        "{\"result\": \"failure\", \"msg\": "@ + error_msg + "}\\n"@
    } else {
        "{\"result\": \"success\", \"msg\": \"\"}\\n"@
    }
}

/// The routing table of `handle_request`.
pub open spec fn spec_handle_request(
    command: Seq<char>,
    args: Seq<(String, String)>,
    st: StateView,
) -> ActionView {
    if command == "state"@ {
        ActionView::Respond(ros2_state_json_view(st))
    } else if command == "shutdown"@ {
        spec_shutdown_command(args)
    } else if command == "configure"@ {
        ActionView::Respond(Seq::<char>::empty())
    } else if command == "launch"@ {
        ActionView::Respond(Seq::<char>::empty())
    } else if command == "cleanup"@ {
        ActionView::Respond(Seq::<char>::empty())
    } else if command == "rename_topic"@ {
        spec_rename_topic_command(args, st)
    } else {
        ActionView::Respond("Unknown request"@)
    }
}

impl Api {
    pub fn new(ros2discoverer: Box<Ros2Discoverer>) -> (r: Api)
        ensures
            r.ros2discoverer == ros2discoverer,
    {
        Api { ros2discoverer }
    }

    /// The serialized snapshot.
    pub fn ros2_state_json(&self, state: &Ros2State) -> (r: String)
        ensures
            r@ == ros2_state_json_view(state@),
    {
        render_state(state)
    }

    /// `state`: the serialized current snapshot.
    pub fn state_command(&self, _request: &JsonProtocol, current_state: &Ros2State) -> (r: String)
        ensures
            r@ == ros2_state_json_view(current_state@),
    {
        self.ros2_state_json(current_state)
    }

    /// `shutdown`: see `spec_shutdown_command`.
    pub fn shutdown_node_command(&self, request: &JsonProtocol) -> (r: CommandAction)
        ensures
            r@ == spec_shutdown_command(request.arguments@),
    {
        match get_arg(&request.arguments, "node_name") {
            None => CommandAction::Respond(
                String::from_str(
                    "{\"result\": \"failure\", \"msg\": \"You must provide node_name argument for command kill_node\"}",
                ),
            ),
            Some(node_name) => {
                if node_name.as_str().unicode_len() == 0 {
                    CommandAction::Respond(String::new())
                } else {
                    CommandAction::ShutdownNode(node_name)
                }
            },
        }
    }

    /// `rename_topic`: see `spec_rename_topic_command`.  The topic of the
    /// new name must be in the store when both names are sent.
    pub fn rename_topic_command(&self, request: &JsonProtocol, current_state: &Ros2State) -> (r:
        CommandAction)
        requires
            has_arg(request.arguments@, "new_topic_name"@) && has_arg(
                request.arguments@,
                "old_topic_name"@,
            ) ==> first_where(
                current_state@.topics,
                topic_name_is(arg_value_of(request.arguments@, "new_topic_name"@)),
            ) != -1,
        ensures
            r@ == spec_rename_topic_command(request.arguments@, current_state@),
    {
        let new_topic_name = match get_arg(&request.arguments, "new_topic_name") {
            None => {
                return CommandAction::Respond(
                    String::from_str(
                        "{\"result\": \"failure\", \"msg\": \"You must provide new_topic_name argument for command rename_topic\"}",
                    ),
                );
            },
            Some(v) => v,
        };
        let old_topic_name = match get_arg(&request.arguments, "old_topic_name") {
            None => {
                return CommandAction::Respond(
                    String::from_str(
                        "{\"result\": \"failure\", \"msg\": \"You must provide old_topic_name argument for command rename_topic\"}",
                    ),
                );
            },
            Some(v) => v,
        };
        // The node owning the topic of the new name.
        let n = current_state.topics.len();
        let mut i: usize = 0;
        while i < n
            invariant
                0 <= i <= n,
                n == current_state@.topics.len(),
                has_arg(request.arguments@, "new_topic_name"@),
                has_arg(request.arguments@, "old_topic_name"@),
                new_topic_name@ == arg_value_of(request.arguments@, "new_topic_name"@),
                old_topic_name@ == arg_value_of(request.arguments@, "old_topic_name"@),
                forall|j: int|
                    0 <= j < i ==> !topic_name_is(new_topic_name@)(current_state@.topics[j]),
            decreases n - i,
        {
            if str_eq(current_state.topics[i].name.as_str(), new_topic_name.as_str()) {
                proof {
                    lemma_first_where_is(
                        current_state@.topics,
                        topic_name_is(new_topic_name@),
                        i as int,
                    );
                }
                let node_name = current_state.topics[i].node_name.clone();
                proof {
                    assert(has_arg(request.arguments@, "new_topic_name"@));
                    assert(has_arg(request.arguments@, "old_topic_name"@));
                    assert(new_topic_name@ == arg_value_of(request.arguments@, "new_topic_name"@));
                    let ti = first_where(
                        current_state@.topics,
                        topic_name_is(arg_value_of(request.arguments@, "new_topic_name"@)),
                    );
                    assert(ti == i as int);
                    assert(node_name@ == current_state@.topics[ti].node_name);
                    assert(spec_rename_topic_command(request.arguments@, current_state@)
                        == ActionView::RenameTopic(
                        current_state@.topics[ti].node_name,
                        arg_value_of(request.arguments@, "old_topic_name"@),
                        arg_value_of(request.arguments@, "new_topic_name"@),
                    ));
                }
                return CommandAction::RenameTopic(node_name, old_topic_name, new_topic_name);
            }
            i = i + 1;
        }
        proof {
            lemma_first_where(current_state@.topics, topic_name_is(new_topic_name@));
            assert(false);
        }
        CommandAction::Respond(String::new())
    }

    /// `start_node`: see `spec_start_node_response`.
    pub fn start_node_command(&self, request: &JsonProtocol, _current_state: &Ros2State) -> (r:
        String)
        ensures
            r@ == spec_start_node_response(request.arguments@),
    {
        let mut error: bool = false;
        let mut error_msg: String = String::new();
        if get_arg(&request.arguments, "package_name").is_none() {
            error = true;
            error_msg.append("You must provide package_name argument for command start_node\n");
        }
        if get_arg(&request.arguments, "node_name").is_none() {
            error = true;
            error_msg.append("You must provide node_name argument for command start_node\n");
        }
        if get_arg(&request.arguments, "host").is_none() {
            error = true;
            error_msg.append("You must provide host argument for command start_node\n");
        }
        if error {
            let mut r = String::from_str("{\"result\": \"failure\", \"msg\": ");
            r.append(error_msg.as_str());
            r.append("}\\n");
            proof {
                assert(r@ =~= spec_start_node_response(request.arguments@));
            }
            r
        } else {
            let r = String::from_str("{\"result\": \"success\", \"msg\": \"\"}\\n");
            proof {
                assert(Seq::<char>::empty() + Seq::<char>::empty() + Seq::<char>::empty()
                    =~= Seq::<char>::empty());
            }
            r
        }
    }

    /// `configure`: a deliberate extension point, answered with empty text.
    pub fn configure_node_command(&self, _request: &JsonProtocol, _current_state: &Ros2State)
        -> (r: String)
        ensures
            r@ == Seq::<char>::empty(),
    {
        String::new()
    }

    /// `launch`: a deliberate extension point, answered with empty text.
    pub fn launch_node_command(&self, _request: &JsonProtocol, _current_state: &Ros2State) -> (r:
        String)
        ensures
            r@ == Seq::<char>::empty(),
    {
        String::new()
    }

    /// `cleanup`: a deliberate extension point, answered with empty text.
    pub fn cleanup_node_command(&self, _request: &JsonProtocol, _current_state: &Ros2State) -> (r:
        String)
        ensures
            r@ == Seq::<char>::empty(),
    {
        String::new()
    }

    /// Routes a validated request: `state` and the stubs are answered
    /// outright, `shutdown` and `rename_topic` become controller actions,
    /// an unknown command is answered with exactly `Unknown request`.  A
    /// rename naming both topics must name a topic that is in the store.
    pub fn handle_request(&self, parsed: &JsonProtocol, current_state: &Ros2State) -> (r:
        CommandAction)
        requires
            parsed.command@ == "rename_topic"@ && has_arg(parsed.arguments@, "new_topic_name"@)
                && has_arg(parsed.arguments@, "old_topic_name"@) ==> first_where(
                current_state@.topics,
                topic_name_is(arg_value_of(parsed.arguments@, "new_topic_name"@)),
            ) != -1,
        ensures
            r@ == spec_handle_request(parsed.command@, parsed.arguments@, current_state@),
    {
        if str_eq(parsed.command.as_str(), "state") {
            CommandAction::Respond(self.state_command(parsed, current_state))
        } else if str_eq(parsed.command.as_str(), "shutdown") {
            self.shutdown_node_command(parsed)
        } else if str_eq(parsed.command.as_str(), "configure") {
            CommandAction::Respond(self.configure_node_command(parsed, current_state))
        } else if str_eq(parsed.command.as_str(), "launch") {
            CommandAction::Respond(self.launch_node_command(parsed, current_state))
        } else if str_eq(parsed.command.as_str(), "cleanup") {
            CommandAction::Respond(self.cleanup_node_command(parsed, current_state))
        } else if str_eq(parsed.command.as_str(), "rename_topic") {
            self.rename_topic_command(parsed, current_state)
        } else {
            CommandAction::Respond(String::from_str("Unknown request"))
        }
    }
}

impl Clone for Api {
    fn clone(&self) -> (r: Self)
        ensures
            r.ros2discoverer == self.ros2discoverer,
    {
        Api { ros2discoverer: Box::new(*self.ros2discoverer) }
    }
}

} // verus!
