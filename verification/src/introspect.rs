//! Process-based introspection: parsing of the resolver tool's text output
//! into domain values.  Running the tool itself is the boundary's business;
//! every function here takes the tool's output as an argument and is
//! verified against an exact description of the parse.

use vstd::prelude::*;
use vstd::string::*;
use crate::entities::{
    first_where, lemma_first_where, lemma_first_where_is, AttachmentView, EndpointView,
    ExecutableView, Host,
    HostView, NodeView, PackageView, Ros2ActionClient, Ros2ActionServer, Ros2Executable, Ros2Node,
    Ros2NodeState, Ros2Package, Ros2Publisher, Ros2ServiceClient, Ros2ServiceServer,
    Ros2Subscriber, Ros2Topic, TopicView,
};
use crate::strutil::{
    contains_spec, lines_spec, lemma_split_spec_len, split_at_keys, split_keys_from, split_lines,
    split_spec, split_str, starts_with_spec, str_contains, str_starts_with, str_trim, str_views,
    trim_spec, vec_contains_str,
};

verus! {

/// Parameters of the introspection layer.
#[derive(Clone, Copy, PartialEq, Eq, Structural, Debug)]
pub struct Ros2DiscovererParams {
    pub domain_id: u32,
}

/// Parses what the node and topic introspection tools print.
#[derive(Clone, Copy, PartialEq, Eq, Structural, Debug)]
pub struct Ros2Discoverer {
    pub params: Ros2DiscovererParams,
}

/// The line holds `pat` somewhere.
pub open spec fn line_contains(pat: Seq<char>) -> spec_fn(Seq<char>) -> bool {
    |l: Seq<char>| contains_spec(l, pat)
}

/// The value of a `label: value` line.
pub open spec fn labeled_value(line: Seq<char>) -> Seq<char> {
    split_spec(line, ": "@)[1]
}

/// A `label: value` line actually has a value part.
pub open spec fn labeled_line_wf(line: Seq<char>) -> bool {
    split_spec(line, ": "@).len() >= 2
}

/// The topic record parsed from one info text, if the text names the
/// owning node and the topic type.
pub open spec fn topic_entry_spec(name: Seq<char>, info: Seq<char>) -> Option<TopicView> {
    let ls = lines_spec(info);
    let ni = first_where(ls, line_contains("Node name"@));
    let ti = first_where(ls, line_contains("Topic type"@));
    if ni == -1 || ti == -1 {
        None
    } else {
        Some(
            TopicView {
                name: name,
                node_name: labeled_value(ls[ni]),
                topic_type: labeled_value(ls[ti]),
                subscribers_num: 0,
                publishers_num: 0,
            },
        )
    }
}

/// The labeled lines a topic info text is read through are well formed.
pub open spec fn topic_info_wf(info: Seq<char>) -> bool {
    let ls = lines_spec(info);
    let ni = first_where(ls, line_contains("Node name"@));
    let ti = first_where(ls, line_contains("Topic type"@));
    &&& (ni != -1 ==> labeled_line_wf(ls[ni]))
    &&& (ti != -1 ==> labeled_line_wf(ls[ti]))
}

/// The topics parsed from the first `k` info texts.
pub open spec fn explore_topics_spec(
    names: Seq<Seq<char>>,
    infos: Seq<Seq<char>>,
    k: int,
) -> Seq<TopicView>
    decreases k,
{
    if k <= 0 {
        Seq::<TopicView>::empty()
    } else {
        let pre = explore_topics_spec(names, infos, k - 1);
        match topic_entry_spec(names[k - 1], infos[k - 1]) {
            Some(t) => pre.push(t),
            None => pre,
        }
    }
}

/// Index of the first line of `v` holding `pat`.
fn find_line_with(v: &Vec<String>, pat: &str) -> (r: Option<usize>)
    ensures
        match r {
            Some(i) => i < v@.len() && first_where(str_views(v@), line_contains(pat@)) == i as int,
            None => first_where(str_views(v@), line_contains(pat@)) == -1,
        },
{
    let n = v.len();
    let mut i: usize = 0;
    while i < n
        invariant
            0 <= i <= n,
            n == v@.len(),
            forall|j: int| 0 <= j < i ==> !line_contains(pat@)(str_views(v@)[j]),
        decreases n - i,
    {
        if str_contains(v[i].as_str(), pat) {
            proof {
                lemma_first_where_is(str_views(v@), line_contains(pat@), i as int);
            }
            return Some(i);
        }
        i = i + 1;
    }
    proof {
        lemma_first_where(str_views(v@), line_contains(pat@));
    }
    None
}

/// The `value` of a `label: value` line.
fn labeled_value_exec(line: &str) -> (r: String)
    requires
        labeled_line_wf(line@),
    ensures
        r@ == labeled_value(line@),
{
    proof {
        reveal_strlit(": ");
    }
    let ps = split_str(line, ": ");
    proof {
        assert(str_views(ps@).len() == ps@.len());
    }
    ps[1].clone()
}

impl Ros2Discoverer {
    pub fn new(params: Ros2DiscovererParams) -> (r: Ros2Discoverer)
        ensures
            r.params == params,
    {
        Ros2Discoverer { params }
    }

    /// Querying the live lifecycle state is not wired up; every lifecycle
    /// node is reported active.
    pub fn lifecycle_state(&self, _node_name: String) -> (r: Ros2NodeState)
        ensures
            r == Ros2NodeState::Active,
    {
        Ros2NodeState::Active
    }

    /// The node names the lifecycle listing printed, one per line.
    pub fn lifecycled_node_names(&self, tool_output: &str) -> (r: Vec<String>)
        ensures
            str_views(r@) == lines_spec(tool_output@),
    {
        split_lines(tool_output)
    }

    /// Whether the node is among the lifecycle-capable ones.
    pub fn is_node_lifecycle(&self, node_name: String, lifecycled_node_names: &Vec<String>) -> (r:
        bool)
        ensures
            r == str_views(lifecycled_node_names@).contains(node_name@),
    {
        vec_contains_str(lifecycled_node_names, node_name.as_str())
    }

    /// Whether the node is among the running ones.
    pub fn is_node_running(&self, node_name: String, running_node_names: &Vec<String>) -> (r: bool)
        ensures
            r == str_views(running_node_names@).contains(node_name@),
    {
        vec_contains_str(running_node_names, node_name.as_str())
    }

    /// The node names the node listing printed, one per line.
    pub fn ros2_node_names(&self, tool_output: &str) -> (r: Vec<String>)
        ensures
            str_views(r@) == lines_spec(tool_output@),
    {
        split_lines(tool_output)
    }

    /// The topic names the topic listing printed, one per line.
    pub fn ros2_topic_names(&self, tool_output: &str) -> (r: Vec<String>)
        ensures
            str_views(r@) == lines_spec(tool_output@),
    {
        split_lines(tool_output)
    }

    /// The package names the package listing printed, one per line.
    pub fn ros2_package_names(&self, tool_output: &str) -> (r: Vec<String>)
        ensures
            str_views(r@) == lines_spec(tool_output@),
    {
        split_lines(tool_output)
    }

    /// The subscriber names the listing printed, one per line.
    pub fn ros2_subscriber_names(&self, tool_output: &str) -> (r: Vec<String>)
        ensures
            str_views(r@) == lines_spec(tool_output@),
    {
        split_lines(tool_output)
    }

    /// The executable names the listing printed, one per line.
    pub fn ros2_executable_names(&self, _package_name: String, tool_output: &str) -> (r: Vec<
        String,
    >)
        ensures
            str_views(r@) == lines_spec(tool_output@),
    {
        split_lines(tool_output)
    }

    /// The package path is the prefix the prefix query reported, as it is.
    pub fn package_path(&self, prefix_output: String) -> (r: String)
        ensures
            r@ == prefix_output@,
    {
        prefix_output
    }

    /// The response sent back for a shutdown attempt, given whether the
    /// node was lifecycle-capable and how the control process exited: a
    /// successful exit is acknowledged, a failed one is surfaced as a JSON
    /// failure envelope naming the node.
    pub fn shutdown_node_response(
        &self,
        node_name: String,
        is_lifecycle: bool,
        status_success: bool,
    ) -> (r: String)
        ensures
            r@ == shutdown_response_spec(node_name@, is_lifecycle, status_success),
    {
        if status_success {
            String::from_str("{\"result\": \"success\"}")
        } else if is_lifecycle {
            let mut r = String::from_str("{\"result\": \"failure\", \"msg\": \"");
            r.append("Unable to set shutdown state for node ");
            r.append(node_name.as_str());
            r.append("\"}");
            proof {
                assert(r@ =~= shutdown_response_spec(node_name@, is_lifecycle, status_success));
            }
            r
        } else {
            let mut r = String::from_str("{\"result\": \"failure\", \"msg\": \"");
            r.append("Unable to kill node ");
            r.append(node_name.as_str());
            r.append("\"}");
            proof {
                assert(r@ =~= shutdown_response_spec(node_name@, is_lifecycle, status_success));
            }
            r
        }
    }

    /// Builds topic records from the info text of each topic name.  A topic
    /// whose info does not name both the owning node and the topic type is
    /// skipped.
    pub fn explore_topics(&self, topic_names: Vec<String>, topic_infos: Vec<String>) -> (r: Vec<
        Ros2Topic,
    >)
        requires
            topic_names@.len() == topic_infos@.len(),
            forall|i: int| 0 <= i < topic_infos@.len() ==> topic_info_wf(topic_infos@[i]@),
        ensures
            r@.map_values(|t: Ros2Topic| t@) == explore_topics_spec(
                str_views(topic_names@),
                str_views(topic_infos@),
                topic_names@.len() as int,
            ),
    {
        let n = topic_names.len();
        let mut out: Vec<Ros2Topic> = Vec::new();
        let mut i: usize = 0;
        proof {
            assert(out@.map_values(|t: Ros2Topic| t@) =~= explore_topics_spec(
                str_views(topic_names@),
                str_views(topic_infos@),
                0,
            ));
        }
        while i < n
            invariant
                0 <= i <= n,
                n == topic_names@.len(),
                n == topic_infos@.len(),
                forall|j: int| 0 <= j < topic_infos@.len() ==> topic_info_wf(topic_infos@[j]@),
                out@.map_values(|t: Ros2Topic| t@) == explore_topics_spec(
                    str_views(topic_names@),
                    str_views(topic_infos@),
                    i as int,
                ),
            decreases n - i,
        {
            let lines = split_lines(topic_infos[i].as_str());
            let found_node = find_line_with(&lines, "Node name");
            match found_node {
                Some(nl) => {
                    let found_type = find_line_with(&lines, "Topic type");
                    match found_type {
                        Some(tl) => {
                            let node_name = labeled_value_exec(lines[nl].as_str());
                            let topic_type = labeled_value_exec(lines[tl].as_str());
                            let t = Ros2Topic {
                                name: topic_names[i].clone(),
                                node_name,
                                topic_type,
                                subscribers_num: 0,
                                publishers_num: 0,
                            };
                            out.push(t);
                        },
                        None => {},
                    }
                },
                None => {},
            }
            proof {
                assert(out@.map_values(|t: Ros2Topic| t@) =~= explore_topics_spec(
                    str_views(topic_names@),
                    str_views(topic_infos@),
                    i + 1,
                ));
            }
            i = i + 1;
        }
        out
    }
}

// ---------------------------------------------------------------------------
// GUID lookup
// ---------------------------------------------------------------------------

/// Scanning the info text for the node owning an endpoint whose GID starts
/// with the searched prefix: "Node name:" lines set the current node name,
/// and a matching "GID" line returns it.
pub open spec fn node_by_gid_from(
    lines: Seq<Seq<char>>,
    gid: Seq<char>,
    i: int,
    cur: Seq<char>,
) -> Seq<char>
    decreases lines.len() - i,
{
    if i < 0 || i >= lines.len() {
        Seq::<char>::empty()
    } else {
        let l = lines[i];
        let cur2 = if starts_with_spec(l, "Node name:"@) {
            labeled_value(l)
        } else {
            cur
        };
        if starts_with_spec(l, "GID"@) && starts_with_spec(labeled_value(l), gid) {
            cur2
        } else {
            node_by_gid_from(lines, gid, i + 1, cur2)
        }
    }
}

/// Every labeled line the GUID scan reads has a value part.
pub open spec fn gid_info_wf(info: Seq<char>) -> bool {
    forall|i: int|
        0 <= i < lines_spec(info).len() && (starts_with_spec(lines_spec(info)[i], "Node name:"@)
            || starts_with_spec(lines_spec(info)[i], "GID"@)) ==> labeled_line_wf(
            lines_spec(info)[i],
        )
}

impl Ros2Discoverer {
    /// The name of the node owning the endpoint whose GID starts with
    /// `gid_search`, per the info text; empty text when there is none.
    pub fn node_name_by_gid(&self, gid_search: String, info: &str) -> (r: String)
        requires
            gid_info_wf(info@),
        ensures
            r@ == node_by_gid_from(lines_spec(info@), gid_search@, 0, Seq::<char>::empty()),
    {
        let lines = split_lines(info);
        let n = lines.len();
        let mut node_name = String::new();
        let mut i: usize = 0;
        while i < n
            invariant
                0 <= i <= n,
                n == lines@.len(),
                str_views(lines@) == lines_spec(info@),
                gid_info_wf(info@),
                node_by_gid_from(lines_spec(info@), gid_search@, 0, Seq::<char>::empty())
                    == node_by_gid_from(lines_spec(info@), gid_search@, i as int, node_name@),
            decreases n - i,
        {
            let ghost pre = node_name@;
            if str_starts_with(lines[i].as_str(), "Node name:") {
                node_name = labeled_value_exec(lines[i].as_str());
            }
            if str_starts_with(lines[i].as_str(), "GID") {
                let gid = labeled_value_exec(lines[i].as_str());
                if str_starts_with(gid.as_str(), gid_search.as_str()) {
                    return node_name;
                }
            }
            i = i + 1;
        }
        proof {
            assert(node_by_gid_from(lines_spec(info@), gid_search@, n as int, node_name@)
                == Seq::<char>::empty());
        }
        String::new()
    }
}

// ---------------------------------------------------------------------------
// Node exploration
// ---------------------------------------------------------------------------

/// The section labels a node info text is cut at.
pub open spec fn section_keys() -> Seq<Seq<char>> {
    seq![
        "Subscribers"@,
        "Publishers"@,
        "Service Servers"@,
        "Service Clients"@,
        "Action Servers"@,
        "Action Clients"@,
    ]
}

pub open spec fn trim_map() -> spec_fn(Seq<char>) -> Seq<char> {
    |l: Seq<char>| trim_spec(l)
}

pub open spec fn nonempty_pred() -> spec_fn(Seq<char>) -> bool {
    |l: Seq<char>| l.len() != 0
}

/// The entries of one section: its lines after the heading, trimmed, empty
/// ones dropped.
pub open spec fn section_entries_spec(s: Seq<char>) -> Seq<Seq<char>> {
    let ls = lines_spec(s);
    let tail = if ls.len() >= 1 {
        ls.drop_first()
    } else {
        ls
    };
    tail.map_values(trim_map()).filter(nonempty_pred())
}

/// The leading part of an entry, up to the first colon.
pub open spec fn entry_head(e: Seq<char>) -> Seq<char> {
    split_spec(e, ":"@)[0]
}

/// An entry read as a subscriber or publisher of the node: the text before
/// the colon is taken for both the topic name and the topic type.
pub open spec fn endpoint_of_entry(node_name: Seq<char>) -> spec_fn(Seq<char>) -> EndpointView {
    |e: Seq<char>|
        EndpointView {
            topic_name: entry_head(e),
            guid: "unknown"@,
            node_name: node_name,
            topic_type: entry_head(e),
            host: HostView { ip: "127.0.0.1"@, name: "localhost"@ },
        }
}

/// An entry read as a service or action attachment of the node.
pub open spec fn attachment_of_entry(node_name: Seq<char>) -> spec_fn(Seq<char>) -> AttachmentView {
    |e: Seq<char>|
        AttachmentView { name: entry_head(e), node_name: node_name, topic_name: entry_head(e) }
}

/// The node parsed from its info text: six keyword-delimited sections of
/// endpoint and attachment entries, plus lifecycle facts from the
/// lifecycle listing.
pub open spec fn explore_node_view(
    node_name: Seq<char>,
    info: Seq<char>,
    lifecycled: Seq<Seq<char>>,
) -> NodeView {
    let parts = split_keys_from(info, section_keys(), 0);
    let is_lc = lifecycled.contains(node_name);
    NodeView {
        name: node_name,
        package_name: "package"@,
        subscribers: section_entries_spec(parts[1]).map_values(endpoint_of_entry(node_name)),
        publishers: section_entries_spec(parts[2]).map_values(endpoint_of_entry(node_name)),
        service_servers: section_entries_spec(parts[3]).map_values(attachment_of_entry(node_name)),
        service_clients: section_entries_spec(parts[4]).map_values(attachment_of_entry(node_name)),
        action_servers: section_entries_spec(parts[5]).map_values(attachment_of_entry(node_name)),
        action_clients: section_entries_spec(parts[6]).map_values(attachment_of_entry(node_name)),
        host: HostView { ip: "127.0.0.1"@, name: "localhost"@ },
        is_lifecycle: is_lc,
        state: if is_lc {
            Ros2NodeState::Active
        } else {
            Ros2NodeState::NonLifecycle
        },
    }
}

/// The info text carries all six section headings.
pub open spec fn node_info_wf(info: Seq<char>) -> bool {
    split_keys_from(info, section_keys(), 0).len() >= 7
}

/// The entries of one section text.
fn section_entries(s: &str) -> (r: Vec<String>)
    ensures
        str_views(r@) == section_entries_spec(s@),
{
    let lines = split_lines(s);
    let n = lines.len();
    let ghost ls = lines_spec(s@);
    let ghost tail = if ls.len() >= 1 {
        ls.drop_first()
    } else {
        ls
    };
    let mut out: Vec<String> = Vec::new();
    let mut i: usize = if n > 0 {
        1
    } else {
        0
    };
    proof {
        reveal(Seq::<_>::filter);
        assert(str_views(out@) =~= Seq::<Seq<char>>::empty());
        if n > 0 {
            assert(tail.subrange(0, 0).map_values(trim_map()).filter(nonempty_pred())
                =~= str_views(out@));
        }
    }
    while i < n
        invariant
            1 <= i <= n || (i == 0 && n == 0),
            n == lines@.len(),
            str_views(lines@) == ls,
            tail == (if ls.len() >= 1 {
                ls.drop_first()
            } else {
                ls
            }),
            i >= 1 ==> str_views(out@) == tail.subrange(0, i - 1).map_values(trim_map()).filter(
                nonempty_pred(),
            ),
            i == 0 ==> str_views(out@) == Seq::<Seq<char>>::empty(),
        decreases n - i,
    {
        let t = str_trim(lines[i].as_str());
        if t.as_str().unicode_len() > 0 {
            out.push(t);
        }
        proof {
            reveal(Seq::<_>::filter);
            assert(tail.subrange(0, i as int).drop_last() =~= tail.subrange(0, i - 1));
            assert(tail.subrange(0, i as int).last() == tail[i - 1]);
            assert(tail.subrange(0, i as int).map_values(trim_map()).drop_last() =~= tail.subrange(
                0,
                i - 1,
            ).map_values(trim_map()));
            assert(tail.subrange(0, i as int).map_values(trim_map()).last() == trim_spec(
                tail[i - 1],
            ));
            assert(str_views(out@) =~= tail.subrange(0, i as int).map_values(trim_map()).filter(
                nonempty_pred(),
            ));
        }
        i = i + 1;
    }
    proof {
        if n > 0 {
            assert(tail.subrange(0, n - 1) =~= tail);
        } else {
            assert(ls =~= Seq::<Seq<char>>::empty());
            assert(tail.map_values(trim_map()).filter(nonempty_pred())
                =~= Seq::<Seq<char>>::empty()) by {
                reveal(Seq::<_>::filter);
            }
        }
        assert(str_views(out@) =~= section_entries_spec(s@));
    }
    out
}

/// The part of an entry before the first colon.
fn entry_head_exec(e: &str) -> (r: String)
    ensures
        r@ == entry_head(e@),
{
    proof {
        reveal_strlit(":");
    }
    let ps = split_str(e, ":");
    proof {
        lemma_split_spec_len(e@, ":"@);
        assert(str_views(ps@).len() == ps@.len());
    }
    ps[0].clone()
}

fn entries_to_subscribers(entries: &Vec<String>, node_name: &String) -> (r: Vec<Ros2Subscriber>)
    ensures
        r@.map_values(|s: Ros2Subscriber| s@) == str_views(entries@).map_values(
            endpoint_of_entry(node_name@),
        ),
{
    let n = entries.len();
    let mut out: Vec<Ros2Subscriber> = Vec::new();
    let mut i: usize = 0;
    while i < n
        invariant
            0 <= i <= n,
            n == entries@.len(),
            out@.len() == i,
            forall|j: int|
                0 <= j < i ==> out@[j]@ == endpoint_of_entry(node_name@)(str_views(entries@)[j]),
        decreases n - i,
    {
        let head = entry_head_exec(entries[i].as_str());
        let s = Ros2Subscriber {
            topic_name: head.clone(),
            node_name: node_name.clone(),
            guid: String::from_str("unknown"),
            topic_type: head,
            host: Host::default(),
        };
        proof {
            assert(s@ =~~= endpoint_of_entry(node_name@)(str_views(entries@)[i as int]));
        }
        out.push(s);
        i = i + 1;
    }
    proof {
        assert(out@.map_values(|s: Ros2Subscriber| s@) =~= str_views(entries@).map_values(
            endpoint_of_entry(node_name@),
        ));
    }
    out
}

fn entries_to_publishers(entries: &Vec<String>, node_name: &String) -> (r: Vec<Ros2Publisher>)
    ensures
        r@.map_values(|p: Ros2Publisher| p@) == str_views(entries@).map_values(
            endpoint_of_entry(node_name@),
        ),
{
    let n = entries.len();
    let mut out: Vec<Ros2Publisher> = Vec::new();
    let mut i: usize = 0;
    while i < n
        invariant
            0 <= i <= n,
            n == entries@.len(),
            out@.len() == i,
            forall|j: int|
                0 <= j < i ==> out@[j]@ == endpoint_of_entry(node_name@)(str_views(entries@)[j]),
        decreases n - i,
    {
        let head = entry_head_exec(entries[i].as_str());
        let p = Ros2Publisher {
            topic_name: head.clone(),
            guid: String::from_str("unknown"),
            node_name: node_name.clone(),
            topic_type: head,
            host: Host::default(),
        };
        proof {
            assert(p@ =~~= endpoint_of_entry(node_name@)(str_views(entries@)[i as int]));
        }
        out.push(p);
        i = i + 1;
    }
    proof {
        assert(out@.map_values(|p: Ros2Publisher| p@) =~= str_views(entries@).map_values(
            endpoint_of_entry(node_name@),
        ));
    }
    out
}

fn entries_to_service_servers(entries: &Vec<String>, node_name: &String) -> (r: Vec<
    Ros2ServiceServer,
>)
    ensures
        r@.map_values(|a: Ros2ServiceServer| a@) == str_views(entries@).map_values(
            attachment_of_entry(node_name@),
        ),
{
    let n = entries.len();
    let mut out: Vec<Ros2ServiceServer> = Vec::new();
    let mut i: usize = 0;
    while i < n
        invariant
            0 <= i <= n,
            n == entries@.len(),
            out@.len() == i,
            forall|j: int|
                0 <= j < i ==> out@[j]@ == attachment_of_entry(node_name@)(
                    str_views(entries@)[j],
                ),
        decreases n - i,
    {
        let head = entry_head_exec(entries[i].as_str());
        let a = Ros2ServiceServer {
            name: head.clone(),
            node_name: node_name.clone(),
            topic_name: head,
        };
        proof {
            assert(a@ =~~= attachment_of_entry(node_name@)(str_views(entries@)[i as int]));
        }
        out.push(a);
        i = i + 1;
    }
    proof {
        assert(out@.map_values(|a: Ros2ServiceServer| a@) =~= str_views(entries@).map_values(
            attachment_of_entry(node_name@),
        ));
    }
    out
}

fn entries_to_service_clients(entries: &Vec<String>, node_name: &String) -> (r: Vec<
    Ros2ServiceClient,
>)
    ensures
        r@.map_values(|a: Ros2ServiceClient| a@) == str_views(entries@).map_values(
            attachment_of_entry(node_name@),
        ),
{
    let n = entries.len();
    let mut out: Vec<Ros2ServiceClient> = Vec::new();
    let mut i: usize = 0;
    while i < n
        invariant
            0 <= i <= n,
            n == entries@.len(),
            out@.len() == i,
            forall|j: int|
                0 <= j < i ==> out@[j]@ == attachment_of_entry(node_name@)(
                    str_views(entries@)[j],
                ),
        decreases n - i,
    {
        let head = entry_head_exec(entries[i].as_str());
        let a = Ros2ServiceClient {
            name: head.clone(),
            node_name: node_name.clone(),
            topic_name: head,
        };
        proof {
            assert(a@ =~~= attachment_of_entry(node_name@)(str_views(entries@)[i as int]));
        }
        out.push(a);
        i = i + 1;
    }
    proof {
        assert(out@.map_values(|a: Ros2ServiceClient| a@) =~= str_views(entries@).map_values(
            attachment_of_entry(node_name@),
        ));
    }
    out
}

fn entries_to_action_servers(entries: &Vec<String>, node_name: &String) -> (r: Vec<
    Ros2ActionServer,
>)
    ensures
        r@.map_values(|a: Ros2ActionServer| a@) == str_views(entries@).map_values(
            attachment_of_entry(node_name@),
        ),
{
    let n = entries.len();
    let mut out: Vec<Ros2ActionServer> = Vec::new();
    let mut i: usize = 0;
    while i < n
        invariant
            0 <= i <= n,
            n == entries@.len(),
            out@.len() == i,
            forall|j: int|
                0 <= j < i ==> out@[j]@ == attachment_of_entry(node_name@)(
                    str_views(entries@)[j],
                ),
        decreases n - i,
    {
        let head = entry_head_exec(entries[i].as_str());
        let a = Ros2ActionServer {
            name: head.clone(),
            node_name: node_name.clone(),
            topic_name: head,
        };
        proof {
            assert(a@ =~~= attachment_of_entry(node_name@)(str_views(entries@)[i as int]));
        }
        out.push(a);
        i = i + 1;
    }
    proof {
        assert(out@.map_values(|a: Ros2ActionServer| a@) =~= str_views(entries@).map_values(
            attachment_of_entry(node_name@),
        ));
    }
    out
}

fn entries_to_action_clients(entries: &Vec<String>, node_name: &String) -> (r: Vec<
    Ros2ActionClient,
>)
    ensures
        r@.map_values(|a: Ros2ActionClient| a@) == str_views(entries@).map_values(
            attachment_of_entry(node_name@),
        ),
{
    let n = entries.len();
    let mut out: Vec<Ros2ActionClient> = Vec::new();
    let mut i: usize = 0;
    while i < n
        invariant
            0 <= i <= n,
            n == entries@.len(),
            out@.len() == i,
            forall|j: int|
                0 <= j < i ==> out@[j]@ == attachment_of_entry(node_name@)(
                    str_views(entries@)[j],
                ),
        decreases n - i,
    {
        let head = entry_head_exec(entries[i].as_str());
        let a = Ros2ActionClient {
            name: head.clone(),
            node_name: node_name.clone(),
            topic_name: head,
        };
        proof {
            assert(a@ =~~= attachment_of_entry(node_name@)(str_views(entries@)[i as int]));
        }
        out.push(a);
        i = i + 1;
    }
    proof {
        assert(out@.map_values(|a: Ros2ActionClient| a@) =~= str_views(entries@).map_values(
            attachment_of_entry(node_name@),
        ));
    }
    out
}

impl Ros2Discoverer {
    /// Parses one node's info text.  A text beginning "Unable" reports a
    /// failed lookup and comes back as the error.
    pub fn explore_node(
        &self,
        node_name: String,
        node_info: String,
        lifecycled_node_names: &Vec<String>,
    ) -> (r: Result<Ros2Node, String>)
        requires
            !starts_with_spec(node_info@, "Unable"@) ==> node_info_wf(node_info@),
        ensures
            match r {
                Ok(n) => !starts_with_spec(node_info@, "Unable"@) && n@ == explore_node_view(
                    node_name@,
                    node_info@,
                    str_views(lifecycled_node_names@),
                ),
                Err(e) => starts_with_spec(node_info@, "Unable"@) && e@ == node_info@,
            },
    {
        if str_starts_with(node_info.as_str(), "Unable") {
            return Err(node_info);
        }
        let mut keys: Vec<String> = Vec::new();
        keys.push(String::from_str("Subscribers"));
        keys.push(String::from_str("Publishers"));
        keys.push(String::from_str("Service Servers"));
        keys.push(String::from_str("Service Clients"));
        keys.push(String::from_str("Action Servers"));
        keys.push(String::from_str("Action Clients"));
        proof {
            assert(str_views(keys@) =~= section_keys());
            reveal_strlit("Subscribers");
            reveal_strlit("Publishers");
            reveal_strlit("Service Servers");
            reveal_strlit("Service Clients");
            reveal_strlit("Action Servers");
            reveal_strlit("Action Clients");
        }
        let parts = split_at_keys(node_info.as_str(), &keys);
        proof {
            assert(str_views(parts@).len() == parts@.len());
        }
        let subscribers_info = section_entries(parts[1].as_str());
        let publishers_info = section_entries(parts[2].as_str());
        let service_servers_info = section_entries(parts[3].as_str());
        let service_clients_info = section_entries(parts[4].as_str());
        let action_servers_info = section_entries(parts[5].as_str());
        let action_clients_info = section_entries(parts[6].as_str());

        let subscribers = entries_to_subscribers(&subscribers_info, &node_name);
        let publishers = entries_to_publishers(&publishers_info, &node_name);
        let service_servers = entries_to_service_servers(&service_servers_info, &node_name);
        let service_clients = entries_to_service_clients(&service_clients_info, &node_name);
        let action_servers = entries_to_action_servers(&action_servers_info, &node_name);
        let action_clients = entries_to_action_clients(&action_clients_info, &node_name);

        let is_lifecycle = vec_contains_str(lifecycled_node_names, node_name.as_str());
        let state = if is_lifecycle {
            self.lifecycle_state(node_name.clone())
        } else {
            Ros2NodeState::NonLifecycle
        };

        let node = Ros2Node {
            name: node_name,
            package_name: String::from_str("package"),
            subscribers,
            publishers,
            service_servers,
            service_clients,
            action_servers,
            action_clients,
            host: Host::default(),
            is_lifecycle,
            state,
        };
        proof {
            assert(node@ =~~= explore_node_view(
                node.name@,
                node_info@,
                str_views(lifecycled_node_names@),
            ));
        }
        Ok(node)
    }

    /// Parses each node's info text; every lookup must have succeeded.
    pub fn explore_nodes(
        &self,
        node_names: Vec<String>,
        node_infos: Vec<String>,
        lifecycled_node_names: &Vec<String>,
    ) -> (r: Vec<Ros2Node>)
        requires
            node_names@.len() == node_infos@.len(),
            forall|i: int|
                0 <= i < node_infos@.len() ==> !starts_with_spec(node_infos@[i]@, "Unable"@)
                    && node_info_wf(node_infos@[i]@),
        ensures
            r@.len() == node_names@.len(),
            forall|i: int|
                0 <= i < r@.len() ==> r@[i]@ == explore_node_view(
                    node_names@[i]@,
                    node_infos@[i]@,
                    str_views(lifecycled_node_names@),
                ),
    {
        let n = node_names.len();
        let mut out: Vec<Ros2Node> = Vec::new();
        let mut i: usize = 0;
        while i < n
            invariant
                0 <= i <= n,
                n == node_names@.len(),
                n == node_infos@.len(),
                forall|j: int|
                    0 <= j < node_infos@.len() ==> !starts_with_spec(node_infos@[j]@, "Unable"@)
                        && node_info_wf(node_infos@[j]@),
                out@.len() == i,
                forall|j: int|
                    0 <= j < i ==> out@[j]@ == explore_node_view(
                        node_names@[j]@,
                        node_infos@[j]@,
                        str_views(lifecycled_node_names@),
                    ),
            decreases n - i,
        {
            let node = match self.explore_node(
                node_names[i].clone(),
                node_infos[i].clone(),
                lifecycled_node_names,
            ) {
                Ok(node) => node,
                Err(e) => {
                    proof {
                        assert(false);
                    }
                    Ros2Node::create(e)
                },
            };
            out.push(node);
            i = i + 1;
        }
        out
    }
}

// ---------------------------------------------------------------------------
// Package exploration
// ---------------------------------------------------------------------------

/// An executable listing line read as an executable of the package: the
/// name is the last path segment, the path the whole line.
pub open spec fn executable_of_line(pkg: Seq<char>) -> spec_fn(Seq<char>) -> ExecutableView {
    |line: Seq<char>|
        ExecutableView {
            name: split_spec(line, "/"@).last(),
            package_name: pkg,
            path: line,
        }
}

/// The package parsed from the executable listing: the lines naming the
/// package become its executables; a package without any is skipped.
pub open spec fn package_entry_spec(
    pkg: Seq<char>,
    path: Seq<char>,
    info: Seq<Seq<char>>,
) -> Option<PackageView> {
    let ls = info.filter(line_contains(pkg));
    if ls.len() == 0 {
        None
    } else {
        Some(PackageView { name: pkg, path: path, executables: ls.map_values(executable_of_line(pkg)) })
    }
}

/// The packages parsed from the first `k` names.
pub open spec fn explore_packages_spec(
    names: Seq<Seq<char>>,
    paths: Seq<Seq<char>>,
    info: Seq<Seq<char>>,
    k: int,
) -> Seq<PackageView>
    decreases k,
{
    if k <= 0 {
        Seq::<PackageView>::empty()
    } else {
        let pre = explore_packages_spec(names, paths, info, k - 1);
        match package_entry_spec(names[k - 1], paths[k - 1], info) {
            Some(p) => pre.push(p),
            None => pre,
        }
    }
}

/// The lines of the executable listing naming this package.
fn lines_for_package(info: &Vec<String>, pkg: &str) -> (r: Vec<String>)
    ensures
        str_views(r@) == str_views(info@).filter(line_contains(pkg@)),
{
    let n = info.len();
    let mut out: Vec<String> = Vec::new();
    let mut i: usize = 0;
    proof {
        reveal(Seq::<_>::filter);
        assert(str_views(out@) =~= str_views(info@).subrange(0, 0).filter(line_contains(pkg@)));
    }
    while i < n
        invariant
            0 <= i <= n,
            n == info@.len(),
            str_views(out@) == str_views(info@).subrange(0, i as int).filter(line_contains(pkg@)),
        decreases n - i,
    {
        if str_contains(info[i].as_str(), pkg) {
            out.push(info[i].clone());
        }
        proof {
            reveal(Seq::<_>::filter);
            assert(str_views(info@).subrange(0, i + 1).drop_last() =~= str_views(info@).subrange(
                0,
                i as int,
            ));
            assert(str_views(info@).subrange(0, i + 1).last() == str_views(info@)[i as int]);
            assert(str_views(out@) =~= str_views(info@).subrange(0, i + 1).filter(
                line_contains(pkg@),
            ));
        }
        i = i + 1;
    }
    proof {
        assert(str_views(info@).subrange(0, n as int) =~= str_views(info@));
    }
    out
}

/// The last path segment of a listing line.
fn last_path_segment(line: &str) -> (r: String)
    ensures
        r@ == split_spec(line@, "/"@).last(),
{
    proof {
        reveal_strlit("/");
    }
    let ps = split_str(line, "/");
    proof {
        lemma_split_spec_len(line@, "/"@);
        assert(str_views(ps@).len() == ps@.len());
    }
    let r = ps[ps.len() - 1].clone();
    proof {
        assert(r@ == str_views(ps@).last());
    }
    r
}

fn lines_to_executables(lines: &Vec<String>, pkg: &String) -> (r: Vec<Ros2Executable>)
    ensures
        r@.map_values(|e: Ros2Executable| e@) == str_views(lines@).map_values(
            executable_of_line(pkg@),
        ),
{
    let n = lines.len();
    let mut out: Vec<Ros2Executable> = Vec::new();
    let mut i: usize = 0;
    while i < n
        invariant
            0 <= i <= n,
            n == lines@.len(),
            out@.len() == i,
            forall|j: int|
                0 <= j < i ==> out@[j]@ == executable_of_line(pkg@)(str_views(lines@)[j]),
        decreases n - i,
    {
        let name = last_path_segment(lines[i].as_str());
        let e = Ros2Executable {
            name,
            package_name: pkg.clone(),
            path: lines[i].clone(),
        };
        proof {
            assert(e@ =~~= executable_of_line(pkg@)(str_views(lines@)[i as int]));
        }
        out.push(e);
        i = i + 1;
    }
    proof {
        assert(out@.map_values(|e: Ros2Executable| e@) =~= str_views(lines@).map_values(
            executable_of_line(pkg@),
        ));
    }
    out
}

impl Ros2Discoverer {
    /// Builds package records from the package names, their resolved
    /// paths, and the lines of the full executable listing.
    pub fn explore_packages(
        &self,
        package_names: Vec<String>,
        package_paths: Vec<String>,
        executables_info: &Vec<String>,
    ) -> (r: Vec<Ros2Package>)
        requires
            package_names@.len() == package_paths@.len(),
        ensures
            r@.map_values(|p: Ros2Package| p@) == explore_packages_spec(
                str_views(package_names@),
                str_views(package_paths@),
                str_views(executables_info@),
                package_names@.len() as int,
            ),
    {
        let n = package_names.len();
        let mut out: Vec<Ros2Package> = Vec::new();
        let mut i: usize = 0;
        proof {
            assert(out@.map_values(|p: Ros2Package| p@) =~= explore_packages_spec(
                str_views(package_names@),
                str_views(package_paths@),
                str_views(executables_info@),
                0,
            ));
        }
        while i < n
            invariant
                0 <= i <= n,
                n == package_names@.len(),
                n == package_paths@.len(),
                out@.map_values(|p: Ros2Package| p@) == explore_packages_spec(
                    str_views(package_names@),
                    str_views(package_paths@),
                    str_views(executables_info@),
                    i as int,
                ),
            decreases n - i,
        {
            let pkg_lines = lines_for_package(executables_info, package_names[i].as_str());
            if pkg_lines.len() > 0 {
                let executables = lines_to_executables(&pkg_lines, &package_names[i]);
                let p = Ros2Package {
                    name: package_names[i].clone(),
                    path: package_paths[i].clone(),
                    executables,
                };
                proof {
                    assert(p@ =~~= package_entry_spec(
                        str_views(package_names@)[i as int],
                        str_views(package_paths@)[i as int],
                        str_views(executables_info@),
                    ).unwrap());
                }
                out.push(p);
            }
            proof {
                assert(out@.map_values(|p: Ros2Package| p@) =~= explore_packages_spec(
                    str_views(package_names@),
                    str_views(package_paths@),
                    str_views(executables_info@),
                    i + 1,
                ));
            }
            i = i + 1;
        }
        out
    }
}

/// The JSON envelope the shutdown control path answers with: success when
/// the control process exited successfully, otherwise a failure envelope
/// whose message names the node and the failed action.
pub open spec fn shutdown_response_spec(
    node_name: Seq<char>,
    is_lifecycle: bool,
    status_success: bool,
) -> Seq<char> {
    if status_success {
        "{\"result\": \"success\"}"@
    } else if is_lifecycle {
        "{\"result\": \"failure\", \"msg\": \""@ + "Unable to set shutdown state for node "@
            + node_name + "\"}"@
    } else {
        "{\"result\": \"failure\", \"msg\": \""@ + "Unable to kill node "@ + node_name
            + "\"}"@
    }
}

} // verus!
