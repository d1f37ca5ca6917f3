//! Rendering of store snapshots as JSON text.  The format is specified by
//! spec functions over the store's views, so a caller of the `state` query
//! knows the exact bytes it gets.

use vstd::prelude::*;
use vstd::string::*;
use crate::entities::{
    AttachmentView, EndpointView, ExecutableView, Host, HostView, NodeView, PackageView,
    Ros2ActionClient, Ros2ActionServer, Ros2Executable, Ros2Node, Ros2NodeState, Ros2Package,
    Ros2Publisher, Ros2ServiceClient, Ros2ServiceServer, Ros2State, Ros2Subscriber, Ros2Topic,
    StateView, TopicView,
};
use crate::strutil::{dec_spec, hex_digit, hex_digit_char, u64_to_dec};

verus! {

/// How one character is written inside a JSON string literal.
pub open spec fn esc_char(c: char) -> Seq<char> {
    if c == '"' {
        "\\\""@
    } else if c == '\\' {
        "\\\\"@
    } else if c == '\n' {
        "\\n"@
    } else if c == '\r' {
        "\\r"@
    } else if c == '\t' {
        "\\t"@
    } else if (c as u32) < 32 {
        "\\u00"@ + seq![hex_digit(((c as u32) / 16) as nat), hex_digit(((c as u32) % 16) as nat)]
    } else {
        seq![c]
    }
}

/// A character sequence escaped for a JSON string literal.
pub open spec fn esc_str(s: Seq<char>) -> Seq<char>
    decreases s.len(),
{
    if s.len() == 0 {
        Seq::<char>::empty()
    } else {
        esc_char(s[0]) + esc_str(s.drop_first())
    }
}

pub proof fn lemma_esc_str_push(s: Seq<char>, c: char)
    ensures
        esc_str(s.push(c)) == esc_str(s) + esc_char(c),
    decreases s.len(),
{
    if s.len() == 0 {
        assert(s.push(c)[0] == c);
        assert(s.push(c).drop_first() =~= Seq::<char>::empty());
        assert(esc_str(s.push(c)) =~= esc_char(c) + esc_str(Seq::<char>::empty()));
        assert(esc_char(c) + Seq::<char>::empty() =~= esc_char(c));
        assert(esc_str(s) + esc_char(c) =~= esc_char(c));
    } else {
        assert(s.push(c)[0] == s[0]);
        assert(s.push(c).drop_first() =~= s.drop_first().push(c));
        lemma_esc_str_push(s.drop_first(), c);
        assert(esc_str(s.push(c)) == esc_char(s[0]) + (esc_str(s.drop_first()) + esc_char(c)));
        assert(esc_char(s[0]) + (esc_str(s.drop_first()) + esc_char(c)) =~= (esc_char(s[0])
            + esc_str(s.drop_first())) + esc_char(c));
    }
}

/// A JSON string literal.
pub open spec fn json_string_view(s: Seq<char>) -> Seq<char> {
    "\""@ + esc_str(s) + "\""@
}

fn push_esc_char(out: &mut String, c: char)
    ensures
        final(out)@ == old(out)@ + esc_char(c),
{
    if c == '"' {
        out.append("\\\"");
    } else if c == '\\' {
        out.append("\\\\");
    } else if c == '\n' {
        out.append("\\n");
    } else if c == '\r' {
        out.append("\\r");
    } else if c == '\t' {
        out.append("\\t");
    } else if (c as u32) < 32 {
        let code: u32 = c as u32;
        out.append("\\u00");
        out.push(hex_digit_char((code / 16) as u8));
        out.push(hex_digit_char((code % 16) as u8));
        proof {
            assert(final(out)@ =~= old(out)@ + esc_char(c));
        }
    } else {
        out.push(c);
        proof {
            assert(final(out)@ =~= old(out)@ + esc_char(c));
        }
    }
}

/// Writes `s` as a JSON string literal.
pub fn write_json_string(out: &mut String, s: &str)
    ensures
        final(out)@ == old(out)@ + json_string_view(s@),
{
    out.append("\"");
    let n = s.unicode_len();
    let mut i: usize = 0;
    while i < n
        invariant
            0 <= i <= n,
            n == s@.len(),
            out@ == old(out)@ + "\""@ + esc_str(s@.subrange(0, i as int)),
        decreases n - i,
    {
        let c = s.get_char(i);
        push_esc_char(out, c);
        proof {
            assert(s@.subrange(0, i + 1) =~= s@.subrange(0, i as int).push(c));
            lemma_esc_str_push(s@.subrange(0, i as int), c);
            assert(out@ =~= old(out)@ + "\""@ + esc_str(s@.subrange(0, i + 1)));
        }
        i = i + 1;
    }
    proof {
        assert(s@.subrange(0, n as int) =~= s@);
    }
    out.append("\"");
    proof {
        assert(final(out)@ =~= old(out)@ + json_string_view(s@));
    }
}

/// Writes `n` as a JSON number.
pub fn write_u64(out: &mut String, n: u64)
    ensures
        final(out)@ == old(out)@ + dec_spec(n as nat),
{
    let s = u64_to_dec(n);
    out.append(s.as_str());
}

pub open spec fn json_bool_view(b: bool) -> Seq<char> {
    if b {
        "true"@
    } else {
        "false"@
    }
}

pub fn write_bool(out: &mut String, b: bool)
    ensures
        final(out)@ == old(out)@ + json_bool_view(b),
{
    if b {
        out.append("true");
    } else {
        out.append("false");
    }
}

/// The elements of a JSON array, separated by commas.
pub open spec fn joined(xs: Seq<Seq<char>>) -> Seq<char>
    decreases xs.len(),
{
    if xs.len() == 0 {
        Seq::<char>::empty()
    } else if xs.len() == 1 {
        xs[0]
    } else {
        xs[0] + ","@ + joined(xs.drop_first())
    }
}

pub proof fn lemma_joined_push(xs: Seq<Seq<char>>, e: Seq<char>)
    ensures
        joined(xs.push(e)) == if xs.len() == 0 {
            e
        } else {
            joined(xs) + ","@ + e
        },
    decreases xs.len(),
{
    if xs.len() == 0 {
        assert(xs.push(e).len() == 1);
        assert(xs.push(e)[0] == e);
    } else if xs.len() == 1 {
        assert(xs.push(e)[0] == xs[0]);
        assert(xs.push(e).drop_first() =~= seq![e]);
        assert(joined(seq![e]) == e);
    } else {
        assert(xs.push(e)[0] == xs[0]);
        assert(xs.push(e).drop_first() =~= xs.drop_first().push(e));
        lemma_joined_push(xs.drop_first(), e);
        assert(joined(xs.push(e)) == xs[0] + ","@ + (joined(xs.drop_first()) + ","@ + e));
        assert(xs[0] + ","@ + (joined(xs.drop_first()) + ","@ + e) =~= (xs[0] + ","@ + joined(
            xs.drop_first(),
        )) + ","@ + e);
    }
}

/// Types that render themselves as one JSON value.
pub trait ToJson: Sized {
    spec fn json_spec(&self) -> Seq<char>;

    fn write_json(&self, out: &mut String)
        ensures
            final(out)@ == old(out)@ + self.json_spec(),
    ;
}

/// The rendered elements of a sequence.
pub open spec fn json_seq_of<T: ToJson>(s: Seq<T>) -> Seq<Seq<char>> {
    s.map_values(|x: T| x.json_spec())
}

/// A sequence rendered as a JSON array.
pub open spec fn json_array_spec<T: ToJson>(s: Seq<T>) -> Seq<char> {
    "["@ + joined(json_seq_of(s)) + "]"@
}

/// Writes the vector as a JSON array.
pub fn write_json_array<T: ToJson>(out: &mut String, v: &Vec<T>)
    ensures
        final(out)@ == old(out)@ + json_array_spec(v@),
{
    out.append("[");
    let n = v.len();
    let mut i: usize = 0;
    while i < n
        invariant
            0 <= i <= n,
            n == v@.len(),
            out@ == old(out)@ + "["@ + joined(json_seq_of(v@.subrange(0, i as int))),
        decreases n - i,
    {
        if i > 0 {
            out.append(",");
        }
        v[i].write_json(out);
        proof {
            assert(json_seq_of(v@.subrange(0, i + 1)) =~= json_seq_of(
                v@.subrange(0, i as int),
            ).push(v@[i as int].json_spec()));
            lemma_joined_push(json_seq_of(v@.subrange(0, i as int)), v@[i as int].json_spec());
            if i == 0 {
                assert(json_seq_of(v@.subrange(0, 0)).len() == 0);
            }
            assert(out@ =~= old(out)@ + "["@ + joined(json_seq_of(v@.subrange(0, i + 1))));
        }
        i = i + 1;
    }
    proof {
        assert(v@.subrange(0, n as int) =~= v@);
    }
    out.append("]");
    proof {
        assert(final(out)@ =~= old(out)@ + json_array_spec(v@));
    }
}

// ---------------------------------------------------------------------------
// The JSON shape of each entity
// ---------------------------------------------------------------------------

#[verifier::opaque]
pub open spec fn json_host_view(h: HostView) -> Seq<char> {
    "{\"ip\":"@ + json_string_view(h.ip) + ",\"name\":"@ + json_string_view(h.name) + "}"@
}

#[verifier::opaque]
pub open spec fn json_endpoint_view(p: EndpointView) -> Seq<char> {
    "{\"topic_name\":"@ + json_string_view(p.topic_name) + ",\"guid\":"@ + json_string_view(
        p.guid,
    ) + ",\"node_name\":"@ + json_string_view(p.node_name) + ",\"topic_type\":"@
        + json_string_view(p.topic_type) + ",\"host\":"@ + json_host_view(p.host) + "}"@
}

#[verifier::opaque]
pub open spec fn json_attachment_view(a: AttachmentView) -> Seq<char> {
    "{\"name\":"@ + json_string_view(a.name) + ",\"node_name\":"@ + json_string_view(a.node_name)
        + ",\"topic_name\":"@ + json_string_view(a.topic_name) + "}"@
}

#[verifier::opaque]
pub open spec fn json_executable_view(e: ExecutableView) -> Seq<char> {
    "{\"name\":"@ + json_string_view(e.name) + ",\"package_name\":"@ + json_string_view(
        e.package_name,
    ) + ",\"path\":"@ + json_string_view(e.path) + "}"@
}

pub open spec fn executables_json_seq(s: Seq<ExecutableView>) -> Seq<Seq<char>> {
    s.map_values(|e: ExecutableView| json_executable_view(e))
}

#[verifier::opaque]
pub open spec fn json_package_view(p: PackageView) -> Seq<char> {
    "{\"name\":"@ + json_string_view(p.name) + ",\"path\":"@ + json_string_view(p.path)
        + ",\"executables\":"@ + "["@ + joined(executables_json_seq(p.executables)) + "]"@ + "}"@
}

pub open spec fn json_node_state_view(s: Ros2NodeState) -> Seq<char> {
    match s {
        Ros2NodeState::Unconfigured => "\"Unconfigured\""@,
        Ros2NodeState::Inactive => "\"Inactive\""@,
        Ros2NodeState::Active => "\"Active\""@,
        Ros2NodeState::Shutdown => "\"Shutdown\""@,
        Ros2NodeState::NonLifecycle => "\"NonLifecycle\""@,
    }
}

pub open spec fn endpoints_json_seq(s: Seq<EndpointView>) -> Seq<Seq<char>> {
    s.map_values(|p: EndpointView| json_endpoint_view(p))
}

pub open spec fn attachments_json_seq(s: Seq<AttachmentView>) -> Seq<Seq<char>> {
    s.map_values(|a: AttachmentView| json_attachment_view(a))
}

/// The leading half of a node's JSON object: its names and endpoint lists.
#[verifier::opaque]
pub open spec fn json_node_head_view(n: NodeView) -> Seq<char> {
    "{\"name\":"@ + json_string_view(n.name) + ",\"package_name\":"@ + json_string_view(
        n.package_name,
    ) + ",\"subscribers\":"@ + "["@ + joined(endpoints_json_seq(n.subscribers)) + "]"@
        + ",\"publishers\":"@ + "["@ + joined(endpoints_json_seq(n.publishers)) + "]"@
        + ",\"service_servers\":"@ + "["@ + joined(attachments_json_seq(n.service_servers)) + "]"@
        + ",\"service_clients\":"@ + "["@ + joined(attachments_json_seq(n.service_clients)) + "]"@
}

/// The trailing half of a node's JSON object: actions, host, lifecycle.
#[verifier::opaque]
pub open spec fn json_node_tail_view(n: NodeView) -> Seq<char> {
    ",\"action_servers\":"@ + "["@ + joined(attachments_json_seq(n.action_servers)) + "]"@
        + ",\"action_clients\":"@ + "["@ + joined(attachments_json_seq(n.action_clients)) + "]"@
        + ",\"host\":"@ + json_host_view(n.host) + ",\"is_lifecycle\":"@ + json_bool_view(
        n.is_lifecycle,
    ) + ",\"state\":"@ + json_node_state_view(n.state) + "}"@
}

pub open spec fn json_node_view(n: NodeView) -> Seq<char> {
    json_node_head_view(n) + json_node_tail_view(n)
}

#[verifier::opaque]
pub open spec fn json_topic_view(t: TopicView) -> Seq<char> {
    "{\"name\":"@ + json_string_view(t.name) + ",\"node_name\":"@ + json_string_view(t.node_name)
        + ",\"topic_type\":"@ + json_string_view(t.topic_type) + ",\"subscribers_num\":"@
        + dec_spec(t.subscribers_num as nat) + ",\"publishers_num\":"@ + dec_spec(
        t.publishers_num as nat,
    ) + "}"@
}

pub open spec fn packages_json_seq(s: Seq<PackageView>) -> Seq<Seq<char>> {
    s.map_values(|p: PackageView| json_package_view(p))
}

pub open spec fn nodes_json_seq(s: Seq<NodeView>) -> Seq<Seq<char>> {
    s.map_values(|n: NodeView| json_node_view(n))
}

pub open spec fn topics_json_seq(s: Seq<TopicView>) -> Seq<Seq<char>> {
    s.map_values(|t: TopicView| json_topic_view(t))
}

/// The serialized snapshot: the packages, nodes and topics of the store.
pub open spec fn ros2_state_json_view(st: StateView) -> Seq<char> {
    "{\"packages\":"@ + "["@ + joined(packages_json_seq(st.packages)) + "]"@ + ",\"nodes\":"@
        + "["@ + joined(nodes_json_seq(st.nodes)) + "]"@ + ",\"topics\":"@ + "["@ + joined(
        topics_json_seq(st.topics),
    ) + "]"@ + "}"@
}

// ---------------------------------------------------------------------------
// The writers
// ---------------------------------------------------------------------------

fn write_host(out: &mut String, h: &Host)
    ensures
        final(out)@ == old(out)@ + json_host_view(h@),
{
    out.append("{\"ip\":");
    write_json_string(out, h.ip.as_str());
    out.append(",\"name\":");
    write_json_string(out, h.name.as_str());
    out.append("}");
    proof {
        reveal(json_host_view);
        assert(final(out)@ =~= old(out)@ + json_host_view(h@));
    }
}

impl ToJson for Ros2Executable {
    open spec fn json_spec(&self) -> Seq<char> {
        json_executable_view(self@)
    }

    fn write_json(&self, out: &mut String) {
        out.append("{\"name\":");
        write_json_string(out, self.name.as_str());
        out.append(",\"package_name\":");
        write_json_string(out, self.package_name.as_str());
        out.append(",\"path\":");
        write_json_string(out, self.path.as_str());
        out.append("}");
        proof {
            reveal(json_executable_view);
            assert(final(out)@ =~= old(out)@ + self.json_spec());
        }
    }
}

impl ToJson for Ros2Package {
    open spec fn json_spec(&self) -> Seq<char> {
        json_package_view(self@)
    }

    fn write_json(&self, out: &mut String) {
        out.append("{\"name\":");
        write_json_string(out, self.name.as_str());
        out.append(",\"path\":");
        write_json_string(out, self.path.as_str());
        out.append(",\"executables\":");
        write_json_array(out, &self.executables);
        out.append("}");
        proof {
            reveal(json_package_view);
            assert(json_seq_of(self.executables@) =~= executables_json_seq(self@.executables));
            assert(final(out)@ =~= old(out)@ + self.json_spec());
        }
    }
}

impl ToJson for Ros2Publisher {
    open spec fn json_spec(&self) -> Seq<char> {
        json_endpoint_view(self@)
    }

    fn write_json(&self, out: &mut String) {
        out.append("{\"topic_name\":");
        write_json_string(out, self.topic_name.as_str());
        out.append(",\"guid\":");
        write_json_string(out, self.guid.as_str());
        out.append(",\"node_name\":");
        write_json_string(out, self.node_name.as_str());
        out.append(",\"topic_type\":");
        write_json_string(out, self.topic_type.as_str());
        out.append(",\"host\":");
        write_host(out, &self.host);
        out.append("}");
        proof {
            reveal(json_endpoint_view);
            assert(final(out)@ =~= old(out)@ + self.json_spec());
        }
    }
}

impl ToJson for Ros2Subscriber {
    open spec fn json_spec(&self) -> Seq<char> {
        json_endpoint_view(self@)
    }

    fn write_json(&self, out: &mut String) {
        out.append("{\"topic_name\":");
        write_json_string(out, self.topic_name.as_str());
        out.append(",\"guid\":");
        write_json_string(out, self.guid.as_str());
        out.append(",\"node_name\":");
        write_json_string(out, self.node_name.as_str());
        out.append(",\"topic_type\":");
        write_json_string(out, self.topic_type.as_str());
        out.append(",\"host\":");
        write_host(out, &self.host);
        out.append("}");
        proof {
            reveal(json_endpoint_view);
            assert(final(out)@ =~= old(out)@ + self.json_spec());
        }
    }
}

impl ToJson for Ros2ServiceServer {
    open spec fn json_spec(&self) -> Seq<char> {
        json_attachment_view(self@)
    }

    fn write_json(&self, out: &mut String) {
        out.append("{\"name\":");
        write_json_string(out, self.name.as_str());
        out.append(",\"node_name\":");
        write_json_string(out, self.node_name.as_str());
        out.append(",\"topic_name\":");
        write_json_string(out, self.topic_name.as_str());
        out.append("}");
        proof {
            reveal(json_attachment_view);
            assert(final(out)@ =~= old(out)@ + self.json_spec());
        }
    }
}

impl ToJson for Ros2ServiceClient {
    open spec fn json_spec(&self) -> Seq<char> {
        json_attachment_view(self@)
    }

    fn write_json(&self, out: &mut String) {
        out.append("{\"name\":");
        write_json_string(out, self.name.as_str());
        out.append(",\"node_name\":");
        write_json_string(out, self.node_name.as_str());
        out.append(",\"topic_name\":");
        write_json_string(out, self.topic_name.as_str());
        out.append("}");
        proof {
            reveal(json_attachment_view);
            assert(final(out)@ =~= old(out)@ + self.json_spec());
        }
    }
}

impl ToJson for Ros2ActionServer {
    open spec fn json_spec(&self) -> Seq<char> {
        json_attachment_view(self@)
    }

    fn write_json(&self, out: &mut String) {
        out.append("{\"name\":");
        write_json_string(out, self.name.as_str());
        out.append(",\"node_name\":");
        write_json_string(out, self.node_name.as_str());
        out.append(",\"topic_name\":");
        write_json_string(out, self.topic_name.as_str());
        out.append("}");
        proof {
            reveal(json_attachment_view);
            assert(final(out)@ =~= old(out)@ + self.json_spec());
        }
    }
}

impl ToJson for Ros2ActionClient {
    open spec fn json_spec(&self) -> Seq<char> {
        json_attachment_view(self@)
    }

    fn write_json(&self, out: &mut String) {
        out.append("{\"name\":");
        write_json_string(out, self.name.as_str());
        out.append(",\"node_name\":");
        write_json_string(out, self.node_name.as_str());
        out.append(",\"topic_name\":");
        write_json_string(out, self.topic_name.as_str());
        out.append("}");
        proof {
            reveal(json_attachment_view);
            assert(final(out)@ =~= old(out)@ + self.json_spec());
        }
    }
}

impl ToJson for Ros2Topic {
    open spec fn json_spec(&self) -> Seq<char> {
        json_topic_view(self@)
    }

    fn write_json(&self, out: &mut String) {
        out.append("{\"name\":");
        write_json_string(out, self.name.as_str());
        out.append(",\"node_name\":");
        write_json_string(out, self.node_name.as_str());
        out.append(",\"topic_type\":");
        write_json_string(out, self.topic_type.as_str());
        out.append(",\"subscribers_num\":");
        write_u64(out, self.subscribers_num);
        out.append(",\"publishers_num\":");
        write_u64(out, self.publishers_num);
        out.append("}");
        proof {
            reveal(json_topic_view);
            assert(final(out)@ =~= old(out)@ + self.json_spec());
        }
    }
}

fn write_node_state(out: &mut String, s: Ros2NodeState)
    ensures
        final(out)@ == old(out)@ + json_node_state_view(s),
{
    match s {
        Ros2NodeState::Unconfigured => out.append("\"Unconfigured\""),
        Ros2NodeState::Inactive => out.append("\"Inactive\""),
        Ros2NodeState::Active => out.append("\"Active\""),
        Ros2NodeState::Shutdown => out.append("\"Shutdown\""),
        Ros2NodeState::NonLifecycle => out.append("\"NonLifecycle\""),
    }
}

fn write_node_head(node: &Ros2Node, out: &mut String)
    ensures
        final(out)@ == old(out)@ + json_node_head_view(node@),
{
    out.append("{\"name\":");
    write_json_string(out, node.name.as_str());
    out.append(",\"package_name\":");
    write_json_string(out, node.package_name.as_str());
    out.append(",\"subscribers\":");
    write_json_array(out, &node.subscribers);
    out.append(",\"publishers\":");
    write_json_array(out, &node.publishers);
    out.append(",\"service_servers\":");
    write_json_array(out, &node.service_servers);
    out.append(",\"service_clients\":");
    write_json_array(out, &node.service_clients);
    proof {
        reveal(json_node_head_view);
        assert(json_seq_of(node.subscribers@) =~= endpoints_json_seq(node@.subscribers));
        assert(json_seq_of(node.publishers@) =~= endpoints_json_seq(node@.publishers));
        assert(json_seq_of(node.service_servers@) =~= attachments_json_seq(
            node@.service_servers,
        ));
        assert(json_seq_of(node.service_clients@) =~= attachments_json_seq(
            node@.service_clients,
        ));
        assert(final(out)@ =~= old(out)@ + json_node_head_view(node@));
    }
}

fn write_node_tail(node: &Ros2Node, out: &mut String)
    ensures
        final(out)@ == old(out)@ + json_node_tail_view(node@),
{
    out.append(",\"action_servers\":");
    write_json_array(out, &node.action_servers);
    out.append(",\"action_clients\":");
    write_json_array(out, &node.action_clients);
    out.append(",\"host\":");
    write_host(out, &node.host);
    out.append(",\"is_lifecycle\":");
    write_bool(out, node.is_lifecycle);
    out.append(",\"state\":");
    write_node_state(out, node.state);
    out.append("}");
    proof {
        reveal(json_node_tail_view);
        assert(json_seq_of(node.action_servers@) =~= attachments_json_seq(node@.action_servers));
        assert(json_seq_of(node.action_clients@) =~= attachments_json_seq(node@.action_clients));
        assert(final(out)@ =~= old(out)@ + json_node_tail_view(node@));
    }
}

impl ToJson for Ros2Node {
    open spec fn json_spec(&self) -> Seq<char> {
        json_node_view(self@)
    }

    fn write_json(&self, out: &mut String) {
        write_node_head(self, out);
        write_node_tail(self, out);
        proof {
            assert(final(out)@ =~= old(out)@ + (json_node_head_view(self@) + json_node_tail_view(
                self@,
            )));
        }
    }
}

fn write_state_packages(state: &Ros2State, out: &mut String)
    ensures
        final(out)@ == old(out)@ + "{\"packages\":"@ + "["@ + joined(
            packages_json_seq(state@.packages),
        ) + "]"@,
{
    out.append("{\"packages\":");
    write_json_array(out, &state.packages);
    proof {
        assert(json_seq_of(state.packages@) =~= packages_json_seq(state@.packages));
        assert(final(out)@ =~= old(out)@ + "{\"packages\":"@ + "["@ + joined(
            packages_json_seq(state@.packages),
        ) + "]"@);
    }
}

fn write_state_nodes(state: &Ros2State, out: &mut String)
    ensures
        final(out)@ == old(out)@ + ",\"nodes\":"@ + "["@ + joined(nodes_json_seq(state@.nodes))
            + "]"@,
{
    out.append(",\"nodes\":");
    write_json_array(out, &state.nodes);
    proof {
        assert(json_seq_of(state.nodes@) =~= nodes_json_seq(state@.nodes));
        assert(final(out)@ =~= old(out)@ + ",\"nodes\":"@ + "["@ + joined(
            nodes_json_seq(state@.nodes),
        ) + "]"@);
    }
}

fn write_state_topics(state: &Ros2State, out: &mut String)
    ensures
        final(out)@ == old(out)@ + ",\"topics\":"@ + "["@ + joined(
            topics_json_seq(state@.topics),
        ) + "]"@ + "}"@,
{
    out.append(",\"topics\":");
    write_json_array(out, &state.topics);
    out.append("}");
    proof {
        assert(json_seq_of(state.topics@) =~= topics_json_seq(state@.topics));
        assert(final(out)@ =~= old(out)@ + ",\"topics\":"@ + "["@ + joined(
            topics_json_seq(state@.topics),
        ) + "]"@ + "}"@);
    }
}

/// Renders a store snapshot as JSON text.
pub fn render_state(state: &Ros2State) -> (r: String)
    ensures
        r@ == ros2_state_json_view(state@),
{
    let mut out = String::new();
    write_state_packages(state, &mut out);
    write_state_nodes(state, &mut out);
    write_state_topics(state, &mut out);
    proof {
        assert(out@ =~= ros2_state_json_view(state@));
    }
    out
}

} // verus!
