//! The topology store and its entity types: packages, nodes, topics,
//! publishers and subscribers, reconciled from discovery events.
//!
//! Every entity has a mathematical view; the store's mutators are specified
//! as functions from view to view, so that callers can reason about whole
//! store states.

use vstd::prelude::*;
use vstd::pervasive::VecAdditionalExecFns;
use crate::strutil::{starts_with_spec, str_eq, str_starts_with};

verus! {

/// Finds the index of the first element of `s` satisfying `p`, or -1 if
/// there is none.
pub open spec fn first_where<A>(s: Seq<A>, p: spec_fn(A) -> bool) -> int
    decreases s.len(),
{
    if s.len() == 0 {
        -1
    } else if p(s[0]) {
        0
    } else if first_where(s.drop_first(), p) == -1 {
        -1
    } else {
        first_where(s.drop_first(), p) + 1
    }
}

pub proof fn lemma_first_where<A>(s: Seq<A>, p: spec_fn(A) -> bool)
    ensures
        first_where(s, p) == -1 <==> (forall|i: int| 0 <= i < s.len() ==> !p(s[i])),
        first_where(s, p) != -1 ==> 0 <= first_where(s, p) < s.len() && p(s[first_where(s, p)])
            && (forall|i: int| 0 <= i < first_where(s, p) ==> !p(s[i])),
    decreases s.len(),
{
    if s.len() == 0 {
    } else if p(s[0]) {
    } else {
        lemma_first_where(s.drop_first(), p);
        assert(forall|i: int| 1 <= i < s.len() ==> s[i] == s.drop_first()[i - 1]);
    }
}

/// The first index satisfying a predicate is unique, so an index that
/// satisfies `p` and has no satisfying index before it is the one
/// `first_where` finds.
pub proof fn lemma_first_where_is<A>(s: Seq<A>, p: spec_fn(A) -> bool, i: int)
    requires
        0 <= i < s.len(),
        p(s[i]),
        forall|j: int| 0 <= j < i ==> !p(s[j]),
    ensures
        first_where(s, p) == i,
{
    lemma_first_where(s, p);
    let r = first_where(s, p);
    assert(r != -1);
    if r < i {
        assert(!p(s[r]));
    }
    if r > i {
        assert(!p(s[i]));
    }
}

// ---------------------------------------------------------------------------
// Entity types and their views
// ---------------------------------------------------------------------------

/// Runtime settings of the monitor.
#[derive(Debug)]
pub struct Settings {
    pub domain_id: u32,
    pub include_internals: bool,
    pub dds_topic_type: bool,
}

impl Settings {
    pub fn new() -> (r: Settings)
        ensures
            r.domain_id == 0,
            !r.include_internals,
            !r.dds_topic_type,
    {
        Settings { domain_id: 0, include_internals: false, dds_topic_type: false }
    }
}

impl Clone for Settings {
    fn clone(&self) -> (r: Self)
        ensures
            r == *self,
    {
        Settings {
            domain_id: self.domain_id,
            include_internals: self.include_internals,
            dds_topic_type: self.dds_topic_type,
        }
    }
}

/// A host as seen from an endpoint: its address and its resolved name.
#[derive(Debug)]
pub struct Host {
    pub ip: String,
    pub name: String,
}

#[verifier::ext_equal]
pub ghost struct HostView {
    pub ip: Seq<char>,
    pub name: Seq<char>,
}

impl View for Host {
    type V = HostView;

    open spec fn view(&self) -> HostView {
        HostView { ip: self.ip@, name: self.name@ }
    }
}

impl Host {
    /// The loopback host.
    pub fn default() -> (r: Host)
        ensures
            r@.ip == "127.0.0.1"@,
            r@.name == "localhost"@,
    {
        Host { ip: String::from_str("127.0.0.1"), name: String::from_str("localhost") }
    }

    pub fn new(ip: String, name: String) -> (r: Host)
        ensures
            r@.ip == ip@,
            r@.name == name@,
    {
        Host { ip, name }
    }
}

impl Clone for Host {
    fn clone(&self) -> (r: Self)
        ensures
            r@ == self@,
    {
        Host { ip: self.ip.clone(), name: self.name.clone() }
    }
}

/// The managed lifecycle state of a node; nodes that do not support the
/// managed lifecycle carry `NonLifecycle`.
#[derive(Clone, Copy, PartialEq, Eq, Structural, Debug)]
pub enum Ros2NodeState {
    Unconfigured,
    Inactive,
    Active,
    Shutdown,
    NonLifecycle,
}

/// A publication endpoint.
#[derive(Debug)]
pub struct Ros2Publisher {
    pub topic_name: String,
    pub guid: String,
    pub node_name: String,
    pub topic_type: String,
    pub host: Host,
}

#[verifier::ext_equal]
pub ghost struct EndpointView {
    pub topic_name: Seq<char>,
    pub guid: Seq<char>,
    pub node_name: Seq<char>,
    pub topic_type: Seq<char>,
    pub host: HostView,
}

impl View for Ros2Publisher {
    type V = EndpointView;

    open spec fn view(&self) -> EndpointView {
        EndpointView {
            topic_name: self.topic_name@,
            guid: self.guid@,
            node_name: self.node_name@,
            topic_type: self.topic_type@,
            host: self.host@,
        }
    }
}

impl Clone for Ros2Publisher {
    fn clone(&self) -> (r: Self)
        ensures
            r@ == self@,
    {
        Ros2Publisher {
            topic_name: self.topic_name.clone(),
            guid: self.guid.clone(),
            node_name: self.node_name.clone(),
            topic_type: self.topic_type.clone(),
            host: self.host.clone(),
        }
    }
}

/// A subscription endpoint.
#[derive(Debug)]
pub struct Ros2Subscriber {
    pub topic_name: String,
    pub node_name: String,
    pub guid: String,
    pub topic_type: String,
    pub host: Host,
}

impl View for Ros2Subscriber {
    type V = EndpointView;

    open spec fn view(&self) -> EndpointView {
        EndpointView {
            topic_name: self.topic_name@,
            guid: self.guid@,
            node_name: self.node_name@,
            topic_type: self.topic_type@,
            host: self.host@,
        }
    }
}

impl Clone for Ros2Subscriber {
    fn clone(&self) -> (r: Self)
        ensures
            r@ == self@,
    {
        Ros2Subscriber {
            topic_name: self.topic_name.clone(),
            node_name: self.node_name.clone(),
            guid: self.guid.clone(),
            topic_type: self.topic_type.clone(),
            host: self.host.clone(),
        }
    }
}

/// A named service or action attachment of a node.
#[derive(Debug)]
pub struct Ros2ActionClient {
    pub name: String,
    pub node_name: String,
    pub topic_name: String,
}

#[derive(Debug)]
pub struct Ros2ActionServer {
    pub name: String,
    pub node_name: String,
    pub topic_name: String,
}

#[derive(Debug)]
pub struct Ros2ServiceServer {
    pub name: String,
    pub node_name: String,
    pub topic_name: String,
}

#[derive(Debug)]
pub struct Ros2ServiceClient {
    pub name: String,
    pub node_name: String,
    pub topic_name: String,
}

/// A client attachment; kept for completeness of the data model.
#[derive(Debug)]
pub struct Ros2Client {
    pub name: String,
    pub node_name: String,
}

#[verifier::ext_equal]
pub ghost struct AttachmentView {
    pub name: Seq<char>,
    pub node_name: Seq<char>,
    pub topic_name: Seq<char>,
}

impl View for Ros2ActionClient {
    type V = AttachmentView;

    open spec fn view(&self) -> AttachmentView {
        AttachmentView {
            name: self.name@,
            node_name: self.node_name@,
            topic_name: self.topic_name@,
        }
    }
}

impl Clone for Ros2ActionClient {
    fn clone(&self) -> (r: Self)
        ensures
            r@ == self@,
    {
        Ros2ActionClient {
            name: self.name.clone(),
            node_name: self.node_name.clone(),
            topic_name: self.topic_name.clone(),
        }
    }
}

impl View for Ros2ActionServer {
    type V = AttachmentView;

    open spec fn view(&self) -> AttachmentView {
        AttachmentView {
            name: self.name@,
            node_name: self.node_name@,
            topic_name: self.topic_name@,
        }
    }
}

impl Clone for Ros2ActionServer {
    fn clone(&self) -> (r: Self)
        ensures
            r@ == self@,
    {
        Ros2ActionServer {
            name: self.name.clone(),
            node_name: self.node_name.clone(),
            topic_name: self.topic_name.clone(),
        }
    }
}

impl View for Ros2ServiceServer {
    type V = AttachmentView;

    open spec fn view(&self) -> AttachmentView {
        AttachmentView {
            name: self.name@,
            node_name: self.node_name@,
            topic_name: self.topic_name@,
        }
    }
}

impl Clone for Ros2ServiceServer {
    fn clone(&self) -> (r: Self)
        ensures
            r@ == self@,
    {
        Ros2ServiceServer {
            name: self.name.clone(),
            node_name: self.node_name.clone(),
            topic_name: self.topic_name.clone(),
        }
    }
}

impl View for Ros2ServiceClient {
    type V = AttachmentView;

    open spec fn view(&self) -> AttachmentView {
        AttachmentView {
            name: self.name@,
            node_name: self.node_name@,
            topic_name: self.topic_name@,
        }
    }
}

impl Clone for Ros2ServiceClient {
    fn clone(&self) -> (r: Self)
        ensures
            r@ == self@,
    {
        Ros2ServiceClient {
            name: self.name.clone(),
            node_name: self.node_name.clone(),
            topic_name: self.topic_name.clone(),
        }
    }
}

#[verifier::ext_equal]
pub ghost struct ClientView {
    pub name: Seq<char>,
    pub node_name: Seq<char>,
}

impl View for Ros2Client {
    type V = ClientView;

    open spec fn view(&self) -> ClientView {
        ClientView { name: self.name@, node_name: self.node_name@ }
    }
}

impl Clone for Ros2Client {
    fn clone(&self) -> (r: Self)
        ensures
            r@ == self@,
    {
        Ros2Client { name: self.name.clone(), node_name: self.node_name.clone() }
    }
}

/// An executable that a package installs.
#[derive(Debug)]
pub struct Ros2Executable {
    pub name: String,
    pub package_name: String,
    pub path: String,
}

#[verifier::ext_equal]
pub ghost struct ExecutableView {
    pub name: Seq<char>,
    pub package_name: Seq<char>,
    pub path: Seq<char>,
}

impl View for Ros2Executable {
    type V = ExecutableView;

    open spec fn view(&self) -> ExecutableView {
        ExecutableView {
            name: self.name@,
            package_name: self.package_name@,
            path: self.path@,
        }
    }
}

impl Clone for Ros2Executable {
    fn clone(&self) -> (r: Self)
        ensures
            r@ == self@,
    {
        Ros2Executable {
            name: self.name.clone(),
            package_name: self.package_name.clone(),
            path: self.path.clone(),
        }
    }
}

/// An installed package with its executables.
#[derive(Debug)]
pub struct Ros2Package {
    pub name: String,
    pub path: String,
    pub executables: Vec<Ros2Executable>,
}

#[verifier::ext_equal]
pub ghost struct PackageView {
    pub name: Seq<char>,
    pub path: Seq<char>,
    pub executables: Seq<ExecutableView>,
}

impl View for Ros2Package {
    type V = PackageView;

    open spec fn view(&self) -> PackageView {
        PackageView {
            name: self.name@,
            path: self.path@,
            executables: self.executables@.map_values(|e: Ros2Executable| e@),
        }
    }
}

impl Clone for Ros2Package {
    fn clone(&self) -> (r: Self)
        ensures
            r@ == self@,
    {
        let r = Ros2Package {
            name: self.name.clone(),
            path: self.path.clone(),
            executables: clone_executables(&self.executables),
        };
        proof {
            assert(r@ =~~= self@);
        }
        r
    }
}

fn clone_executables(v: &Vec<Ros2Executable>) -> (r: Vec<Ros2Executable>)
    ensures
        r@.map_values(|e: Ros2Executable| e@) == v@.map_values(|e: Ros2Executable| e@),
{
    let mut r: Vec<Ros2Executable> = Vec::new();
    let mut i: usize = 0;
    while i < v.len()
        invariant
            0 <= i <= v@.len(),
            r@.len() == i,
            forall|j: int| 0 <= j < i ==> r@[j]@ == v@[j]@,
        decreases v@.len() - i,
    {
        r.push(v[i].clone());
        i = i + 1;
    }
    proof {
        assert(r@.map_values(|e: Ros2Executable| e@) =~= v@.map_values(|e: Ros2Executable| e@));
    }
    r
}

/// A node with its attachments.
#[derive(Debug)]
pub struct Ros2Node {
    pub name: String,
    pub package_name: String,
    pub subscribers: Vec<Ros2Subscriber>,
    pub publishers: Vec<Ros2Publisher>,
    pub service_servers: Vec<Ros2ServiceServer>,
    pub service_clients: Vec<Ros2ServiceClient>,
    pub action_servers: Vec<Ros2ActionServer>,
    pub action_clients: Vec<Ros2ActionClient>,
    pub host: Host,
    pub is_lifecycle: bool,
    pub state: Ros2NodeState,
}

#[verifier::ext_equal]
pub ghost struct NodeView {
    pub name: Seq<char>,
    pub package_name: Seq<char>,
    pub subscribers: Seq<EndpointView>,
    pub publishers: Seq<EndpointView>,
    pub service_servers: Seq<AttachmentView>,
    pub service_clients: Seq<AttachmentView>,
    pub action_servers: Seq<AttachmentView>,
    pub action_clients: Seq<AttachmentView>,
    pub host: HostView,
    pub is_lifecycle: bool,
    pub state: Ros2NodeState,
}

impl View for Ros2Node {
    type V = NodeView;

    open spec fn view(&self) -> NodeView {
        NodeView {
            name: self.name@,
            package_name: self.package_name@,
            subscribers: self.subscribers@.map_values(|s: Ros2Subscriber| s@),
            publishers: self.publishers@.map_values(|p: Ros2Publisher| p@),
            service_servers: self.service_servers@.map_values(|s: Ros2ServiceServer| s@),
            service_clients: self.service_clients@.map_values(|s: Ros2ServiceClient| s@),
            action_servers: self.action_servers@.map_values(|a: Ros2ActionServer| a@),
            action_clients: self.action_clients@.map_values(|a: Ros2ActionClient| a@),
            host: self.host@,
            is_lifecycle: self.is_lifecycle,
            state: self.state,
        }
    }
}

fn clone_subscribers(v: &Vec<Ros2Subscriber>) -> (r: Vec<Ros2Subscriber>)
    ensures
        r@.map_values(|s: Ros2Subscriber| s@) == v@.map_values(|s: Ros2Subscriber| s@),
{
    let mut r: Vec<Ros2Subscriber> = Vec::new();
    let mut i: usize = 0;
    while i < v.len()
        invariant
            0 <= i <= v@.len(),
            r@.len() == i,
            forall|j: int| 0 <= j < i ==> r@[j]@ == v@[j]@,
        decreases v@.len() - i,
    {
        r.push(v[i].clone());
        i = i + 1;
    }
    proof {
        assert(r@.map_values(|s: Ros2Subscriber| s@) =~= v@.map_values(|s: Ros2Subscriber| s@));
    }
    r
}

fn clone_publishers(v: &Vec<Ros2Publisher>) -> (r: Vec<Ros2Publisher>)
    ensures
        r@.map_values(|p: Ros2Publisher| p@) == v@.map_values(|p: Ros2Publisher| p@),
{
    let mut r: Vec<Ros2Publisher> = Vec::new();
    let mut i: usize = 0;
    while i < v.len()
        invariant
            0 <= i <= v@.len(),
            r@.len() == i,
            forall|j: int| 0 <= j < i ==> r@[j]@ == v@[j]@,
        decreases v@.len() - i,
    {
        r.push(v[i].clone());
        i = i + 1;
    }
    proof {
        assert(r@.map_values(|p: Ros2Publisher| p@) =~= v@.map_values(|p: Ros2Publisher| p@));
    }
    r
}

fn clone_service_servers(v: &Vec<Ros2ServiceServer>) -> (r: Vec<Ros2ServiceServer>)
    ensures
        r@.map_values(|s: Ros2ServiceServer| s@) == v@.map_values(|s: Ros2ServiceServer| s@),
{
    let mut r: Vec<Ros2ServiceServer> = Vec::new();
    let mut i: usize = 0;
    while i < v.len()
        invariant
            0 <= i <= v@.len(),
            r@.len() == i,
            forall|j: int| 0 <= j < i ==> r@[j]@ == v@[j]@,
        decreases v@.len() - i,
    {
        r.push(v[i].clone());
        i = i + 1;
    }
    proof {
        assert(r@.map_values(|s: Ros2ServiceServer| s@) =~= v@.map_values(
            |s: Ros2ServiceServer| s@,
        ));
    }
    r
}

fn clone_service_clients(v: &Vec<Ros2ServiceClient>) -> (r: Vec<Ros2ServiceClient>)
    ensures
        r@.map_values(|s: Ros2ServiceClient| s@) == v@.map_values(|s: Ros2ServiceClient| s@),
{
    let mut r: Vec<Ros2ServiceClient> = Vec::new();
    let mut i: usize = 0;
    while i < v.len()
        invariant
            0 <= i <= v@.len(),
            r@.len() == i,
            forall|j: int| 0 <= j < i ==> r@[j]@ == v@[j]@,
        decreases v@.len() - i,
    {
        r.push(v[i].clone());
        i = i + 1;
    }
    proof {
        assert(r@.map_values(|s: Ros2ServiceClient| s@) =~= v@.map_values(
            |s: Ros2ServiceClient| s@,
        ));
    }
    r
}

fn clone_action_servers(v: &Vec<Ros2ActionServer>) -> (r: Vec<Ros2ActionServer>)
    ensures
        r@.map_values(|a: Ros2ActionServer| a@) == v@.map_values(|a: Ros2ActionServer| a@),
{
    let mut r: Vec<Ros2ActionServer> = Vec::new();
    let mut i: usize = 0;
    while i < v.len()
        invariant
            0 <= i <= v@.len(),
            r@.len() == i,
            forall|j: int| 0 <= j < i ==> r@[j]@ == v@[j]@,
        decreases v@.len() - i,
    {
        r.push(v[i].clone());
        i = i + 1;
    }
    proof {
        assert(r@.map_values(|a: Ros2ActionServer| a@) =~= v@.map_values(
            |a: Ros2ActionServer| a@,
        ));
    }
    r
}

fn clone_action_clients(v: &Vec<Ros2ActionClient>) -> (r: Vec<Ros2ActionClient>)
    ensures
        r@.map_values(|a: Ros2ActionClient| a@) == v@.map_values(|a: Ros2ActionClient| a@),
{
    let mut r: Vec<Ros2ActionClient> = Vec::new();
    let mut i: usize = 0;
    while i < v.len()
        invariant
            0 <= i <= v@.len(),
            r@.len() == i,
            forall|j: int| 0 <= j < i ==> r@[j]@ == v@[j]@,
        decreases v@.len() - i,
    {
        r.push(v[i].clone());
        i = i + 1;
    }
    proof {
        assert(r@.map_values(|a: Ros2ActionClient| a@) =~= v@.map_values(
            |a: Ros2ActionClient| a@,
        ));
    }
    r
}

impl Clone for Ros2Node {
    fn clone(&self) -> (r: Self)
        ensures
            r@ == self@,
    {
        let r = Ros2Node {
            name: self.name.clone(),
            package_name: self.package_name.clone(),
            subscribers: clone_subscribers(&self.subscribers),
            publishers: clone_publishers(&self.publishers),
            service_servers: clone_service_servers(&self.service_servers),
            service_clients: clone_service_clients(&self.service_clients),
            action_servers: clone_action_servers(&self.action_servers),
            action_clients: clone_action_clients(&self.action_clients),
            host: self.host.clone(),
            is_lifecycle: self.is_lifecycle,
            state: self.state,
        };
        proof {
            assert(r@ =~~= self@);
        }
        r
    }
}

impl Ros2Node {
    /// A fresh node with the given name and everything else empty or
    /// defaulted.
    pub fn create(name: String) -> (r: Ros2Node)
        ensures
            r@ == (NodeView {
                name: name@,
                package_name: Seq::<char>::empty(),
                subscribers: Seq::<EndpointView>::empty(),
                publishers: Seq::<EndpointView>::empty(),
                service_servers: Seq::<AttachmentView>::empty(),
                service_clients: Seq::<AttachmentView>::empty(),
                action_servers: Seq::<AttachmentView>::empty(),
                action_clients: Seq::<AttachmentView>::empty(),
                host: HostView { ip: "127.0.0.1"@, name: "localhost"@ },
                is_lifecycle: false,
                state: Ros2NodeState::Inactive,
            }),
    {
        let r = Ros2Node {
            name,
            package_name: String::new(),
            subscribers: Vec::new(),
            publishers: Vec::new(),
            service_servers: Vec::new(),
            service_clients: Vec::new(),
            action_servers: Vec::new(),
            action_clients: Vec::new(),
            host: Host::default(),
            is_lifecycle: false,
            state: Ros2NodeState::Inactive,
        };
        proof {
            assert(r@ =~~= NodeView {
                name: r.name@,
                package_name: Seq::<char>::empty(),
                subscribers: Seq::<EndpointView>::empty(),
                publishers: Seq::<EndpointView>::empty(),
                service_servers: Seq::<AttachmentView>::empty(),
                service_clients: Seq::<AttachmentView>::empty(),
                action_servers: Seq::<AttachmentView>::empty(),
                action_clients: Seq::<AttachmentView>::empty(),
                host: HostView { ip: "127.0.0.1"@, name: "localhost"@ },
                is_lifecycle: false,
                state: Ros2NodeState::Inactive,
            });
        }
        r
    }
}

/// The process-level network presence a participant announces.
#[derive(Debug)]
pub struct Ros2Context {
    pub guid: String,
    pub host: Host,
}

#[verifier::ext_equal]
pub ghost struct ContextView {
    pub guid: Seq<char>,
    pub host: HostView,
}

impl View for Ros2Context {
    type V = ContextView;

    open spec fn view(&self) -> ContextView {
        ContextView { guid: self.guid@, host: self.host@ }
    }
}

impl Clone for Ros2Context {
    fn clone(&self) -> (r: Self)
        ensures
            r@ == self@,
    {
        Ros2Context { guid: self.guid.clone(), host: self.host.clone() }
    }
}

impl Ros2Context {
    pub fn new(guid: String, host: Host) -> (r: Ros2Context)
        ensures
            r@.guid == guid@,
            r@.host == host@,
    {
        Ros2Context { guid, host }
    }
}

/// A topic, identified by its name and type, with counters of the endpoint
/// records currently referencing it.
#[derive(Debug)]
pub struct Ros2Topic {
    pub name: String,
    pub node_name: String,
    pub topic_type: String,
    pub subscribers_num: u64,
    pub publishers_num: u64,
}

#[verifier::ext_equal]
pub ghost struct TopicView {
    pub name: Seq<char>,
    pub node_name: Seq<char>,
    pub topic_type: Seq<char>,
    pub subscribers_num: u64,
    pub publishers_num: u64,
}

impl View for Ros2Topic {
    type V = TopicView;

    open spec fn view(&self) -> TopicView {
        TopicView {
            name: self.name@,
            node_name: self.node_name@,
            topic_type: self.topic_type@,
            subscribers_num: self.subscribers_num,
            publishers_num: self.publishers_num,
        }
    }
}

impl Clone for Ros2Topic {
    fn clone(&self) -> (r: Self)
        ensures
            r@ == self@,
    {
        Ros2Topic {
            name: self.name.clone(),
            node_name: self.node_name.clone(),
            topic_type: self.topic_type.clone(),
            subscribers_num: self.subscribers_num,
            publishers_num: self.publishers_num,
        }
    }
}

// ---------------------------------------------------------------------------
// The topology store
// ---------------------------------------------------------------------------

/// The derived graph of packages, nodes and topics.
#[derive(Debug)]
pub struct Ros2State {
    pub packages: Vec<Ros2Package>,
    pub nodes: Vec<Ros2Node>,
    pub topics: Vec<Ros2Topic>,
    pub include_internals: bool,
}

#[verifier::ext_equal]
pub ghost struct StateView {
    pub packages: Seq<PackageView>,
    pub nodes: Seq<NodeView>,
    pub topics: Seq<TopicView>,
    pub include_internals: bool,
}

impl View for Ros2State {
    type V = StateView;

    open spec fn view(&self) -> StateView {
        StateView {
            packages: self.packages@.map_values(|p: Ros2Package| p@),
            nodes: self.nodes@.map_values(|n: Ros2Node| n@),
            topics: self.topics@.map_values(|t: Ros2Topic| t@),
            include_internals: self.include_internals,
        }
    }
}

fn clone_packages(v: &Vec<Ros2Package>) -> (r: Vec<Ros2Package>)
    ensures
        r@.map_values(|p: Ros2Package| p@) == v@.map_values(|p: Ros2Package| p@),
{
    let mut r: Vec<Ros2Package> = Vec::new();
    let mut i: usize = 0;
    while i < v.len()
        invariant
            0 <= i <= v@.len(),
            r@.len() == i,
            forall|j: int| 0 <= j < i ==> r@[j]@ == v@[j]@,
        decreases v@.len() - i,
    {
        r.push(v[i].clone());
        i = i + 1;
    }
    proof {
        assert(r@.map_values(|p: Ros2Package| p@) =~= v@.map_values(|p: Ros2Package| p@));
    }
    r
}

fn clone_nodes(v: &Vec<Ros2Node>) -> (r: Vec<Ros2Node>)
    ensures
        r@.map_values(|n: Ros2Node| n@) == v@.map_values(|n: Ros2Node| n@),
{
    let mut r: Vec<Ros2Node> = Vec::new();
    let mut i: usize = 0;
    while i < v.len()
        invariant
            0 <= i <= v@.len(),
            r@.len() == i,
            forall|j: int| 0 <= j < i ==> r@[j]@ == v@[j]@,
        decreases v@.len() - i,
    {
        r.push(v[i].clone());
        i = i + 1;
    }
    proof {
        assert(r@.map_values(|n: Ros2Node| n@) =~= v@.map_values(|n: Ros2Node| n@));
    }
    r
}

fn clone_topics(v: &Vec<Ros2Topic>) -> (r: Vec<Ros2Topic>)
    ensures
        r@.map_values(|t: Ros2Topic| t@) == v@.map_values(|t: Ros2Topic| t@),
{
    let mut r: Vec<Ros2Topic> = Vec::new();
    let mut i: usize = 0;
    while i < v.len()
        invariant
            0 <= i <= v@.len(),
            r@.len() == i,
            forall|j: int| 0 <= j < i ==> r@[j]@ == v@[j]@,
        decreases v@.len() - i,
    {
        r.push(v[i].clone());
        i = i + 1;
    }
    proof {
        assert(r@.map_values(|t: Ros2Topic| t@) =~= v@.map_values(|t: Ros2Topic| t@));
    }
    r
}

impl Clone for Ros2State {
    /// Snapshot of the store: an independently owned copy with the same
    /// view.
    fn clone(&self) -> (r: Self)
        ensures
            r@ == self@,
    {
        let r = Ros2State {
            packages: clone_packages(&self.packages),
            nodes: clone_nodes(&self.nodes),
            topics: clone_topics(&self.topics),
            include_internals: self.include_internals,
        };
        proof {
            assert(r@ =~~= self@);
        }
        r
    }
}

// ---------------------------------------------------------------------------
// Predicates the store's contracts are phrased over
// ---------------------------------------------------------------------------

/// The node is named `name`.
pub open spec fn name_is(name: Seq<char>) -> spec_fn(NodeView) -> bool {
    |n: NodeView| n.name == name
}

/// The package is named `name`.
pub open spec fn package_name_is(name: Seq<char>) -> spec_fn(PackageView) -> bool {
    |p: PackageView| p.name == name
}

/// The topic carries the given name, whatever its type.
pub open spec fn topic_name_is(name: Seq<char>) -> spec_fn(TopicView) -> bool {
    |t: TopicView| t.name == name
}

/// The topic has the given name and type.
pub open spec fn topic_key_is(name: Seq<char>, ty: Seq<char>) -> spec_fn(TopicView) -> bool {
    |t: TopicView| t.name == name && t.topic_type == ty
}

/// The endpoint-removal match, keyed by topic type and node name.
pub open spec fn endpoint_matches_key(topic_type: Seq<char>, node_name: Seq<char>) -> spec_fn(
    EndpointView,
) -> bool {
    |q: EndpointView| q.topic_type == topic_type && q.node_name == node_name
}

/// The endpoint record agrees with `p` on topic type and node name; this is
/// the match used when removing endpoints.
pub open spec fn endpoint_matches(p: EndpointView) -> spec_fn(EndpointView) -> bool {
    endpoint_matches_key(p.topic_type, p.node_name)
}

/// The topic does not belong to the node of that name.
pub open spec fn topic_not_of(name: Seq<char>) -> spec_fn(TopicView) -> bool {
    |t: TopicView| t.node_name != name
}

/// The node's publisher list holds a record with this topic type and node
/// name.
pub open spec fn node_has_pub_key(topic_type: Seq<char>, node_name: Seq<char>) -> spec_fn(
    NodeView,
) -> bool {
    |n: NodeView| first_where(n.publishers, endpoint_matches_key(topic_type, node_name)) != -1
}

/// The node's subscriber list holds a record with this topic type and node
/// name.
pub open spec fn node_has_sub_key(topic_type: Seq<char>, node_name: Seq<char>) -> spec_fn(
    NodeView,
) -> bool {
    |n: NodeView| first_where(n.subscribers, endpoint_matches_key(topic_type, node_name)) != -1
}

/// The node's publisher list holds a record matching `p`.
pub open spec fn node_has_matching_pub(p: EndpointView) -> spec_fn(NodeView) -> bool {
    node_has_pub_key(p.topic_type, p.node_name)
}

/// The node's subscriber list holds a record matching `p`.
pub open spec fn node_has_matching_sub(p: EndpointView) -> spec_fn(NodeView) -> bool {
    node_has_sub_key(p.topic_type, p.node_name)
}

/// The leading "/" of a topic name, stripped once if present.
pub open spec fn strip_slash(s: Seq<char>) -> Seq<char> {
    if s.len() > 0 && s[0] == '/' {
        s.drop_first()
    } else {
        s
    }
}

/// An internal (system-reserved) topic: after stripping one leading "/",
/// the name is one of the fixed blacklist.
pub open spec fn is_internal_spec(s: Seq<char>) -> bool {
    strip_slash(s) == "parameter_events"@ || strip_slash(s) == "rosout"@
}

pub open spec fn spec_has_package(st: StateView, name: Seq<char>) -> bool {
    exists|i: int| 0 <= i < st.packages.len() && st.packages[i].name == name
}

pub open spec fn spec_has_node(st: StateView, name: Seq<char>) -> bool {
    exists|i: int| 0 <= i < st.nodes.len() && st.nodes[i].name == name
}

pub open spec fn spec_has_publisher(st: StateView, p: EndpointView) -> bool {
    exists|i: int, j: int|
        0 <= i < st.nodes.len() && 0 <= j < st.nodes[i].publishers.len() && endpoint_matches(p)(
            st.nodes[i].publishers[j],
        )
}

pub open spec fn spec_has_subscriber(st: StateView, p: EndpointView) -> bool {
    exists|i: int, j: int|
        0 <= i < st.nodes.len() && 0 <= j < st.nodes[i].subscribers.len() && endpoint_matches(p)(
            st.nodes[i].subscribers[j],
        )
}

// ---------------------------------------------------------------------------
// The mutation operations, as functions from view to view
// ---------------------------------------------------------------------------

/// The node object created when an endpoint arrives for a node not yet in
/// the store.  The endpoint record is attached only when `include_entry`
/// holds; it lands in the publisher or subscriber list depending on
/// `as_publisher`.
pub open spec fn new_node_for_endpoint(p: EndpointView, include_entry: bool, as_publisher: bool)
    -> NodeView {
    NodeView {
        name: p.node_name,
        package_name: Seq::<char>::empty(),
        subscribers: if include_entry && !as_publisher {
            seq![p]
        } else {
            Seq::<EndpointView>::empty()
        },
        publishers: if include_entry && as_publisher {
            seq![p]
        } else {
            Seq::<EndpointView>::empty()
        },
        service_servers: Seq::<AttachmentView>::empty(),
        service_clients: Seq::<AttachmentView>::empty(),
        action_servers: Seq::<AttachmentView>::empty(),
        action_clients: Seq::<AttachmentView>::empty(),
        host: p.host,
        is_lifecycle: false,
        state: Ros2NodeState::Unconfigured,
    }
}

pub open spec fn spec_add_package(st: StateView, p: PackageView) -> StateView {
    if spec_has_package(st, p.name) {
        st
    } else {
        StateView { packages: st.packages.push(p), ..st }
    }
}

pub open spec fn spec_add_node(st: StateView, n: NodeView) -> StateView {
    if spec_has_node(st, n.name) {
        st
    } else {
        StateView { nodes: st.nodes.push(n), ..st }
    }
}

pub open spec fn spec_remove_node(st: StateView, name: Seq<char>) -> StateView {
    let ni = first_where(st.nodes, name_is(name));
    StateView {
        nodes: st.nodes.remove(ni),
        topics: st.topics.filter(topic_not_of(name)),
        ..st
    }
}

/// Whether an endpoint record for this topic is attached to the node's
/// list: internal topics are attached only when internals are included.
pub open spec fn include_endpoint(st: StateView, topic_name: Seq<char>) -> bool {
    !is_internal_spec(topic_name) || st.include_internals
}

/// Whether the node projection is touched at all for this endpoint: nodes
/// whose name begins with the internal-name marker are suppressed unless
/// internals are included.
pub open spec fn node_not_suppressed(st: StateView, node_name: Seq<char>) -> bool {
    !starts_with_spec(node_name, seq!['_']) || st.include_internals
}

/// How the node list absorbs one endpoint.  A fresh node holds the record
/// only when internals allow it.  On an existing node a publisher record is
/// attached under the same filter, but a subscriber record is attached
/// unconditionally: the record stays on the node object even when it is
/// excluded from the node/topic projection (the documented asymmetry of the
/// data model).
pub open spec fn spec_add_endpoint_nodes(st: StateView, p: EndpointView, as_publisher: bool)
    -> Seq<NodeView> {
    let include_entry = include_endpoint(st, p.topic_name);
    if node_not_suppressed(st, p.node_name) {
        let ni = first_where(st.nodes, name_is(p.node_name));
        if ni == -1 {
            st.nodes.push(new_node_for_endpoint(p, include_entry, as_publisher))
        } else {
            let n = st.nodes[ni];
            if as_publisher {
                if include_entry {
                    st.nodes.update(ni, NodeView { publishers: n.publishers.push(p), ..n })
                } else {
                    st.nodes
                }
            } else {
                st.nodes.update(ni, NodeView { subscribers: n.subscribers.push(p), ..n })
            }
        }
    } else {
        st.nodes
    }
}

pub open spec fn spec_add_publisher(st: StateView, p: EndpointView) -> StateView {
    let nodes = spec_add_endpoint_nodes(st, p, true);
    let ti = first_where(st.topics, topic_key_is(p.topic_name, p.topic_type));
    let topics = if ti == -1 {
        st.topics.push(
            TopicView {
                name: p.topic_name,
                node_name: p.node_name,
                topic_type: p.topic_type,
                subscribers_num: 0,
                publishers_num: 1,
            },
        )
    } else {
        let t = st.topics[ti];
        st.topics.update(ti, TopicView { publishers_num: (t.publishers_num + 1) as u64, ..t })
    };
    StateView { nodes, topics, ..st }
}

pub open spec fn spec_add_subscriber(st: StateView, p: EndpointView) -> StateView {
    let nodes = spec_add_endpoint_nodes(st, p, false);
    let ti = first_where(st.topics, topic_key_is(p.topic_name, p.topic_type));
    let topics = if ti == -1 {
        st.topics.push(
            TopicView {
                name: p.topic_name,
                node_name: p.node_name,
                topic_type: p.topic_type,
                subscribers_num: 1,
                publishers_num: 0,
            },
        )
    } else {
        let t = st.topics[ti];
        st.topics.update(ti, TopicView { subscribers_num: (t.subscribers_num + 1) as u64, ..t })
    };
    StateView { nodes, topics, ..st }
}

/// Removal of an endpoint: the first node holding a matching record loses
/// its first matching record; the topic is deleted when both counters are
/// already zero, and otherwise the relevant counter is clamped to
/// `min(current, 0)`.
pub open spec fn spec_remove_endpoint(st: StateView, p: EndpointView, as_publisher: bool)
    -> StateView {
    let ni = if as_publisher {
        first_where(st.nodes, node_has_matching_pub(p))
    } else {
        first_where(st.nodes, node_has_matching_sub(p))
    };
    if ni == -1 {
        st
    } else {
        let n = st.nodes[ni];
        let nodes = if as_publisher {
            let pi = first_where(n.publishers, endpoint_matches(p));
            st.nodes.update(ni, NodeView { publishers: n.publishers.remove(pi), ..n })
        } else {
            let pi = first_where(n.subscribers, endpoint_matches(p));
            st.nodes.update(ni, NodeView { subscribers: n.subscribers.remove(pi), ..n })
        };
        let ti = first_where(st.topics, topic_key_is(p.topic_name, p.topic_type));
        let topics = if ti == -1 {
            st.topics
        } else {
            let t = st.topics[ti];
            if t.publishers_num == 0 && t.subscribers_num == 0 {
                st.topics.remove(ti)
            } else if as_publisher {
                st.topics.update(ti, TopicView { publishers_num: 0, ..t })
            } else {
                st.topics.update(ti, TopicView { subscribers_num: 0, ..t })
            }
        };
        StateView { nodes, topics, ..st }
    }
}

pub open spec fn spec_remove_publisher(st: StateView, p: EndpointView) -> StateView {
    spec_remove_endpoint(st, p, true)
}

pub open spec fn spec_remove_subscriber(st: StateView, p: EndpointView) -> StateView {
    spec_remove_endpoint(st, p, false)
}

// ---------------------------------------------------------------------------
// The executable store operations
// ---------------------------------------------------------------------------

impl Ros2State {
    /// An empty store.
    pub fn new(filter_internal: bool) -> (r: Ros2State)
        ensures
            r@ == (StateView {
                packages: Seq::<PackageView>::empty(),
                nodes: Seq::<NodeView>::empty(),
                topics: Seq::<TopicView>::empty(),
                include_internals: filter_internal,
            }),
    {
        let r = Ros2State {
            packages: Vec::new(),
            nodes: Vec::new(),
            topics: Vec::new(),
            include_internals: filter_internal,
        };
        proof {
            assert(r@ =~~= StateView {
                packages: Seq::<PackageView>::empty(),
                nodes: Seq::<NodeView>::empty(),
                topics: Seq::<TopicView>::empty(),
                include_internals: filter_internal,
            });
        }
        r
    }

    fn find_package_index(&self, name: &str) -> (r: Option<usize>)
        ensures
            match r {
                Some(i) => i < self@.packages.len() && first_where(
                    self@.packages,
                    package_name_is(name@),
                ) == i as int,
                None => first_where(self@.packages, package_name_is(name@)) == -1,
            },
    {
        let n = self.packages.len();
        let mut i: usize = 0;
        while i < n
            invariant
                0 <= i <= n,
                n == self@.packages.len(),
                forall|j: int| 0 <= j < i ==> !package_name_is(name@)(self@.packages[j]),
            decreases n - i,
        {
            if str_eq(self.packages[i].name.as_str(), name) {
                proof {
                    lemma_first_where_is(self@.packages, package_name_is(name@), i as int);
                }
                return Some(i);
            }
            i = i + 1;
        }
        proof {
            lemma_first_where(self@.packages, package_name_is(name@));
        }
        None
    }

    fn find_node_index(&self, name: &str) -> (r: Option<usize>)
        ensures
            match r {
                Some(i) => i < self@.nodes.len() && first_where(self@.nodes, name_is(name@))
                    == i as int,
                None => first_where(self@.nodes, name_is(name@)) == -1,
            },
    {
        let n = self.nodes.len();
        let mut i: usize = 0;
        while i < n
            invariant
                0 <= i <= n,
                n == self@.nodes.len(),
                forall|j: int| 0 <= j < i ==> !name_is(name@)(self@.nodes[j]),
            decreases n - i,
        {
            if str_eq(self.nodes[i].name.as_str(), name) {
                proof {
                    lemma_first_where_is(self@.nodes, name_is(name@), i as int);
                }
                return Some(i);
            }
            i = i + 1;
        }
        proof {
            lemma_first_where(self@.nodes, name_is(name@));
        }
        None
    }

    fn find_topic_index(&self, name: &str, ty: &str) -> (r: Option<usize>)
        ensures
            match r {
                Some(i) => i < self@.topics.len() && first_where(
                    self@.topics,
                    topic_key_is(name@, ty@),
                ) == i as int,
                None => first_where(self@.topics, topic_key_is(name@, ty@)) == -1,
            },
    {
        let n = self.topics.len();
        let mut i: usize = 0;
        while i < n
            invariant
                0 <= i <= n,
                n == self@.topics.len(),
                forall|j: int| 0 <= j < i ==> !topic_key_is(name@, ty@)(self@.topics[j]),
            decreases n - i,
        {
            if str_eq(self.topics[i].name.as_str(), name) && str_eq(
                self.topics[i].topic_type.as_str(),
                ty,
            ) {
                proof {
                    lemma_first_where_is(self@.topics, topic_key_is(name@, ty@), i as int);
                }
                return Some(i);
            }
            i = i + 1;
        }
        proof {
            lemma_first_where(self@.topics, topic_key_is(name@, ty@));
        }
        None
    }

    pub fn has_package(&self, package_name: String) -> (r: bool)
        ensures
            r == spec_has_package(self@, package_name@),
    {
        let found = self.find_package_index(package_name.as_str());
        proof {
            lemma_first_where(self@.packages, package_name_is(package_name@));
        }
        match found {
            Some(i) => {
                proof {
                    assert(self@.packages[i as int].name == package_name@);
                }
                true
            },
            None => {
                proof {
                    assert(forall|i: int|
                        0 <= i < self@.packages.len() ==> !package_name_is(package_name@)(
                            self@.packages[i],
                        ));
                }
                false
            },
        }
    }

    pub fn has_node(&self, node_name: String) -> (r: bool)
        ensures
            r == spec_has_node(self@, node_name@),
    {
        let found = self.find_node_index(node_name.as_str());
        proof {
            lemma_first_where(self@.nodes, name_is(node_name@));
        }
        match found {
            Some(i) => {
                proof {
                    assert(self@.nodes[i as int].name == node_name@);
                }
                true
            },
            None => false,
        }
    }

    /// Same lookup as `has_node`; kept alongside it as in the data model.
    pub fn contains_node(&self, node_name: String) -> (r: bool)
        ensures
            r == spec_has_node(self@, node_name@),
    {
        self.has_node(node_name)
    }

    /// Index of the first publisher record in `v` matching `p` on topic
    /// type and node name.
    fn find_matching_pub(v: &Vec<Ros2Publisher>, topic_type: &str, node_name: &str) -> (r: Option<
        usize,
    >)
        ensures
            match r {
                Some(i) => i < v@.len() && first_where(
                    v@.map_values(|q: Ros2Publisher| q@),
                    endpoint_matches_key(topic_type@, node_name@),
                ) == i as int,
                None => first_where(
                    v@.map_values(|q: Ros2Publisher| q@),
                    endpoint_matches_key(topic_type@, node_name@),
                ) == -1,
            },
    {
        let ghost vs = v@.map_values(|q: Ros2Publisher| q@);
        let n = v.len();
        let mut i: usize = 0;
        while i < n
            invariant
                0 <= i <= n,
                n == v@.len(),
                vs == v@.map_values(|q: Ros2Publisher| q@),
                forall|j: int|
                    0 <= j < i ==> !endpoint_matches_key(topic_type@, node_name@)(vs[j]),
            decreases n - i,
        {
            if str_eq(v[i].topic_type.as_str(), topic_type) && str_eq(
                v[i].node_name.as_str(),
                node_name,
            ) {
                proof {
                    lemma_first_where_is(vs, endpoint_matches_key(topic_type@, node_name@), i as int);
                }
                return Some(i);
            }
            i = i + 1;
        }
        proof {
            lemma_first_where(vs, endpoint_matches_key(topic_type@, node_name@));
        }
        None
    }

    /// Index of the first subscriber record in `v` matching on topic type
    /// and node name.
    fn find_matching_sub(v: &Vec<Ros2Subscriber>, topic_type: &str, node_name: &str) -> (r: Option<
        usize,
    >)
        ensures
            match r {
                Some(i) => i < v@.len() && first_where(
                    v@.map_values(|q: Ros2Subscriber| q@),
                    endpoint_matches_key(topic_type@, node_name@),
                ) == i as int,
                None => first_where(
                    v@.map_values(|q: Ros2Subscriber| q@),
                    endpoint_matches_key(topic_type@, node_name@),
                ) == -1,
            },
    {
        let ghost vs = v@.map_values(|q: Ros2Subscriber| q@);
        let n = v.len();
        let mut i: usize = 0;
        while i < n
            invariant
                0 <= i <= n,
                n == v@.len(),
                vs == v@.map_values(|q: Ros2Subscriber| q@),
                forall|j: int|
                    0 <= j < i ==> !endpoint_matches_key(topic_type@, node_name@)(vs[j]),
            decreases n - i,
        {
            if str_eq(v[i].topic_type.as_str(), topic_type) && str_eq(
                v[i].node_name.as_str(),
                node_name,
            ) {
                proof {
                    lemma_first_where_is(vs, endpoint_matches_key(topic_type@, node_name@), i as int);
                }
                return Some(i);
            }
            i = i + 1;
        }
        proof {
            lemma_first_where(vs, endpoint_matches_key(topic_type@, node_name@));
        }
        None
    }

    pub fn has_publisher(&self, publisher_: Ros2Publisher) -> (r: bool)
        ensures
            r == spec_has_publisher(self@, publisher_@),
    {
        let n = self.nodes.len();
        let mut i: usize = 0;
        while i < n
            invariant
                0 <= i <= n,
                n == self@.nodes.len(),
                forall|k: int, j: int|
                    0 <= k < i && 0 <= j < self@.nodes[k].publishers.len() ==> !endpoint_matches(
                        publisher_@,
                    )(self@.nodes[k].publishers[j]),
            decreases n - i,
        {
            let found = Self::find_matching_pub(
                &self.nodes[i].publishers,
                publisher_.topic_type.as_str(),
                publisher_.node_name.as_str(),
            );
            proof {
                lemma_first_where(
                    self@.nodes[i as int].publishers,
                    endpoint_matches_key(publisher_@.topic_type, publisher_@.node_name),
                );
            }
            match found {
                Some(j) => {
                    proof {
                        assert(endpoint_matches(publisher_@)(
                            self@.nodes[i as int].publishers[j as int],
                        ));
                    }
                    return true;
                },
                None => {},
            }
            i = i + 1;
        }
        false
    }

    pub fn has_subscriber(&self, subscriber_: Ros2Subscriber) -> (r: bool)
        ensures
            r == spec_has_subscriber(self@, subscriber_@),
    {
        let n = self.nodes.len();
        let mut i: usize = 0;
        while i < n
            invariant
                0 <= i <= n,
                n == self@.nodes.len(),
                forall|k: int, j: int|
                    0 <= k < i && 0 <= j < self@.nodes[k].subscribers.len() ==> !endpoint_matches(
                        subscriber_@,
                    )(self@.nodes[k].subscribers[j]),
            decreases n - i,
        {
            let found = Self::find_matching_sub(
                &self.nodes[i].subscribers,
                subscriber_.topic_type.as_str(),
                subscriber_.node_name.as_str(),
            );
            proof {
                lemma_first_where(
                    self@.nodes[i as int].subscribers,
                    endpoint_matches_key(subscriber_@.topic_type, subscriber_@.node_name),
                );
            }
            match found {
                Some(j) => {
                    proof {
                        assert(endpoint_matches(subscriber_@)(
                            self@.nodes[i as int].subscribers[j as int],
                        ));
                    }
                    return true;
                },
                None => {},
            }
            i = i + 1;
        }
        false
    }

    pub fn add_package(&mut self, package_: Ros2Package)
        ensures
            final(self)@ == spec_add_package(old(self)@, package_@),
    {
        let present = self.has_package(package_.name.clone());
        if !present {
            self.packages.push(package_);
            proof {
                assert(final(self)@ =~~= spec_add_package(old(self)@, package_@));
            }
        }
    }

    /// Pushes the node unless one of that name is already present.  Returns
    /// whether a new node was inserted, together with the index at which a
    /// node of that name now sits.
    pub fn add_node(&mut self, node_: Ros2Node) -> (r: (bool, usize))
        ensures
            final(self)@ == spec_add_node(old(self)@, node_@),
            r.0 == !spec_has_node(old(self)@, node_@.name),
            r.1 < final(self)@.nodes.len(),
            final(self)@.nodes[r.1 as int].name == node_@.name,
    {
        let found = self.find_node_index(node_.name.as_str());
        proof {
            lemma_first_where(self@.nodes, name_is(node_@.name));
        }
        match found {
            Some(i) => {
                proof {
                    assert(spec_has_node(self@, node_@.name));
                    assert(final(self)@ =~~= spec_add_node(old(self)@, node_@));
                }
                (false, i)
            },
            None => {
                proof {
                    assert(!spec_has_node(self@, node_@.name));
                }
                let idx = self.nodes.len();
                self.nodes.push(node_);
                proof {
                    assert(final(self)@ =~~= spec_add_node(old(self)@, node_@));
                }
                (true, idx)
            },
        }
    }

    pub fn add_topic(&mut self, topic_: Ros2Topic)
        ensures
            final(self)@ == (StateView { topics: old(self)@.topics.push(topic_@), ..old(self)@ }),
    {
        self.topics.push(topic_);
        proof {
            assert(final(self)@ =~~= StateView {
                topics: old(self)@.topics.push(topic_@),
                ..old(self)@
            });
        }
    }

    /// Removes the package of that name; the package must be present.
    pub fn remove_package(&mut self, package_: Ros2Package)
        requires
            spec_has_package(old(self)@, package_@.name),
        ensures
            final(self)@ == (StateView {
                packages: old(self)@.packages.remove(
                    first_where(old(self)@.packages, package_name_is(package_@.name)),
                ),
                ..old(self)@
            }),
    {
        let found = self.find_package_index(package_.name.as_str());
        proof {
            lemma_first_where(self@.packages, package_name_is(package_@.name));
        }
        match found {
            Some(i) => {
                self.packages.remove(i);
                proof {
                    assert(final(self)@ =~~= StateView {
                        packages: old(self)@.packages.remove(i as int),
                        ..old(self)@
                    });
                }
            },
            None => {
                proof {
                    let w = choose|w: int|
                        0 <= w < self@.packages.len() && self@.packages[w].name == package_@.name;
                    assert(!package_name_is(package_@.name)(self@.packages[w]));
                    assert(false);
                }
            },
        }
    }

    /// Removes the node of that name together with every topic whose
    /// `node_name` is that name; the node must be present.
    pub fn remove_node(&mut self, node_: Ros2Node)
        requires
            spec_has_node(old(self)@, node_@.name),
        ensures
            final(self)@ == spec_remove_node(old(self)@, node_@.name),
    {
        let found = self.find_node_index(node_.name.as_str());
        proof {
            lemma_first_where(self@.nodes, name_is(node_@.name));
        }
        match found {
            Some(i) => {
                let ghost name = node_@.name;
                // Drop the topics owned by this node first.
                let mut kept: Vec<Ros2Topic> = Vec::new();
                let n = self.topics.len();
                let mut j: usize = 0;
                proof {
                    reveal(Seq::<_>::filter);
                    assert(kept@.map_values(|t: Ros2Topic| t@) =~= self@.topics.subrange(
                        0,
                        0,
                    ).filter(topic_not_of(name)));
                }
                #[verifier::loop_isolation(false)]
                while j < n
                    invariant
                        0 <= j <= n,
                        kept@.map_values(|t: Ros2Topic| t@) == self@.topics.subrange(
                            0,
                            j as int,
                        ).filter(topic_not_of(name)),
                    decreases n - j,
                {
                    let keep = !str_eq(
                        self.topics[j].node_name.as_str(),
                        self.nodes[i].name.as_str(),
                    );
                    if keep {
                        kept.push(self.topics[j].clone());
                    }
                    proof {
                        reveal(Seq::<_>::filter);
                        assert(self@.nodes[i as int].name == name);
                        assert(self@.topics.subrange(0, j + 1).drop_last() =~= self@.topics.subrange(
                            0,
                            j as int,
                        ));
                        assert(self@.topics.subrange(0, j + 1).last() == self@.topics[j as int]);
                        assert(kept@.map_values(|t: Ros2Topic| t@) =~= self@.topics.subrange(
                            0,
                            j + 1,
                        ).filter(topic_not_of(name)));
                    }
                    j = j + 1;
                }
                proof {
                    assert(self@.topics.subrange(0, n as int) =~= self@.topics);
                }
                self.topics = kept;
                self.nodes.remove(i);
                proof {
                    assert(final(self)@ =~~= spec_remove_node(old(self)@, node_@.name));
                }
            },
            None => {
                proof {
                    let w = choose|w: int|
                        0 <= w < self@.nodes.len() && self@.nodes[w].name == node_@.name;
                    assert(!name_is(node_@.name)(self@.nodes[w]));
                    assert(false);
                }
            },
        }
    }

    /// Removing a topic directly is not supported; topics leave the store
    /// through endpoint removal and node removal.
    pub fn remove_topic(&mut self, _topic_: Ros2Topic)
        ensures
            final(self)@ == old(self)@,
    {
    }

    /// Index of the first node whose publisher list holds a record with
    /// this topic type and node name.
    fn find_node_with_matching_pub(&self, topic_type: &str, node_name: &str) -> (r: Option<usize>)
        ensures
            match r {
                Some(i) => i < self@.nodes.len() && first_where(
                    self@.nodes,
                    node_has_pub_key(topic_type@, node_name@),
                ) == i as int,
                None => first_where(self@.nodes, node_has_pub_key(topic_type@, node_name@)) == -1,
            },
    {
        let n = self.nodes.len();
        let mut i: usize = 0;
        while i < n
            invariant
                0 <= i <= n,
                n == self@.nodes.len(),
                forall|j: int|
                    0 <= j < i ==> !node_has_pub_key(topic_type@, node_name@)(self@.nodes[j]),
            decreases n - i,
        {
            let found = Self::find_matching_pub(&self.nodes[i].publishers, topic_type, node_name);
            match found {
                Some(_) => {
                    proof {
                        lemma_first_where_is(
                            self@.nodes,
                            node_has_pub_key(topic_type@, node_name@),
                            i as int,
                        );
                    }
                    return Some(i);
                },
                None => {},
            }
            i = i + 1;
        }
        proof {
            lemma_first_where(self@.nodes, node_has_pub_key(topic_type@, node_name@));
        }
        None
    }

    /// Index of the first node whose subscriber list holds a record with
    /// this topic type and node name.
    fn find_node_with_matching_sub(&self, topic_type: &str, node_name: &str) -> (r: Option<usize>)
        ensures
            match r {
                Some(i) => i < self@.nodes.len() && first_where(
                    self@.nodes,
                    node_has_sub_key(topic_type@, node_name@),
                ) == i as int,
                None => first_where(self@.nodes, node_has_sub_key(topic_type@, node_name@)) == -1,
            },
    {
        let n = self.nodes.len();
        let mut i: usize = 0;
        while i < n
            invariant
                0 <= i <= n,
                n == self@.nodes.len(),
                forall|j: int|
                    0 <= j < i ==> !node_has_sub_key(topic_type@, node_name@)(self@.nodes[j]),
            decreases n - i,
        {
            let found = Self::find_matching_sub(&self.nodes[i].subscribers, topic_type, node_name);
            match found {
                Some(_) => {
                    proof {
                        lemma_first_where_is(
                            self@.nodes,
                            node_has_sub_key(topic_type@, node_name@),
                            i as int,
                        );
                    }
                    return Some(i);
                },
                None => {},
            }
            i = i + 1;
        }
        proof {
            lemma_first_where(self@.nodes, node_has_sub_key(topic_type@, node_name@));
        }
        None
    }

    /// Routes the discovered publisher into the store: the endpoint is
    /// attached to its (possibly new) node subject to the internal-topic
    /// and internal-node filters, and the topic's publisher counter is
    /// upserted.
    pub fn add_publisher(&mut self, publisher: Ros2Publisher)
        requires
            ({
                let ti = first_where(
                    old(self)@.topics,
                    topic_key_is(publisher@.topic_name, publisher@.topic_type),
                );
                ti != -1 ==> old(self)@.topics[ti].publishers_num < u64::MAX
            }),
        ensures
            final(self)@ == spec_add_publisher(old(self)@, publisher@),
    {
        proof {
            reveal_strlit("_");
        }
        let ghost st0 = self@;
        let ghost pv = publisher@;
        let internal = self.is_internal(publisher.topic_name.clone());
        let include_entry = !internal || self.include_internals;
        let suppressed = str_starts_with(publisher.node_name.as_str(), "_")
            && !self.include_internals;
        proof {
            assert("_"@ =~= seq!['_']);
            assert(include_entry == include_endpoint(st0, pv.topic_name));
            assert(!suppressed == node_not_suppressed(st0, pv.node_name));
        }
        if !suppressed {
            let found = self.find_node_index(publisher.node_name.as_str());
            match found {
                None => {
                    let mut pubs: Vec<Ros2Publisher> = Vec::new();
                    if include_entry {
                        pubs.push(publisher.clone());
                    }
                    let new_node = Ros2Node {
                        name: publisher.node_name.clone(),
                        package_name: String::new(),
                        subscribers: Vec::new(),
                        publishers: pubs,
                        service_servers: Vec::new(),
                        service_clients: Vec::new(),
                        action_servers: Vec::new(),
                        action_clients: Vec::new(),
                        host: publisher.host.clone(),
                        is_lifecycle: false,
                        state: Ros2NodeState::Unconfigured,
                    };
                    proof {
                        assert(new_node@ =~~= new_node_for_endpoint(pv, include_entry, true));
                    }
                    self.nodes.push(new_node);
                    proof {
                        assert(self@.nodes =~~= spec_add_endpoint_nodes(st0, pv, true));
                    }
                },
                Some(i) => {
                    if include_entry {
                        let mut node = self.nodes.remove(i);
                        node.publishers.push(publisher.clone());
                        self.nodes.insert(i, node);
                        proof {
                            let n0 = st0.nodes[i as int];
                            assert(self@.nodes =~~= st0.nodes.update(
                                i as int,
                                NodeView { publishers: n0.publishers.push(pv), ..n0 },
                            ));
                            assert(self@.nodes =~~= spec_add_endpoint_nodes(st0, pv, true));
                        }
                    } else {
                        proof {
                            assert(self@.nodes =~~= spec_add_endpoint_nodes(st0, pv, true));
                        }
                    }
                },
            }
        } else {
            proof {
                assert(self@.nodes =~~= spec_add_endpoint_nodes(st0, pv, true));
            }
        }
        proof {
            assert(self@.topics == st0.topics);
        }
        let found_t = self.find_topic_index(
            publisher.topic_name.as_str(),
            publisher.topic_type.as_str(),
        );
        match found_t {
            None => {
                let t = Ros2Topic {
                    name: publisher.topic_name.clone(),
                    node_name: publisher.node_name.clone(),
                    topic_type: publisher.topic_type,
                    subscribers_num: 0,
                    publishers_num: 1,
                };
                self.topics.push(t);
            },
            Some(ti) => {
                let mut t = self.topics[ti].clone();
                t.publishers_num = t.publishers_num + 1;
                self.topics.set(ti, t);
            },
        }
        proof {
            assert(final(self)@ =~~= spec_add_publisher(st0, pv));
        }
    }

    /// The subscriber counterpart of `add_publisher`, symmetric on the
    /// subscriber counter — except that on an existing node the record is
    /// attached even for an excluded internal topic (the documented
    /// asymmetry of the projection).
    pub fn add_subscriber(&mut self, subscriber: Ros2Subscriber)
        requires
            ({
                let ti = first_where(
                    old(self)@.topics,
                    topic_key_is(subscriber@.topic_name, subscriber@.topic_type),
                );
                ti != -1 ==> old(self)@.topics[ti].subscribers_num < u64::MAX
            }),
        ensures
            final(self)@ == spec_add_subscriber(old(self)@, subscriber@),
    {
        proof {
            reveal_strlit("_");
        }
        let ghost st0 = self@;
        let ghost pv = subscriber@;
        let internal = self.is_internal(subscriber.topic_name.clone());
        let include_entry = !internal || self.include_internals;
        let suppressed = str_starts_with(subscriber.node_name.as_str(), "_")
            && !self.include_internals;
        proof {
            assert("_"@ =~= seq!['_']);
            assert(include_entry == include_endpoint(st0, pv.topic_name));
            assert(!suppressed == node_not_suppressed(st0, pv.node_name));
        }
        if !suppressed {
            let found = self.find_node_index(subscriber.node_name.as_str());
            match found {
                None => {
                    let mut subs: Vec<Ros2Subscriber> = Vec::new();
                    if include_entry {
                        subs.push(subscriber.clone());
                    }
                    let new_node = Ros2Node {
                        name: subscriber.node_name.clone(),
                        package_name: String::new(),
                        subscribers: subs,
                        publishers: Vec::new(),
                        service_servers: Vec::new(),
                        service_clients: Vec::new(),
                        action_servers: Vec::new(),
                        action_clients: Vec::new(),
                        host: subscriber.host.clone(),
                        is_lifecycle: false,
                        state: Ros2NodeState::Unconfigured,
                    };
                    proof {
                        assert(new_node@ =~~= new_node_for_endpoint(pv, include_entry, false));
                    }
                    self.nodes.push(new_node);
                    proof {
                        assert(self@.nodes =~~= spec_add_endpoint_nodes(st0, pv, false));
                    }
                },
                Some(i) => {
                    // On an existing node the record is attached whatever
                    // the internal-topic filter says: the documented
                    // asymmetry of the projection.
                    let mut node = self.nodes.remove(i);
                    node.subscribers.push(subscriber.clone());
                    self.nodes.insert(i, node);
                    proof {
                        let n0 = st0.nodes[i as int];
                        assert(self@.nodes =~~= st0.nodes.update(
                            i as int,
                            NodeView { subscribers: n0.subscribers.push(pv), ..n0 },
                        ));
                        assert(self@.nodes =~~= spec_add_endpoint_nodes(st0, pv, false));
                    }
                },
            }
        } else {
            proof {
                assert(self@.nodes =~~= spec_add_endpoint_nodes(st0, pv, false));
            }
        }
        proof {
            assert(self@.topics == st0.topics);
        }
        let found_t = self.find_topic_index(
            subscriber.topic_name.as_str(),
            subscriber.topic_type.as_str(),
        );
        match found_t {
            None => {
                let t = Ros2Topic {
                    name: subscriber.topic_name.clone(),
                    node_name: subscriber.node_name.clone(),
                    topic_type: subscriber.topic_type,
                    subscribers_num: 1,
                    publishers_num: 0,
                };
                self.topics.push(t);
            },
            Some(ti) => {
                let mut t = self.topics[ti].clone();
                t.subscribers_num = t.subscribers_num + 1;
                self.topics.set(ti, t);
            },
        }
        proof {
            assert(final(self)@ =~~= spec_add_subscriber(st0, pv));
        }
    }

    /// Removes the first endpoint record matching the publisher on topic
    /// type and node name; a no-op when no node holds a match.  The topic
    /// is deleted when both counters are already zero, otherwise the
    /// publisher counter is clamped to `min(current, 0)`.
    pub fn remove_publisher(&mut self, publisher_: Ros2Publisher)
        ensures
            final(self)@ == spec_remove_publisher(old(self)@, publisher_@),
    {
        let ghost st0 = self@;
        let ghost pv = publisher_@;
        let found = self.find_node_with_matching_pub(
            publisher_.topic_type.as_str(),
            publisher_.node_name.as_str(),
        );
        match found {
            None => {
                proof {
                    assert(final(self)@ =~~= spec_remove_publisher(st0, pv));
                }
            },
            Some(ni) => {
                let mut node = self.nodes.remove(ni);
                let pi = Self::find_matching_pub(
                    &node.publishers,
                    publisher_.topic_type.as_str(),
                    publisher_.node_name.as_str(),
                );
                match pi {
                    Some(pi) => {
                        node.publishers.remove(pi);
                        self.nodes.insert(ni, node);
                        proof {
                            let n0 = st0.nodes[ni as int];
                            let pidx = first_where(n0.publishers, endpoint_matches(pv));
                            assert(self@.nodes =~~= st0.nodes.update(
                                ni as int,
                                NodeView { publishers: n0.publishers.remove(pidx), ..n0 },
                            ));
                            assert(self@.topics == st0.topics);
                        }
                        let found_t = self.find_topic_index(
                            publisher_.topic_name.as_str(),
                            publisher_.topic_type.as_str(),
                        );
                        match found_t {
                            None => {},
                            Some(ti) => {
                                if self.topics[ti].publishers_num == 0
                                    && self.topics[ti].subscribers_num == 0 {
                                    self.topics.remove(ti);
                                } else {
                                    let mut t = self.topics[ti].clone();
                                    // min(current, 0) of an unsigned counter.
                                    t.publishers_num = 0;
                                    self.topics.set(ti, t);
                                }
                            },
                        }
                        proof {
                            assert(final(self)@ =~~= spec_remove_publisher(st0, pv));
                        }
                    },
                    None => {
                        proof {
                            lemma_first_where(
                                st0.nodes,
                                node_has_pub_key(pv.topic_type, pv.node_name),
                            );
                            assert(node_has_pub_key(pv.topic_type, pv.node_name)(
                                st0.nodes[ni as int],
                            ));
                            assert(node@.publishers == st0.nodes[ni as int].publishers);
                            assert(false);
                        }
                        self.nodes.insert(ni, node);
                    },
                }
            },
        }
    }

    /// The subscriber counterpart of `remove_publisher`.
    pub fn remove_subscriber(&mut self, subscriber_: Ros2Subscriber)
        ensures
            final(self)@ == spec_remove_subscriber(old(self)@, subscriber_@),
    {
        let ghost st0 = self@;
        let ghost pv = subscriber_@;
        let found = self.find_node_with_matching_sub(
            subscriber_.topic_type.as_str(),
            subscriber_.node_name.as_str(),
        );
        match found {
            None => {
                proof {
                    assert(final(self)@ =~~= spec_remove_subscriber(st0, pv));
                }
            },
            Some(ni) => {
                let mut node = self.nodes.remove(ni);
                let pi = Self::find_matching_sub(
                    &node.subscribers,
                    subscriber_.topic_type.as_str(),
                    subscriber_.node_name.as_str(),
                );
                match pi {
                    Some(pi) => {
                        node.subscribers.remove(pi);
                        self.nodes.insert(ni, node);
                        proof {
                            let n0 = st0.nodes[ni as int];
                            let pidx = first_where(n0.subscribers, endpoint_matches(pv));
                            assert(self@.nodes =~~= st0.nodes.update(
                                ni as int,
                                NodeView { subscribers: n0.subscribers.remove(pidx), ..n0 },
                            ));
                            assert(self@.topics == st0.topics);
                        }
                        let found_t = self.find_topic_index(
                            subscriber_.topic_name.as_str(),
                            subscriber_.topic_type.as_str(),
                        );
                        match found_t {
                            None => {},
                            Some(ti) => {
                                if self.topics[ti].publishers_num == 0
                                    && self.topics[ti].subscribers_num == 0 {
                                    self.topics.remove(ti);
                                } else {
                                    let mut t = self.topics[ti].clone();
                                    // min(current, 0) of an unsigned counter.
                                    t.subscribers_num = 0;
                                    self.topics.set(ti, t);
                                }
                            },
                        }
                        proof {
                            assert(final(self)@ =~~= spec_remove_subscriber(st0, pv));
                        }
                    },
                    None => {
                        proof {
                            lemma_first_where(
                                st0.nodes,
                                node_has_sub_key(pv.topic_type, pv.node_name),
                            );
                            assert(node_has_sub_key(pv.topic_type, pv.node_name)(
                                st0.nodes[ni as int],
                            ));
                            assert(node@.subscribers == st0.nodes[ni as int].subscribers);
                            assert(false);
                        }
                        self.nodes.insert(ni, node);
                    },
                }
            },
        }
    }

    /// Classification of internal topics; blind to one leading "/".
    pub fn is_internal(&self, topic_name: String) -> (r: bool)
        ensures
            r == is_internal_spec(topic_name@),
    {
        proof {
            reveal_strlit("/");
        }
        let ghost orig = topic_name@;
        let n = topic_name.as_str().unicode_len();
        let stripped: String = if str_starts_with(topic_name.as_str(), "/") {
            proof {
                assert(orig.subrange(0, 1) == "/"@);
                assert(orig[0] == '/') by {
                    assert(orig.subrange(0, 1)[0] == orig[0]);
                }
            }
            String::from_str(topic_name.as_str().substring_char(1, n))
        } else {
            proof {
                if orig.len() > 0 && orig[0] == '/' {
                    assert(orig.subrange(0, 1) =~= "/"@);
                }
            }
            topic_name
        };
        proof {
            assert(stripped@ =~= strip_slash(orig));
        }
        str_eq(stripped.as_str(), "parameter_events") || str_eq(stripped.as_str(), "rosout")
    }
}

// ---------------------------------------------------------------------------
// Laws of the store
// ---------------------------------------------------------------------------

/// Internal-topic classification is identical whether or not the topic name
/// carries a leading "/".  Only one leading "/" is ever stripped, so the law
/// is stated for names that do not already begin with one.
pub proof fn lemma_is_internal_slash_insensitive(name: Seq<char>)
    requires
        name.len() == 0 || name[0] != '/',
    ensures
        is_internal_spec(seq!['/'] + name) == is_internal_spec(name),
{
    let s = seq!['/'] + name;
    assert(s[0] == '/');
    assert(s.drop_first() =~= name);
    assert(strip_slash(s) == name);
    assert(strip_slash(name) == name);
}

/// Adding a publisher and immediately removing it restores the store
/// exactly: no publisher entry leaks.  The law holds when the endpoint is
/// not filtered away (its topic and node are not suppressed internals), its
/// node already exists, no node yet holds a record matching it, and its
/// topic exists with a publisher counter of zero — the only counter value
/// that the clamping removal can restore.
pub proof fn lemma_add_remove_publisher_round_trip(st: StateView, p: EndpointView)
    requires
        node_not_suppressed(st, p.node_name),
        include_endpoint(st, p.topic_name),
        first_where(st.nodes, name_is(p.node_name)) != -1,
        first_where(st.nodes, node_has_matching_pub(p)) == -1,
        ({
            let ti = first_where(st.topics, topic_key_is(p.topic_name, p.topic_type));
            ti != -1 && st.topics[ti].publishers_num == 0
        }),
    ensures
        spec_remove_publisher(spec_add_publisher(st, p), p) == st,
        !spec_has_publisher(spec_remove_publisher(spec_add_publisher(st, p), p), p),
{
    let ni = first_where(st.nodes, name_is(p.node_name));
    let ti = first_where(st.topics, topic_key_is(p.topic_name, p.topic_type));
    lemma_first_where(st.nodes, name_is(p.node_name));
    lemma_first_where(st.nodes, node_has_matching_pub(p));
    lemma_first_where(st.topics, topic_key_is(p.topic_name, p.topic_type));
    let n0 = st.nodes[ni];
    let t0 = st.topics[ti];
    let n1 = NodeView { publishers: n0.publishers.push(p), ..n0 };
    let t1 = TopicView { publishers_num: (t0.publishers_num + 1) as u64, ..t0 };
    let st1 = spec_add_publisher(st, p);
    assert(st1.nodes =~~= st.nodes.update(ni, n1));
    assert(st1.topics =~~= st.topics.update(ti, t1));

    // The removal finds the very node and entry the addition created.
    assert(first_where(n0.publishers, endpoint_matches(p)) == -1);
    lemma_first_where(n0.publishers, endpoint_matches(p));
    assert(endpoint_matches(p)(p));
    lemma_first_where_is(n1.publishers, endpoint_matches(p), n0.publishers.len() as int);
    assert(node_has_matching_pub(p)(st1.nodes[ni]));
    assert(forall|j: int| 0 <= j < ni ==> st1.nodes[j] == st.nodes[j]);
    assert(forall|j: int|
        0 <= j < ni ==> !node_has_matching_pub(p)(st1.nodes[j]));
    lemma_first_where_is(st1.nodes, node_has_matching_pub(p), ni);

    // The topic lookup still lands on the same index.
    assert(topic_key_is(p.topic_name, p.topic_type)(st1.topics[ti]));
    assert(forall|j: int| 0 <= j < ti ==> st1.topics[j] == st.topics[j]);
    assert(forall|j: int|
        0 <= j < ti ==> !topic_key_is(p.topic_name, p.topic_type)(st1.topics[j]));
    lemma_first_where_is(st1.topics, topic_key_is(p.topic_name, p.topic_type), ti);

    let st2 = spec_remove_publisher(st1, p);
    assert(n1.publishers.remove(n0.publishers.len() as int) =~= n0.publishers);
    assert(NodeView {
        publishers: n1.publishers.remove(n0.publishers.len() as int),
        ..n1
    } =~~= n0);
    assert(st2.nodes =~~= st.nodes);
    assert(t1.publishers_num == 1);
    assert(TopicView { publishers_num: 0, ..t1 } =~~= t0);
    assert(st2.topics =~~= st.topics);
    assert(st2 =~~= st);
    assert(!spec_has_publisher(st, p)) by {
        if spec_has_publisher(st, p) {
            let (wi, wj) = choose|wi: int, wj: int|
                0 <= wi < st.nodes.len() && 0 <= wj < st.nodes[wi].publishers.len()
                    && endpoint_matches(p)(st.nodes[wi].publishers[wj]);
            lemma_first_where(st.nodes[wi].publishers, endpoint_matches(p));
            assert(node_has_matching_pub(p)(st.nodes[wi]));
        }
    }
}

/// The counters do not follow decrement semantics: when a removal hits a
/// topic that survives (its counters are not both zero already), the
/// relevant counter is clamped to `min(current, 0)`, which on an unsigned
/// counter is zero outright — whatever the previous value was.
pub proof fn lemma_remove_publisher_clamps_counter(st: StateView, p: EndpointView)
    requires
        first_where(st.nodes, node_has_matching_pub(p)) != -1,
        ({
            let ti = first_where(st.topics, topic_key_is(p.topic_name, p.topic_type));
            ti != -1 && !(st.topics[ti].publishers_num == 0 && st.topics[ti].subscribers_num
                == 0)
        }),
    ensures
        ({
            let st2 = spec_remove_publisher(st, p);
            let ti = first_where(st.topics, topic_key_is(p.topic_name, p.topic_type));
            st2.topics[ti].publishers_num == 0
        }),
{
    let ti = first_where(st.topics, topic_key_is(p.topic_name, p.topic_type));
    lemma_first_where(st.topics, topic_key_is(p.topic_name, p.topic_type));
    let ni = first_where(st.nodes, node_has_matching_pub(p));
    lemma_first_where(st.nodes, node_has_matching_pub(p));
}

} // verus!
