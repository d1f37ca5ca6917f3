//! The discovery layer: raw record models, normalization of raw records
//! into domain values, and the sequential dispatch of normalized events
//! into the topology store.
//!
//! The raw records arrive from a transport boundary that decodes the wire
//! representation into plain values; everything from there on is verified.

use vstd::prelude::*;
use vstd::string::*;
use crate::entities::{
    first_where, Host, Ros2Context, Ros2Publisher, Ros2State, Ros2Subscriber, StateView,
    spec_add_publisher, spec_add_subscriber, spec_remove_publisher, spec_remove_subscriber,
    topic_key_is,
};
use crate::network::{
    guid_spec, parse_endpoint, parse_endpoint_spec, fastdds_to_ros2, fastdds_to_ros2_spec,
    FastDDSEndpoint,
};
use crate::strutil::{starts_with_spec, str_starts_with, str_eq};

verus! {

// ---------------------------------------------------------------------------
// Discovery configuration
// ---------------------------------------------------------------------------

pub const ENABLE_FASTDDS: u32 = 1;

pub const ENABLE_ROS2: u32 = 2;

pub const INCLUDE_INTERNALS: u32 = 4;

/// Which discovery backends run, and whether internal topics are included.
#[derive(Clone, Copy, PartialEq, Eq, Structural, Debug)]
pub struct DiscoveryFlags(pub u32);

impl DiscoveryFlags {
    pub fn empty() -> (r: Self)
        ensures
            r.0 == 0,
    {
        DiscoveryFlags(0)
    }

    pub fn enable_fastdds() -> (r: Self)
        ensures
            r.0 == ENABLE_FASTDDS,
    {
        DiscoveryFlags(ENABLE_FASTDDS)
    }

    pub fn enable_ros2() -> (r: Self)
        ensures
            r.0 == ENABLE_ROS2,
    {
        DiscoveryFlags(ENABLE_ROS2)
    }

    pub fn include_internals() -> (r: Self)
        ensures
            r.0 == INCLUDE_INTERNALS,
    {
        DiscoveryFlags(INCLUDE_INTERNALS)
    }

    /// Every flag of `other` is set in `self`.
    pub fn contains(self, other: Self) -> (r: bool)
        ensures
            r == (self.0 & other.0 == other.0),
    {
        self.0 & other.0 == other.0
    }

    pub fn union(self, other: Self) -> (r: Self)
        ensures
            r.0 == self.0 | other.0,
    {
        DiscoveryFlags(self.0 | other.0)
    }
}

/// Parameters of the process-based discovery backend; it has none.
pub struct ROS2Params {}

/// Gate in front of every introspection and control action: without the
/// process-based backend enabled, the action is refused with this exact
/// message.
pub fn require_ros2_enabled(flags: DiscoveryFlags) -> (r: Result<(), String>)
    ensures
        (r is Ok) <==> flags.0 & ENABLE_ROS2 == ENABLE_ROS2,
        r is Err ==> (r matches Err(m) && m@
            == "You must enable ros2 support and run discovery server to perform this action"@),
{
    if flags.contains(DiscoveryFlags::enable_ros2()) {
        Ok(())
    } else {
        Err(
            String::from_str(
                "You must enable ros2 support and run discovery server to perform this action",
            ),
        )
    }
}

// ---------------------------------------------------------------------------
// Raw discovery records
// ---------------------------------------------------------------------------

/// A raw participant record: GUID bytes and the transport-encoded endpoint.
pub struct ParticipantData {
    pub guid: Vec<u8>,
    pub endpoint: FastDDSEndpoint,
}

/// A raw reader (subscription) record.
pub struct ReaderData {
    pub topic_name: String,
    pub topic_type: String,
    pub guid_prefix: Vec<u8>,
    pub endpoint: FastDDSEndpoint,
}

/// A raw writer (publication) record.
pub struct WriterData {
    pub topic_name: String,
    pub topic_type: String,
    pub guid_prefix: Vec<u8>,
    pub endpoint: FastDDSEndpoint,
}

pub fn default_handler_participant(_participant_data: ParticipantData) {
}

pub fn default_handler_reader(_reader_data: ReaderData) {
}

pub fn default_handler_writer(_writer_data: WriterData) {
}

/// A normalized discovery entity.
pub enum FastDDSEntity {
    Publisher(Ros2Publisher),
    Subscriber(Ros2Subscriber),
    Context(Ros2Context),
}

/// What happened to the entity.
pub enum FastDDSEvent {
    PublisherDiscovered,
    SubscriberDiscovered,
    ContextDiscovered,
    PublisherRemoved,
    SubscriberRemoved,
    ContextRemoved,
}

// ---------------------------------------------------------------------------
// Normalization
// ---------------------------------------------------------------------------

/// A topic name standardized for the store: the DDS prefix is discarded and
/// a leading "/" guaranteed.
pub open spec fn normalized_topic_spec(s: Seq<char>) -> Seq<char> {
    let t = fastdds_to_ros2_spec(s);
    if starts_with_spec(t, "/"@) {
        t
    } else {
        "/"@ + t
    }
}

/// Standardizes a raw topic name.
pub fn normalize_topic_name(topic_name: String) -> (r: String)
    ensures
        r@ == normalized_topic_spec(topic_name@),
{
    let converted = fastdds_to_ros2(topic_name);
    if str_starts_with(converted.as_str(), "/") {
        converted
    } else {
        let mut r = String::from_str("/");
        r.append(converted.as_str());
        r
    }
}

/// Normalizes a raw reader record into a subscriber: standardized topic
/// name, rendered GUID and endpoint, and the node name and host name left
/// at "unknown" until the resolver fills them in.
pub fn normalize_reader(reader_data: ReaderData) -> (r: Ros2Subscriber)
    ensures
        r@.topic_name == normalized_topic_spec(reader_data.topic_name@),
        r@.topic_type == reader_data.topic_type@,
        r@.node_name == "unknown"@,
        r@.guid == guid_spec(reader_data.guid_prefix@),
        r@.host.ip == parse_endpoint_spec(
            reader_data.endpoint.transport,
            reader_data.endpoint.addr@,
        ),
        r@.host.name == "unknown"@,
{
    let topic_name = normalize_topic_name(reader_data.topic_name);
    let guid = crate::network::hex_str_from_uc(reader_data.guid_prefix.as_slice());
    let endpoint = parse_endpoint(reader_data.endpoint);
    Ros2Subscriber {
        topic_name,
        guid,
        node_name: String::from_str("unknown"),
        topic_type: reader_data.topic_type,
        host: Host::new(endpoint, String::from_str("unknown")),
    }
}

/// Normalizes a raw writer record into a publisher, as `normalize_reader`.
pub fn normalize_writer(writer_data: WriterData) -> (r: Ros2Publisher)
    ensures
        r@.topic_name == normalized_topic_spec(writer_data.topic_name@),
        r@.topic_type == writer_data.topic_type@,
        r@.node_name == "unknown"@,
        r@.guid == guid_spec(writer_data.guid_prefix@),
        r@.host.ip == parse_endpoint_spec(
            writer_data.endpoint.transport,
            writer_data.endpoint.addr@,
        ),
        r@.host.name == "unknown"@,
{
    let topic_name = normalize_topic_name(writer_data.topic_name);
    let guid = crate::network::hex_str_from_uc(writer_data.guid_prefix.as_slice());
    let endpoint = parse_endpoint(writer_data.endpoint);
    Ros2Publisher {
        topic_name,
        guid,
        node_name: String::from_str("unknown"),
        topic_type: writer_data.topic_type,
        host: Host::new(endpoint, String::from_str("unknown")),
    }
}

/// Normalizes a raw participant record into a context.
pub fn normalize_participant(participant_data: ParticipantData) -> (r: Ros2Context)
    ensures
        r@.guid == guid_spec(participant_data.guid@),
        r@.host.ip == parse_endpoint_spec(
            participant_data.endpoint.transport,
            participant_data.endpoint.addr@,
        ),
        r@.host.name == "unknown"@,
{
    let guid = crate::network::hex_str_from_uc(participant_data.guid.as_slice());
    let endpoint = parse_endpoint(participant_data.endpoint);
    Ros2Context::new(guid, Host::new(endpoint, String::from_str("unknown")))
}

// ---------------------------------------------------------------------------
// Dispatch
// ---------------------------------------------------------------------------

/// Events whose resolved node name is empty or still carries the
/// unresolved sentinel are dropped entirely.
pub open spec fn event_dropped(node_name: Seq<char>) -> bool {
    node_name.len() == 0 || node_name == "_NODE_NAME_UNKNOWN_"@
}

fn is_event_dropped(node_name: &str) -> (r: bool)
    ensures
        r == event_dropped(node_name@),
{
    node_name.is_empty() || str_eq(node_name, "_NODE_NAME_UNKNOWN_")
}

/// Applies a discovered publisher to the store, unless the event is
/// dropped.  Returns whether the store changed, so that the caller knows to
/// publish a fresh snapshot.
pub fn handle_discovered_publisher(state: &mut Ros2State, publisher: Ros2Publisher) -> (published:
    bool)
    requires
        ({
            let ti = first_where(
                old(state)@.topics,
                topic_key_is(publisher@.topic_name, publisher@.topic_type),
            );
            ti != -1 ==> old(state)@.topics[ti].publishers_num < u64::MAX
        }),
    ensures
        published == !event_dropped(publisher@.node_name),
        published ==> final(state)@ == spec_add_publisher(old(state)@, publisher@),
        !published ==> final(state)@ == old(state)@,
{
    if is_event_dropped(publisher.node_name.as_str()) {
        false
    } else {
        state.add_publisher(publisher);
        true
    }
}

/// Applies a discovered subscriber to the store, as
/// `handle_discovered_publisher`.
pub fn handle_discovered_subscriber(state: &mut Ros2State, subscriber: Ros2Subscriber) -> (
    published: bool)
    requires
        ({
            let ti = first_where(
                old(state)@.topics,
                topic_key_is(subscriber@.topic_name, subscriber@.topic_type),
            );
            ti != -1 ==> old(state)@.topics[ti].subscribers_num < u64::MAX
        }),
    ensures
        published == !event_dropped(subscriber@.node_name),
        published ==> final(state)@ == spec_add_subscriber(old(state)@, subscriber@),
        !published ==> final(state)@ == old(state)@,
{
    if is_event_dropped(subscriber.node_name.as_str()) {
        false
    } else {
        state.add_subscriber(subscriber);
        true
    }
}

/// Removes a publisher from the store, unless the event is dropped.
pub fn handle_removed_publisher(state: &mut Ros2State, publisher: Ros2Publisher) -> (published:
    bool)
    ensures
        published == !event_dropped(publisher@.node_name),
        published ==> final(state)@ == spec_remove_publisher(old(state)@, publisher@),
        !published ==> final(state)@ == old(state)@,
{
    if is_event_dropped(publisher.node_name.as_str()) {
        false
    } else {
        state.remove_publisher(publisher);
        true
    }
}

/// Removes a subscriber from the store, unless the event is dropped.
pub fn handle_removed_subscriber(state: &mut Ros2State, subscriber: Ros2Subscriber) -> (published:
    bool)
    ensures
        published == !event_dropped(subscriber@.node_name),
        published ==> final(state)@ == spec_remove_subscriber(old(state)@, subscriber@),
        !published ==> final(state)@ == old(state)@,
{
    if is_event_dropped(subscriber.node_name.as_str()) {
        false
    } else {
        state.remove_subscriber(subscriber);
        true
    }
}

/// The outcome the dispatcher owes for one event.
pub open spec fn spec_dispatch(st: StateView, event: FastDDSEvent, entity: FastDDSEntity) -> (
    StateView,
    bool,
) {
    match (event, entity) {
        (FastDDSEvent::PublisherDiscovered, FastDDSEntity::Publisher(p)) => {
            if event_dropped(p@.node_name) {
                (st, false)
            } else {
                (spec_add_publisher(st, p@), true)
            }
        },
        (FastDDSEvent::PublisherRemoved, FastDDSEntity::Publisher(p)) => {
            if event_dropped(p@.node_name) {
                (st, false)
            } else {
                (spec_remove_publisher(st, p@), true)
            }
        },
        (FastDDSEvent::SubscriberDiscovered, FastDDSEntity::Subscriber(s)) => {
            if event_dropped(s@.node_name) {
                (st, false)
            } else {
                (spec_add_subscriber(st, s@), true)
            }
        },
        (FastDDSEvent::SubscriberRemoved, FastDDSEntity::Subscriber(s)) => {
            if event_dropped(s@.node_name) {
                (st, false)
            } else {
                (spec_remove_subscriber(st, s@), true)
            }
        },
        _ => (st, false),
    }
}

/// The counter of the topic an added endpoint lands on is not saturated;
/// removals and other events need nothing.
pub open spec fn dispatch_requires(st: StateView, event: FastDDSEvent, entity: FastDDSEntity)
    -> bool {
    match (event, entity) {
        (FastDDSEvent::PublisherDiscovered, FastDDSEntity::Publisher(p)) => {
            let ti = first_where(st.topics, topic_key_is(p@.topic_name, p@.topic_type));
            ti != -1 ==> st.topics[ti].publishers_num < u64::MAX
        },
        (FastDDSEvent::SubscriberDiscovered, FastDDSEntity::Subscriber(s)) => {
            let ti = first_where(st.topics, topic_key_is(s@.topic_name, s@.topic_type));
            ti != -1 ==> st.topics[ti].subscribers_num < u64::MAX
        },
        _ => true,
    }
}

/// Routes one normalized event into the store.  Discovered readers and
/// writers are added, removed ones are removed, and participant events are
/// a deliberate no-op extension point.  Returns whether the store changed
/// and a fresh snapshot should be published.
pub fn dispatch_event(state: &mut Ros2State, event: FastDDSEvent, entity: FastDDSEntity) -> (
    published: bool)
    requires
        dispatch_requires(old(state)@, event, entity),
    ensures
        (final(state)@, published) == spec_dispatch(old(state)@, event, entity),
{
    match (event, entity) {
        (FastDDSEvent::PublisherDiscovered, FastDDSEntity::Publisher(p)) => {
            handle_discovered_publisher(state, p)
        },
        (FastDDSEvent::PublisherRemoved, FastDDSEntity::Publisher(p)) => {
            handle_removed_publisher(state, p)
        },
        (FastDDSEvent::SubscriberDiscovered, FastDDSEntity::Subscriber(s)) => {
            handle_discovered_subscriber(state, s)
        },
        (FastDDSEvent::SubscriberRemoved, FastDDSEntity::Subscriber(s)) => {
            handle_removed_subscriber(state, s)
        },
        _ => {
            false
        },
    }
}

} // verus!
