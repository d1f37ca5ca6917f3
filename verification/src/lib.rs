//! Observes a publish/subscribe robotics middleware network and exposes a
//! query/control interface over it.  The core is the discovery event
//! reconciliation engine: it consumes a stream of low-level discovery events
//! (entities appearing and disappearing) and maintains a consistent,
//! queryable topology of packages, nodes, topics, publishers and subscribers,
//! tolerating duplicate and out-of-order events and filtering internal
//! topics.
//!
//! All process spawning, socket handling and name resolution lives outside
//! this crate; the functions here work on plain values handed in from that
//! boundary.

pub mod api;
pub mod discovery;
pub mod entities;
pub mod introspect;
pub mod json;
pub mod network;
pub mod outside;
pub mod protocol;
pub mod strutil;
pub mod utils;
