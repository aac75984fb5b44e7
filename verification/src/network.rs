//! The peer-to-peer layer: message framing, the two request/response
//! protocols, the table of requests in flight, and the event type that
//! unifies what the sub-behaviours emit.

pub mod artifact_protocol;
pub mod behaviour;
pub mod codec;
pub mod idle_metric_protocol;
pub mod pending_requests;
