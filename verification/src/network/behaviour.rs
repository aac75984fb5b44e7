//! The one event type of the node's network behaviour.
//!
//! The behaviour is composed of sub-behaviours: identify, Kademlia, the two
//! request/response protocols, the relay client and the direct connection
//! upgrade. Each emits events of its own type. On their way to the node's
//! control loop every one of them is wrapped, unchanged, in the variant of
//! [`PyrsiaNetworkEvent`] that belongs to its sub-behaviour.

use crate::network::artifact_protocol::{ArtifactRequest, ArtifactResponse};
use crate::network::idle_metric_protocol::{IdleMetricRequest, IdleMetricResponse};
use vstd::prelude::*;

verus! {

/// `libp2p::identify::Event`, carried through as an opaque value.
#[verifier::external_type_specification]
#[verifier::external_body]
pub struct ExIdentifyEvent(libp2p::identify::Event);

/// `libp2p::kad::Event`, carried through as an opaque value.
#[verifier::external_type_specification]
#[verifier::external_body]
pub struct ExKademliaEvent(libp2p::kad::Event);

/// `libp2p::request_response::Event`, carried through as an opaque value.
#[verifier::external_type_specification]
#[verifier::external_body]
#[verifier::reject_recursive_types(TRequest)]
#[verifier::reject_recursive_types(TResponse)]
#[verifier::reject_recursive_types(TChannelResponse)]
pub struct ExRequestResponseEvent<TRequest, TResponse, TChannelResponse>(
    libp2p::request_response::Event<TRequest, TResponse, TChannelResponse>,
);

/// `libp2p::relay::client::Event`, carried through as an opaque value.
#[verifier::external_type_specification]
#[verifier::external_body]
pub struct ExRelayClientEvent(libp2p::relay::client::Event);

/// `libp2p::dcutr::Event`, carried through as an opaque value.
#[verifier::external_type_specification]
#[verifier::external_body]
pub struct ExDcutrEvent(libp2p::dcutr::Event);

/// What the artifact exchange emits.
pub type ArtifactExchangeEvent = libp2p::request_response::Event<ArtifactRequest, ArtifactResponse>;

/// What the idle metric exchange emits.
pub type IdleMetricExchangeEvent = libp2p::request_response::Event<
    IdleMetricRequest,
    IdleMetricResponse,
>;

/// Each event of the network behaviour is wrapped in a `PyrsiaNetworkEvent`.
#[derive(Debug)]
pub enum PyrsiaNetworkEvent {
    Identify(libp2p::identify::Event),
    Kademlia(libp2p::kad::Event),
    RequestResponse(ArtifactExchangeEvent),
    IdleMetricRequestResponse(IdleMetricExchangeEvent),
    Relay(libp2p::relay::client::Event),
    Dcutr(libp2p::dcutr::Event),
}

impl vstd::std_specs::convert::FromSpecImpl<libp2p::identify::Event> for PyrsiaNetworkEvent {
    open spec fn obeys_from_spec() -> bool {
        true
    }

    open spec fn from_spec(event: libp2p::identify::Event) -> PyrsiaNetworkEvent {
        PyrsiaNetworkEvent::Identify(event)
    }
}

impl From<libp2p::identify::Event> for PyrsiaNetworkEvent {
    /// An identify event is wrapped as it is.
    fn from(event: libp2p::identify::Event) -> (wrapped: PyrsiaNetworkEvent)
        ensures
            wrapped == PyrsiaNetworkEvent::Identify(event),
    {
        PyrsiaNetworkEvent::Identify(event)
    }
}

impl vstd::std_specs::convert::FromSpecImpl<libp2p::kad::Event> for PyrsiaNetworkEvent {
    open spec fn obeys_from_spec() -> bool {
        true
    }

    open spec fn from_spec(event: libp2p::kad::Event) -> PyrsiaNetworkEvent {
        PyrsiaNetworkEvent::Kademlia(event)
    }
}

impl From<libp2p::kad::Event> for PyrsiaNetworkEvent {
    /// A Kademlia event is wrapped as it is.
    fn from(event: libp2p::kad::Event) -> (wrapped: PyrsiaNetworkEvent)
        ensures
            wrapped == PyrsiaNetworkEvent::Kademlia(event),
    {
        PyrsiaNetworkEvent::Kademlia(event)
    }
}

impl vstd::std_specs::convert::FromSpecImpl<ArtifactExchangeEvent> for PyrsiaNetworkEvent {
    open spec fn obeys_from_spec() -> bool {
        true
    }

    open spec fn from_spec(event: ArtifactExchangeEvent) -> PyrsiaNetworkEvent {
        PyrsiaNetworkEvent::RequestResponse(event)
    }
}

impl From<ArtifactExchangeEvent> for PyrsiaNetworkEvent {
    /// An artifact exchange event is wrapped as it is.
    fn from(event: ArtifactExchangeEvent) -> (wrapped: PyrsiaNetworkEvent)
        ensures
            wrapped == PyrsiaNetworkEvent::RequestResponse(event),
    {
        PyrsiaNetworkEvent::RequestResponse(event)
    }
}

impl vstd::std_specs::convert::FromSpecImpl<IdleMetricExchangeEvent> for PyrsiaNetworkEvent {
    open spec fn obeys_from_spec() -> bool {
        true
    }

    open spec fn from_spec(event: IdleMetricExchangeEvent) -> PyrsiaNetworkEvent {
        PyrsiaNetworkEvent::IdleMetricRequestResponse(event)
    }
}

impl From<IdleMetricExchangeEvent> for PyrsiaNetworkEvent {
    /// An idle metric exchange event is wrapped as it is.
    fn from(event: IdleMetricExchangeEvent) -> (wrapped: PyrsiaNetworkEvent)
        ensures
            wrapped == PyrsiaNetworkEvent::IdleMetricRequestResponse(event),
    {
        PyrsiaNetworkEvent::IdleMetricRequestResponse(event)
    }
}

impl vstd::std_specs::convert::FromSpecImpl<libp2p::relay::client::Event> for PyrsiaNetworkEvent {
    open spec fn obeys_from_spec() -> bool {
        true
    }

    open spec fn from_spec(event: libp2p::relay::client::Event) -> PyrsiaNetworkEvent {
        PyrsiaNetworkEvent::Relay(event)
    }
}

impl From<libp2p::relay::client::Event> for PyrsiaNetworkEvent {
    /// A relay client event is wrapped as it is.
    fn from(event: libp2p::relay::client::Event) -> (wrapped: PyrsiaNetworkEvent)
        ensures
            wrapped == PyrsiaNetworkEvent::Relay(event),
    {
        PyrsiaNetworkEvent::Relay(event)
    }
}

impl vstd::std_specs::convert::FromSpecImpl<libp2p::dcutr::Event> for PyrsiaNetworkEvent {
    open spec fn obeys_from_spec() -> bool {
        true
    }

    open spec fn from_spec(event: libp2p::dcutr::Event) -> PyrsiaNetworkEvent {
        PyrsiaNetworkEvent::Dcutr(event)
    }
}

impl From<libp2p::dcutr::Event> for PyrsiaNetworkEvent {
    /// A direct connection upgrade event is wrapped as it is.
    fn from(event: libp2p::dcutr::Event) -> (wrapped: PyrsiaNetworkEvent)
        ensures
            wrapped == PyrsiaNetworkEvent::Dcutr(event),
    {
        PyrsiaNetworkEvent::Dcutr(event)
    }
}

} // verus!
