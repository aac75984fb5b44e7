use libp2p::swarm::ConnectionId;
use libp2p::PeerId;
use pyrsia::network::behaviour::PyrsiaNetworkEvent;

fn peer() -> PeerId {
    let mut multihash = vec![0x12, 0x20];
    multihash.extend_from_slice(&[0x5a; 32]);
    PeerId::from_bytes(&multihash).unwrap()
}

#[test]
fn identify_event_is_wrapped() {
    let event = libp2p::identify::Event::Sent {
        connection_id: ConnectionId::new_unchecked(7),
        peer_id: peer(),
    };
    match PyrsiaNetworkEvent::from(event) {
        PyrsiaNetworkEvent::Identify(libp2p::identify::Event::Sent {
            connection_id,
            peer_id,
        }) => {
            assert_eq!(connection_id, ConnectionId::new_unchecked(7));
            assert_eq!(peer_id, peer());
        }
        other => panic!("wrapped as {:?}", other),
    }
}

#[test]
fn kademlia_event_is_wrapped() {
    let event = libp2p::kad::Event::ModeChanged {
        new_mode: libp2p::kad::Mode::Server,
    };
    let wrapped: PyrsiaNetworkEvent = event.into();
    match wrapped {
        PyrsiaNetworkEvent::Kademlia(libp2p::kad::Event::ModeChanged { new_mode }) => {
            assert_eq!(new_mode, libp2p::kad::Mode::Server);
        }
        other => panic!("wrapped as {:?}", other),
    }
}

#[test]
fn relay_event_is_wrapped() {
    let event = libp2p::relay::client::Event::ReservationReqAccepted {
        relay_peer_id: peer(),
        renewal: true,
        limit: None,
    };
    let wrapped: PyrsiaNetworkEvent = event.into();
    match wrapped {
        PyrsiaNetworkEvent::Relay(libp2p::relay::client::Event::ReservationReqAccepted {
            relay_peer_id,
            renewal,
            limit,
        }) => {
            assert_eq!(relay_peer_id, peer());
            assert!(renewal);
            assert!(limit.is_none());
        }
        other => panic!("wrapped as {:?}", other),
    }
}

#[test]
fn dcutr_event_is_wrapped() {
    let event = libp2p::dcutr::Event {
        remote_peer_id: peer(),
        result: Ok(ConnectionId::new_unchecked(3)),
    };
    let wrapped: PyrsiaNetworkEvent = event.into();
    match wrapped {
        PyrsiaNetworkEvent::Dcutr(event) => {
            assert_eq!(event.remote_peer_id, peer());
            assert_eq!(event.result.ok(), Some(ConnectionId::new_unchecked(3)));
        }
        other => panic!("wrapped as {:?}", other),
    }
}
