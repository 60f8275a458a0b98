use network::{
    Connection, ConnectionMetadata, ConnectionOrigin, NetworkAddress, PeerId, PeerManagerError,
    TransportAction, TransportHandler, TransportRequest,
};

type Handler = TransportHandler<&'static str, u32, String>;
type Action = TransportAction<&'static str, u32, String>;

fn addr(text: &str) -> NetworkAddress {
    NetworkAddress::new(text.to_string())
}

fn connection(socket: &'static str, peer: u128, at: &str, origin: ConnectionOrigin) -> Connection<&'static str> {
    Connection {
        socket,
        metadata: ConnectionMetadata {
            remote_peer_id: PeerId::new(peer),
            addr: addr(at),
            origin,
        },
    }
}

#[test]
fn new_handler_is_idle() {
    let handler = Handler::new(addr("0.0.0.0:6180"));
    assert_eq!(handler.listen_address().as_str(), "0.0.0.0:6180");
    assert_eq!(handler.pending_connection_upgrades(ConnectionOrigin::Inbound), 0);
    assert_eq!(handler.pending_connection_upgrades(ConnectionOrigin::Outbound), 0);
    assert!(handler.can_admit());
}

#[test]
fn dial_succeeds_and_is_announced() {
    let mut handler = Handler::new(addr("0.0.0.0:6180"));
    let before = handler.pending_connection_upgrades(ConnectionOrigin::Outbound);

    let request = TransportRequest::DialPeer(PeerId::new(1), addr("10.0.0.1:6180"), 7);
    let started = handler.dial_peer(request, Ok(()), 1_000);
    assert_eq!(started, Action::AwaitOutbound { token: 0 });
    assert_eq!(handler.pending_connection_upgrades(ConnectionOrigin::Outbound), before + 1);

    let upgraded = connection("socket-1", 1, "10.0.0.1:6180", ConnectionOrigin::Outbound);
    let done = handler.handle_completed_outbound_upgrade(0, Ok(upgraded), 1_050);
    assert_eq!(
        done,
        Action::OutboundUpgraded {
            token: 0,
            connection: connection("socket-1", 1, "10.0.0.1:6180", ConnectionOrigin::Outbound),
            addr: addr("10.0.0.1:6180"),
            response_tx: 7,
            elapsed: 50,
        }
    );
    assert_eq!(handler.pending_connection_upgrades(ConnectionOrigin::Outbound), before);
    assert_eq!(handler.pending_connection_upgrades(ConnectionOrigin::Inbound), 0);
}

#[test]
fn dial_to_wrong_peer_is_a_mismatch() {
    let mut handler = Handler::new(addr("0.0.0.0:6180"));
    let request = TransportRequest::DialPeer(PeerId::new(2), addr("10.0.0.2:6180"), 8);
    assert_eq!(handler.dial_peer(request, Ok(()), 10), Action::AwaitOutbound { token: 0 });

    let upgraded = connection("socket-2", 3, "10.0.0.2:6180", ConnectionOrigin::Outbound);
    let done = handler.handle_completed_outbound_upgrade(0, Ok(upgraded), 25);
    assert_eq!(
        done,
        Action::OutboundFailed {
            token: 0,
            peer_id: PeerId::new(2),
            addr: addr("10.0.0.2:6180"),
            response_tx: 8,
            error: PeerManagerError::IdentityMismatch {
                dialed: PeerId::new(3),
                expected: PeerId::new(2),
            },
            elapsed: 15,
        }
    );
    assert_eq!(handler.pending_connection_upgrades(ConnectionOrigin::Outbound), 0);
}

#[test]
fn inbound_upgrade_fails_quietly() {
    let mut handler = Handler::new(addr("0.0.0.0:6180"));
    let before = handler.pending_connection_upgrades(ConnectionOrigin::Inbound);

    let accepted = handler.accept_incoming(Ok(addr("10.0.0.9:40000")), 100);
    assert_eq!(accepted, Action::AwaitInbound { token: 0 });
    assert_eq!(handler.pending_connection_upgrades(ConnectionOrigin::Inbound), before + 1);

    let done = handler.handle_completed_inbound_upgrade(0, Err("connection reset".to_string()), 130);
    assert_eq!(
        done,
        Action::InboundFailed {
            token: 0,
            addr: addr("10.0.0.9:40000"),
            error: "connection reset".to_string(),
            elapsed: 30,
        }
    );
    assert_eq!(handler.pending_connection_upgrades(ConnectionOrigin::Inbound), before);
    assert_eq!(handler.pending_connection_upgrades(ConnectionOrigin::Outbound), 0);
}

#[test]
fn dial_is_rejected_at_once() {
    let mut handler = Handler::new(addr("0.0.0.0:6180"));
    let before = handler.pending_connection_upgrades(ConnectionOrigin::Outbound);

    let request = TransportRequest::DialPeer(PeerId::new(4), addr("no such host"), 9);
    let rejected = handler.dial_peer(request, Err("cannot resolve".to_string()), 5);
    assert_eq!(
        rejected,
        Action::RejectDial {
            peer_id: PeerId::new(4),
            response_tx: 9,
            error: PeerManagerError::DialRejected("cannot resolve".to_string()),
        }
    );
    assert_eq!(handler.pending_connection_upgrades(ConnectionOrigin::Outbound), before);

    // Nothing was admitted: the token that would have been used is unknown.
    let late = handler.handle_completed_outbound_upgrade(0, Err("late".to_string()), 6);
    assert_eq!(late, Action::NotPending { origin: ConnectionOrigin::Outbound, token: 0 });
    // The next dial that starts gets the first token.
    let request = TransportRequest::DialPeer(PeerId::new(4), addr("10.0.0.4:6180"), 10);
    assert_eq!(handler.dial_peer(request, Ok(()), 7), Action::AwaitOutbound { token: 0 });
}

#[test]
fn outbound_upgrade_fails_at_the_transport() {
    let mut handler = Handler::new(addr("0.0.0.0:6180"));
    let request = TransportRequest::DialPeer(PeerId::new(5), addr("10.0.0.5:6180"), 11);
    assert_eq!(handler.dial_peer(request, Ok(()), 0), Action::AwaitOutbound { token: 0 });

    let done = handler.handle_completed_outbound_upgrade(0, Err("handshake failed".to_string()), 3);
    assert_eq!(
        done,
        Action::OutboundFailed {
            token: 0,
            peer_id: PeerId::new(5),
            addr: addr("10.0.0.5:6180"),
            response_tx: 11,
            error: PeerManagerError::UpgradeFailed("handshake failed".to_string()),
            elapsed: 3,
        }
    );
}

#[test]
fn inbound_upgrade_is_announced_whoever_the_peer_is() {
    let mut handler = Handler::new(addr("0.0.0.0:6180"));
    assert_eq!(handler.accept_incoming(Ok(addr("10.0.0.8:41000")), 200), Action::AwaitInbound { token: 0 });

    let upgraded = connection("socket-8", 77, "10.0.0.8:41000", ConnectionOrigin::Inbound);
    let done = handler.handle_completed_inbound_upgrade(0, Ok(upgraded), 260);
    assert_eq!(
        done,
        Action::InboundUpgraded {
            token: 0,
            connection: connection("socket-8", 77, "10.0.0.8:41000", ConnectionOrigin::Inbound),
            elapsed: 60,
        }
    );
    assert_eq!(handler.pending_connection_upgrades(ConnectionOrigin::Inbound), 0);
}

#[test]
fn accept_error_changes_nothing() {
    let mut handler = Handler::new(addr("0.0.0.0:6180"));
    let failed = handler.accept_incoming(Err("too many open files".to_string()), 1);
    assert_eq!(failed, Action::AcceptFailed { error: "too many open files".to_string() });
    assert_eq!(handler.pending_connection_upgrades(ConnectionOrigin::Inbound), 0);
    assert_eq!(handler.pending_connection_upgrades(ConnectionOrigin::Outbound), 0);
    // No token was used up.
    assert_eq!(handler.accept_incoming(Ok(addr("10.0.0.8:41000")), 2), Action::AwaitInbound { token: 0 });
}
