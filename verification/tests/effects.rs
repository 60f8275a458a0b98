use network::{
    Connection, ConnectionMetadata, ConnectionOrigin, DeliveryFailure, NetworkAddress, PeerId,
    PeerManagerError, TransportAction, TransportEffect, TransportNotification, UpgradeTime,
};

type Action = TransportAction<u8, char, &'static str>;
type Effect = TransportEffect<u8, char, &'static str>;

fn addr(text: &str) -> NetworkAddress {
    NetworkAddress::new(text.to_string())
}

fn connection(socket: u8, origin: ConnectionOrigin) -> Connection<u8> {
    Connection {
        socket,
        metadata: ConnectionMetadata { remote_peer_id: PeerId::new(1), addr: addr("10.0.0.1:6180"), origin },
    }
}

#[test]
fn admitting_asks_for_nothing() {
    assert_eq!(Action::AwaitOutbound { token: 3 }.into_effects(), Vec::<Effect>::new());
    assert_eq!(Action::AwaitInbound { token: 4 }.into_effects(), Vec::<Effect>::new());
}

#[test]
fn failing_to_accept_asks_for_nothing() {
    assert_eq!(Action::AcceptFailed { error: "accept" }.into_effects(), Vec::<Effect>::new());
    assert_eq!(
        Action::NotPending { origin: ConnectionOrigin::Inbound, token: 1 }.into_effects(),
        Vec::<Effect>::new()
    );
    assert_eq!(
        Action::NotPending { origin: ConnectionOrigin::Outbound, token: 1 }.into_effects(),
        Vec::<Effect>::new()
    );
}

#[test]
fn rejecting_a_dial_answers_with_the_error() {
    let action = Action::RejectDial {
        peer_id: PeerId::new(1),
        response_tx: 'a',
        error: PeerManagerError::DialRejected("refused"),
    };
    assert_eq!(
        action.into_effects(),
        vec![Effect::Respond('a', Err(PeerManagerError::DialRejected("refused")))]
    );
}

#[test]
fn outbound_success_announces_before_it_answers() {
    let action = Action::OutboundUpgraded {
        token: 0,
        connection: connection(9, ConnectionOrigin::Outbound),
        addr: addr("10.0.0.1:6180"),
        response_tx: 'b',
        elapsed: 50,
    };
    assert_eq!(
        action.into_effects(),
        vec![
            Effect::Record(UpgradeTime { origin: ConnectionOrigin::Outbound, succeeded: true, elapsed: 50 }),
            Effect::Notify(TransportNotification::NewConnection(connection(9, ConnectionOrigin::Outbound))),
            Effect::Respond('b', Ok(())),
        ]
    );
}

#[test]
fn outbound_failure_answers_and_announces_nothing() {
    let action = Action::OutboundFailed {
        token: 0,
        peer_id: PeerId::new(2),
        addr: addr("10.0.0.2:6180"),
        response_tx: 'c',
        error: PeerManagerError::IdentityMismatch { dialed: PeerId::new(3), expected: PeerId::new(2) },
        elapsed: 7,
    };
    assert_eq!(
        action.into_effects(),
        vec![
            Effect::Record(UpgradeTime { origin: ConnectionOrigin::Outbound, succeeded: false, elapsed: 7 }),
            Effect::Respond(
                'c',
                Err(PeerManagerError::IdentityMismatch { dialed: PeerId::new(3), expected: PeerId::new(2) })
            ),
        ]
    );
}

#[test]
fn inbound_success_announces_and_answers_nobody() {
    let action = Action::InboundUpgraded { token: 2, connection: connection(4, ConnectionOrigin::Inbound), elapsed: 60 };
    assert_eq!(
        action.into_effects(),
        vec![
            Effect::Record(UpgradeTime { origin: ConnectionOrigin::Inbound, succeeded: true, elapsed: 60 }),
            Effect::Notify(TransportNotification::NewConnection(connection(4, ConnectionOrigin::Inbound))),
        ]
    );
}

#[test]
fn inbound_failure_is_only_measured() {
    let action = Action::InboundFailed { token: 2, addr: addr("10.0.0.9:40000"), error: "reset", elapsed: 30 };
    assert_eq!(
        action.into_effects(),
        vec![Effect::Record(UpgradeTime { origin: ConnectionOrigin::Inbound, succeeded: false, elapsed: 30 })]
    );
}

#[test]
fn losing_the_registry_ends_the_loop() {
    assert!(DeliveryFailure::NotificationDeliveryFailure.is_fatal());
}

#[test]
fn an_abandoned_reply_does_not_end_the_loop() {
    assert!(!DeliveryFailure::ReplyAbandoned.is_fatal());
}
