//! What the establishment loop reacts to.

use crate::connection::{Connection, ConnectionOrigin};
use crate::identity::{NetworkAddress, PeerId};
use vstd::prelude::*;

verus! {

/// A request to the handler. `TReply` is the single-use slot on which the
/// requester waits for the outcome; with the request its ownership passes to
/// the handler.
#[derive(Debug, PartialEq, Eq)]
pub enum TransportRequest<TReply> {
    /// Dial the peer at the address and answer on the slot.
    DialPeer(PeerId, NetworkAddress, TReply),
}

impl<TReply> TransportRequest<TReply> {
    /// The peer that the request wants to reach.
    pub open spec fn peer_id(self) -> PeerId {
        match self {
            TransportRequest::DialPeer(peer_id, _, _) => peer_id,
        }
    }

    /// The address that the request wants dialed.
    pub open spec fn addr(self) -> NetworkAddress {
        match self {
            TransportRequest::DialPeer(_, addr, _) => addr,
        }
    }

    /// The slot on which the request wants its answer.
    pub open spec fn response_tx(self) -> TReply {
        match self {
            TransportRequest::DialPeer(_, _, response_tx) => response_tx,
        }
    }
}

/// One thing that happened outside the handler. The loop takes whichever is
/// ready first; every event carries the clock reading `now` at which the
/// loop took it.
#[derive(Debug, PartialEq, Eq)]
pub enum TransportEvent<TSocket, TReply, TError> {
    /// A request arrived, and the transport was asked to dial for it:
    /// `dial` is `Ok` if the transport started an upgrade, and its error if
    /// it refused.
    DialRequest { request: TransportRequest<TReply>, dial: Result<(), TError>, now: u64 },
    /// The listener produced its next item: an upgrade of a connection from
    /// the given address, or an error of the accept itself.
    Incoming { accept: Result<NetworkAddress, TError>, now: u64 },
    /// The outbound upgrade admitted under `token` has finished.
    OutboundUpgradeDone { token: u64, upgrade: Result<Connection<TSocket>, TError>, now: u64 },
    /// The inbound upgrade admitted under `token` has finished.
    InboundUpgradeDone { token: u64, upgrade: Result<Connection<TSocket>, TError>, now: u64 },
}

impl<TSocket, TReply, TError> TransportEvent<TSocket, TReply, TError> {
    /// The event that reports the end of the upgrade of the origin under
    /// the token.
    pub open spec fn upgrade_done(
        origin: ConnectionOrigin,
        token: u64,
        upgrade: Result<Connection<TSocket>, TError>,
        now: u64,
    ) -> Self {
        match origin {
            ConnectionOrigin::Inbound => TransportEvent::InboundUpgradeDone { token, upgrade, now },
            ConnectionOrigin::Outbound => TransportEvent::OutboundUpgradeDone {
                token,
                upgrade,
                now,
            },
        }
    }

    /// The connection that the event brings, if it reports an upgrade that
    /// produced one.
    pub open spec fn connection(self) -> Option<Connection<TSocket>> {
        match self {
            TransportEvent::OutboundUpgradeDone { upgrade: Ok(connection), .. } => Some(connection),
            TransportEvent::InboundUpgradeDone { upgrade: Ok(connection), .. } => Some(connection),
            _ => None,
        }
    }

    /// Whether the event brings a new upgrade: a dial that the transport
    /// started, or a connection that the listener accepted.
    pub open spec fn starts_upgrade(self) -> bool {
        match self {
            TransportEvent::DialRequest { dial, .. } => dial is Ok,
            TransportEvent::Incoming { accept, .. } => accept is Ok,
            _ => false,
        }
    }
}

/// How many of the events bring a new upgrade.
pub open spec fn upgrades_started<TSocket, TReply, TError>(
    events: Seq<TransportEvent<TSocket, TReply, TError>>,
) -> nat
    decreases events.len(),
{
    if events.len() == 0 {
        0
    } else {
        upgrades_started(events.drop_last()) + if events.last().starts_upgrade() {
            1nat
        } else {
            0nat
        }
    }
}

/// No more upgrades are started than there are events.
pub proof fn lemma_upgrades_started_bound<TSocket, TReply, TError>(
    events: Seq<TransportEvent<TSocket, TReply, TError>>,
)
    ensures
        upgrades_started(events) <= events.len(),
    decreases events.len(),
{
    if events.len() > 0 {
        lemma_upgrades_started_bound(events.drop_last());
    }
}

} // verus!
