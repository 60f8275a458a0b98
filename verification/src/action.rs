//! What the establishment loop asks of its caller.

use crate::connection::{Connection, ConnectionOrigin, TransportNotification};
use crate::error::PeerManagerError;
use crate::identity::{NetworkAddress, PeerId};
use vstd::prelude::*;

verus! {

/// A measurement for the metrics of upgrade durations.
#[derive(Clone, Copy, Debug, PartialEq, Eq, Structural)]
pub struct UpgradeTime {
    pub origin: ConnectionOrigin,
    /// Whether the upgrade counts as succeeded or as failed.
    pub succeeded: bool,
    /// From admission to completion, in the unit of the clock.
    pub elapsed: u64,
}

/// One thing to do for an action.
#[derive(Debug, PartialEq, Eq)]
pub enum TransportEffect<TSocket, TReply, TError> {
    /// Record the time an upgrade took.
    Record(UpgradeTime),
    /// Tell the registry.
    Notify(TransportNotification<TSocket>),
    /// Resolve the reply slot with the answer.
    Respond(TReply, Result<(), PeerManagerError<TError>>),
}

/// The handler's decision on one event. The caller carries it out: the
/// handler has already updated its own books.
#[derive(Debug, PartialEq, Eq)]
#[allow(inconsistent_fields)]
pub enum TransportAction<TSocket, TReply, TError> {
    /// The dial was started. Its upgrade is pending under `token`; report
    /// its completion with that token.
    AwaitOutbound { token: u64 },
    /// The transport refused the dial. Answer the request with `error` now;
    /// nothing is pending for it.
    RejectDial { peer_id: PeerId, response_tx: TReply, error: PeerManagerError<TError> },
    /// An incoming connection is being upgraded. The upgrade is pending
    /// under `token`; report its completion with that token.
    AwaitInbound { token: u64 },
    /// The listener failed to accept. Nothing changes; the loop goes on.
    AcceptFailed { error: TError },
    /// An outbound upgrade reached the peer that was dialed. First hand
    /// `connection` to the registry, then answer the request with success.
    OutboundUpgraded {
        token: u64,
        connection: Connection<TSocket>,
        addr: NetworkAddress,
        response_tx: TReply,
        elapsed: u64,
    },
    /// An outbound upgrade did not yield the connection that was asked for.
    /// Answer the request with `error`; the registry hears nothing.
    OutboundFailed {
        token: u64,
        peer_id: PeerId,
        addr: NetworkAddress,
        response_tx: TReply,
        error: PeerManagerError<TError>,
        elapsed: u64,
    },
    /// An inbound upgrade succeeded. Hand `connection` to the registry.
    InboundUpgraded { token: u64, connection: Connection<TSocket>, elapsed: u64 },
    /// An inbound upgrade failed. There is nobody to answer.
    InboundFailed { token: u64, addr: NetworkAddress, error: TError, elapsed: u64 },
    /// A completion was reported for a token under which nothing is
    /// pending. Nothing changes and nothing is to be done.
    NotPending { origin: ConnectionOrigin, token: u64 },
}

impl<TSocket, TReply, TError> TransportAction<TSocket, TReply, TError> {
    /// The upgrade that this action admits to a pool, if it admits one.
    pub open spec fn admitted(self) -> Option<(ConnectionOrigin, u64)> {
        match self {
            TransportAction::AwaitOutbound { token } => Some((ConnectionOrigin::Outbound, token)),
            TransportAction::AwaitInbound { token } => Some((ConnectionOrigin::Inbound, token)),
            _ => None,
        }
    }

    /// The pending upgrade that this action takes out of its pool, if it
    /// takes one out.
    pub open spec fn resolved(self) -> Option<(ConnectionOrigin, u64)> {
        match self {
            TransportAction::OutboundUpgraded { token, .. } => Some(
                (ConnectionOrigin::Outbound, token),
            ),
            TransportAction::OutboundFailed { token, .. } => Some(
                (ConnectionOrigin::Outbound, token),
            ),
            TransportAction::InboundUpgraded { token, .. } => Some(
                (ConnectionOrigin::Inbound, token),
            ),
            TransportAction::InboundFailed { token, .. } => Some((ConnectionOrigin::Inbound, token)),
            _ => None,
        }
    }

    /// What the registry is to be told, if anything.
    pub open spec fn notification(self) -> Option<TransportNotification<TSocket>> {
        match self {
            TransportAction::OutboundUpgraded { connection, .. } => Some(
                TransportNotification::NewConnection(connection),
            ),
            TransportAction::InboundUpgraded { connection, .. } => Some(
                TransportNotification::NewConnection(connection),
            ),
            _ => None,
        }
    }

    /// The reply slot that is to be resolved and the answer to resolve it
    /// with, if a request is answered.
    pub open spec fn response(self) -> Option<(TReply, Result<(), PeerManagerError<TError>>)> {
        match self {
            TransportAction::RejectDial { response_tx, error, .. } => Some(
                (response_tx, Err(error)),
            ),
            TransportAction::OutboundUpgraded { response_tx, .. } => Some((response_tx, Ok(()))),
            TransportAction::OutboundFailed { response_tx, error, .. } => Some(
                (response_tx, Err(error)),
            ),
            _ => None,
        }
    }

    /// Whether the action answers a request on the given reply slot.
    pub open spec fn answers_on(self, response_tx: TReply) -> bool {
        self.response() matches Some(response) && response.0 == response_tx
    }

    /// The duration that is to be recorded, if an upgrade completed.
    pub open spec fn upgrade_time(self) -> Option<UpgradeTime> {
        match self {
            TransportAction::OutboundUpgraded { elapsed, .. } => Some(
                UpgradeTime { origin: ConnectionOrigin::Outbound, succeeded: true, elapsed },
            ),
            TransportAction::OutboundFailed { elapsed, .. } => Some(
                UpgradeTime { origin: ConnectionOrigin::Outbound, succeeded: false, elapsed },
            ),
            TransportAction::InboundUpgraded { elapsed, .. } => Some(
                UpgradeTime { origin: ConnectionOrigin::Inbound, succeeded: true, elapsed },
            ),
            TransportAction::InboundFailed { elapsed, .. } => Some(
                UpgradeTime { origin: ConnectionOrigin::Inbound, succeeded: false, elapsed },
            ),
            _ => None,
        }
    }

    /// What is to be done for the action, in the order in which it is to be
    /// done: the measurement is recorded, then the registry is told, and
    /// only then is the request answered.
    pub open spec fn effects(self) -> Seq<TransportEffect<TSocket, TReply, TError>> {
        let record = match self.upgrade_time() {
            Some(time) => seq![TransportEffect::Record(time)],
            None => seq![],
        };
        let notify = match self.notification() {
            Some(notification) => seq![TransportEffect::Notify(notification)],
            None => seq![],
        };
        let respond = match self.response() {
            Some(response) => seq![TransportEffect::Respond(response.0, response.1)],
            None => seq![],
        };
        record + notify + respond
    }

    /// Takes the action apart into what is to be done, in order.
    pub fn into_effects(self) -> (effects: Vec<TransportEffect<TSocket, TReply, TError>>)
        ensures
            effects@ == self.effects(),
    {
        let mut effects = Vec::new();
        match self {
            TransportAction::RejectDial { response_tx, error, .. } => {
                effects.push(TransportEffect::Respond(response_tx, Err(error)));
            },
            TransportAction::OutboundUpgraded { connection, response_tx, elapsed, .. } => {
                effects.push(
                    TransportEffect::Record(
                        UpgradeTime {
                            origin: ConnectionOrigin::Outbound,
                            succeeded: true,
                            elapsed,
                        },
                    ),
                );
                effects.push(
                    TransportEffect::Notify(TransportNotification::NewConnection(connection)),
                );
                effects.push(TransportEffect::Respond(response_tx, Ok(())));
            },
            TransportAction::OutboundFailed { response_tx, error, elapsed, .. } => {
                effects.push(
                    TransportEffect::Record(
                        UpgradeTime {
                            origin: ConnectionOrigin::Outbound,
                            succeeded: false,
                            elapsed,
                        },
                    ),
                );
                effects.push(TransportEffect::Respond(response_tx, Err(error)));
            },
            TransportAction::InboundUpgraded { connection, elapsed, .. } => {
                effects.push(
                    TransportEffect::Record(
                        UpgradeTime { origin: ConnectionOrigin::Inbound, succeeded: true, elapsed },
                    ),
                );
                effects.push(
                    TransportEffect::Notify(TransportNotification::NewConnection(connection)),
                );
            },
            TransportAction::InboundFailed { elapsed, .. } => {
                effects.push(
                    TransportEffect::Record(
                        UpgradeTime {
                            origin: ConnectionOrigin::Inbound,
                            succeeded: false,
                            elapsed,
                        },
                    ),
                );
            },
            _ => {},
        }
        effects
    }
}

} // verus!
