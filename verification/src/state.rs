//! The establishment loop as a state machine.
//!
//! [`HandlerState`] is what the handler knows between two events: the two
//! pools of upgrades in flight. [`HandlerState::step`] says, for every state
//! and every event, what the next state is and what is asked of the caller.
//! The executable handler is proved against it.

use crate::action::TransportAction;
use crate::connection::{Connection, ConnectionOrigin};
use crate::error::PeerManagerError;
use crate::event::{TransportEvent, TransportRequest};
use crate::identity::NetworkAddress;
use crate::pending::{elapsed_between, PendingInbound, PendingOutbound};
use vstd::prelude::*;

verus! {

/// The pools of upgrades in flight, each keyed by the token under which the
/// upgrade was admitted, and the number of tokens handed out so far.
pub struct HandlerState<TReply> {
    pub outbound: Map<u64, PendingOutbound<TReply>>,
    pub inbound: Map<u64, PendingInbound>,
    pub next_token: nat,
}

impl<TReply> HandlerState<TReply> {
    /// The state of a handler that has seen nothing yet.
    pub open spec fn empty() -> Self {
        HandlerState { outbound: Map::empty(), inbound: Map::empty(), next_token: 0 }
    }

    /// Both pools are finite, every token in use has been handed out, and no
    /// token is in use twice.
    pub open spec fn well_formed(self) -> bool {
        &&& self.outbound.dom().finite()
        &&& self.inbound.dom().finite()
        &&& self.next_token <= u64::MAX
        &&& forall|token: u64| #[trigger]
            self.outbound.contains_key(token) ==> token < self.next_token
        &&& forall|token: u64| #[trigger]
            self.inbound.contains_key(token) ==> token < self.next_token
        &&& forall|token: u64|
            !(#[trigger] self.outbound.contains_key(token) && #[trigger] self.inbound.contains_key(
                token,
            ))
    }

    /// Whether `count` more upgrades can be admitted before the tokens run
    /// out.
    pub open spec fn has_tokens(self, count: nat) -> bool {
        self.next_token + count <= u64::MAX
    }

    /// Whether an upgrade of the given origin is in flight under the token.
    pub open spec fn is_pending(self, origin: ConnectionOrigin, token: u64) -> bool {
        match origin {
            ConnectionOrigin::Inbound => self.inbound.contains_key(token),
            ConnectionOrigin::Outbound => self.outbound.contains_key(token),
        }
    }

    /// How many upgrades of the given origin are in flight.
    pub open spec fn pending(self, origin: ConnectionOrigin) -> nat {
        match origin {
            ConnectionOrigin::Inbound => self.inbound.len(),
            ConnectionOrigin::Outbound => self.outbound.len(),
        }
    }

    /// A dial request, with the transport's answer to the dial.
    ///
    /// Refused: the request is answered at once and the state stays as it
    /// is. Started: the upgrade is admitted to the outbound pool under the
    /// next token, with the request's reply slot.
    pub open spec fn dial_peer<TSocket, TError>(
        self,
        request: TransportRequest<TReply>,
        dial: Result<(), TError>,
        now: u64,
    ) -> (Self, TransportAction<TSocket, TReply, TError>) {
        match dial {
            Err(error) => (
                self,
                TransportAction::RejectDial {
                    peer_id: request.peer_id(),
                    response_tx: request.response_tx(),
                    error: PeerManagerError::DialRejected(error),
                },
            ),
            Ok(_) => {
                let token = self.next_token as u64;
                let pending = PendingOutbound {
                    addr: request.addr(),
                    peer_id: request.peer_id(),
                    start_time: now,
                    response_tx: request.response_tx(),
                };
                (
                    HandlerState {
                        outbound: self.outbound.insert(token, pending),
                        next_token: self.next_token + 1,
                        ..self
                    },
                    TransportAction::AwaitOutbound { token },
                )
            },
        }
    }

    /// The next item of the listener.
    ///
    /// An accept error changes nothing. An accepted connection has its
    /// upgrade admitted to the inbound pool under the next token.
    pub open spec fn accept_incoming<TSocket, TError>(
        self,
        accept: Result<NetworkAddress, TError>,
        now: u64,
    ) -> (Self, TransportAction<TSocket, TReply, TError>) {
        match accept {
            Err(error) => (self, TransportAction::AcceptFailed { error }),
            Ok(addr) => {
                let token = self.next_token as u64;
                let pending = PendingInbound { addr, start_time: now };
                (
                    HandlerState {
                        inbound: self.inbound.insert(token, pending),
                        next_token: self.next_token + 1,
                        ..self
                    },
                    TransportAction::AwaitInbound { token },
                )
            },
        }
    }

    /// The end of an outbound upgrade.
    ///
    /// The upgrade leaves the pool. It succeeded if the transport produced
    /// a connection and the peer at its other end is the peer that was
    /// dialed; a connection to any other peer is an error of its own kind,
    /// and is not passed on.
    pub open spec fn complete_outbound<TSocket, TError>(
        self,
        token: u64,
        upgrade: Result<Connection<TSocket>, TError>,
        now: u64,
    ) -> (Self, TransportAction<TSocket, TReply, TError>) {
        if !self.outbound.contains_key(token) {
            (self, TransportAction::NotPending { origin: ConnectionOrigin::Outbound, token })
        } else {
            let pending = self.outbound[token];
            let elapsed = elapsed_between(pending.start_time, now);
            let state = HandlerState { outbound: self.outbound.remove(token), ..self };
            let action = match upgrade {
                Ok(connection) => if connection.metadata.remote_peer_id == pending.peer_id {
                    TransportAction::OutboundUpgraded {
                        token,
                        connection,
                        addr: pending.addr,
                        response_tx: pending.response_tx,
                        elapsed,
                    }
                } else {
                    TransportAction::OutboundFailed {
                        token,
                        peer_id: pending.peer_id,
                        addr: pending.addr,
                        response_tx: pending.response_tx,
                        error: PeerManagerError::IdentityMismatch {
                            dialed: connection.metadata.remote_peer_id,
                            expected: pending.peer_id,
                        },
                        elapsed,
                    }
                },
                Err(error) => TransportAction::OutboundFailed {
                    token,
                    peer_id: pending.peer_id,
                    addr: pending.addr,
                    response_tx: pending.response_tx,
                    error: PeerManagerError::UpgradeFailed(error),
                    elapsed,
                },
            };
            (state, action)
        }
    }

    /// The end of an inbound upgrade.
    ///
    /// The upgrade leaves the pool. A connection is passed on as it is: the
    /// peer at its other end is whoever the upgrade says it is.
    pub open spec fn complete_inbound<TSocket, TError>(
        self,
        token: u64,
        upgrade: Result<Connection<TSocket>, TError>,
        now: u64,
    ) -> (Self, TransportAction<TSocket, TReply, TError>) {
        if !self.inbound.contains_key(token) {
            (self, TransportAction::NotPending { origin: ConnectionOrigin::Inbound, token })
        } else {
            let pending = self.inbound[token];
            let elapsed = elapsed_between(pending.start_time, now);
            let state = HandlerState { inbound: self.inbound.remove(token), ..self };
            let action = match upgrade {
                Ok(connection) => TransportAction::InboundUpgraded { token, connection, elapsed },
                Err(error) => TransportAction::InboundFailed {
                    token,
                    addr: pending.addr,
                    error,
                    elapsed,
                },
            };
            (state, action)
        }
    }

    /// One iteration of the loop: the state after `event`, and what the
    /// caller is asked to do.
    pub open spec fn step<TSocket, TError>(
        self,
        event: TransportEvent<TSocket, TReply, TError>,
    ) -> (Self, TransportAction<TSocket, TReply, TError>) {
        match event {
            TransportEvent::DialRequest { request, dial, now } => self.dial_peer(
                request,
                dial,
                now,
            ),
            TransportEvent::Incoming { accept, now } => self.accept_incoming(accept, now),
            TransportEvent::OutboundUpgradeDone { token, upgrade, now } => self.complete_outbound(
                token,
                upgrade,
                now,
            ),
            TransportEvent::InboundUpgradeDone { token, upgrade, now } => self.complete_inbound(
                token,
                upgrade,
                now,
            ),
        }
    }

    /// The state after the events, taken in order.
    pub open spec fn run<TSocket, TError>(
        self,
        events: Seq<TransportEvent<TSocket, TReply, TError>>,
    ) -> Self
        decreases events.len(),
    {
        if events.len() == 0 {
            self
        } else {
            self.run(events.drop_last()).step(events.last()).0
        }
    }

    /// What the caller is asked to do, event by event.
    pub open spec fn actions<TSocket, TError>(
        self,
        events: Seq<TransportEvent<TSocket, TReply, TError>>,
    ) -> Seq<TransportAction<TSocket, TReply, TError>>
        decreases events.len(),
    {
        if events.len() == 0 {
            Seq::empty()
        } else {
            self.actions(events.drop_last()).push(
                self.run(events.drop_last()).step(events.last()).1,
            )
        }
    }
}

} // verus!
