//! The handler that runs the establishment loop.

use crate::action::TransportAction;
use crate::connection::{Connection, ConnectionOrigin};
use crate::error::PeerManagerError;
use crate::event::{upgrades_started, TransportEvent, TransportRequest};
use crate::identity::NetworkAddress;
use crate::pending::{elapsed_since, PendingInbound, PendingOutbound};
use crate::pool::UpgradePool;
use crate::state::HandlerState;
use crate::trace::lemma_upgrades_started_monotone;
use core::marker::PhantomData;
use vstd::prelude::*;

verus! {

/// Listens for incoming connections, dials out on request, and sees every
/// upgrade through to its end.
///
/// The handler owns the two pools of upgrades in flight, one for each
/// origin, and hands out the tokens under which upgrades are admitted.
/// `TSocket` is the socket of an established connection, `TReply` the slot
/// on which a dial request is answered, and `TError` the error of the
/// transport.
pub struct TransportHandler<TSocket, TReply, TError> {
    listen_addr: NetworkAddress,
    pending_outbound: UpgradePool<PendingOutbound<TReply>>,
    pending_inbound: UpgradePool<PendingInbound>,
    next_token: u64,
    transport: PhantomData<(TSocket, TError)>,
}

impl<TSocket, TReply, TError> View for TransportHandler<TSocket, TReply, TError> {
    type V = HandlerState<TReply>;

    closed spec fn view(&self) -> HandlerState<TReply> {
        HandlerState {
            outbound: self.pending_outbound@,
            inbound: self.pending_inbound@,
            next_token: self.next_token as nat,
        }
    }
}

impl<TSocket, TReply, TError> TransportHandler<TSocket, TReply, TError> {
    /// The address the handler listens on.
    pub closed spec fn spec_listen_address(&self) -> NetworkAddress {
        self.listen_addr
    }

    /// The reading of the counter of pending upgrades for the origin.
    pub closed spec fn spec_pending_connection_upgrades(&self, origin: ConnectionOrigin) -> usize {
        match origin {
            ConnectionOrigin::Inbound => self.pending_inbound.spec_pending(),
            ConnectionOrigin::Outbound => self.pending_outbound.spec_pending(),
        }
    }

    /// The pools are well formed, and each counter of pending upgrades
    /// reads the number of upgrades in its pool.
    pub open spec fn wf(&self) -> bool {
        &&& self@.well_formed()
        &&& self.spec_pending_connection_upgrades(ConnectionOrigin::Inbound) == self@.pending(
            ConnectionOrigin::Inbound,
        )
        &&& self.spec_pending_connection_upgrades(ConnectionOrigin::Outbound) == self@.pending(
            ConnectionOrigin::Outbound,
        )
    }

    /// A handler for the listener bound to `listen_addr`. Nothing is in
    /// flight and both counters read zero.
    pub fn new(listen_addr: NetworkAddress) -> (handler: Self)
        ensures
            handler.wf(),
            handler@ == HandlerState::<TReply>::empty(),
            handler.spec_listen_address() == listen_addr,
    {
        TransportHandler {
            listen_addr,
            pending_outbound: UpgradePool::new(),
            pending_inbound: UpgradePool::new(),
            next_token: 0,
            transport: PhantomData,
        }
    }

    /// The address the handler listens on.
    pub fn listen_address(&self) -> (addr: &NetworkAddress)
        ensures
            *addr == self.spec_listen_address(),
    {
        &self.listen_addr
    }

    /// The counter of pending upgrades for the origin: the number of
    /// upgrades of that origin that are in flight.
    #[verifier::when_used_as_spec(spec_pending_connection_upgrades)]
    pub fn pending_connection_upgrades(&self, origin: ConnectionOrigin) -> (count: usize)
        requires
            self.wf(),
        ensures
            count == self.spec_pending_connection_upgrades(origin),
            count == self@.pending(origin),
    {
        match origin {
            ConnectionOrigin::Inbound => self.pending_inbound.pending(),
            ConnectionOrigin::Outbound => self.pending_outbound.pending(),
        }
    }

    /// Whether a token is left for one more upgrade. Tokens are never used
    /// twice; the handler can admit as many upgrades over its lifetime as
    /// there are tokens.
    pub fn can_admit(&self) -> (can: bool)
        requires
            self.wf(),
        ensures
            can == self@.has_tokens(1),
    {
        self.next_token < u64::MAX
    }

    /// Handles a dial request for which the transport has been asked to
    /// dial. `dial` is the transport's answer: `Ok` if it started an
    /// upgrade, its error if it refused.
    pub fn dial_peer(
        &mut self,
        request: TransportRequest<TReply>,
        dial: Result<(), TError>,
        now: u64,
    ) -> (action: TransportAction<TSocket, TReply, TError>)
        requires
            old(self).wf(),
            dial is Ok ==> old(self)@.has_tokens(1),
        ensures
            final(self).wf(),
            final(self).spec_listen_address() == old(self).spec_listen_address(),
            (final(self)@, action) == old(self)@.dial_peer::<TSocket, TError>(request, dial, now),
    {
        match request {
            TransportRequest::DialPeer(peer_id, addr, response_tx) => match dial {
                Ok(_) => {
                    let token = self.next_token;
                    let pending = PendingOutbound { addr, peer_id, start_time: now, response_tx };
                    let refused = self.pending_outbound.insert(token, pending);
                    assert(refused is None);
                    self.next_token = token + 1;
                    TransportAction::AwaitOutbound { token }
                },
                Err(error) => TransportAction::RejectDial {
                    peer_id,
                    response_tx,
                    error: PeerManagerError::DialRejected(error),
                },
            },
        }
    }

    /// Handles the next item of the listener: the address of a connection
    /// whose upgrade the listener has started, or the error of the accept.
    pub fn accept_incoming(&mut self, accept: Result<NetworkAddress, TError>, now: u64) -> (action:
        TransportAction<TSocket, TReply, TError>)
        requires
            old(self).wf(),
            accept is Ok ==> old(self)@.has_tokens(1),
        ensures
            final(self).wf(),
            final(self).spec_listen_address() == old(self).spec_listen_address(),
            (final(self)@, action) == old(self)@.accept_incoming::<TSocket, TError>(accept, now),
    {
        match accept {
            Ok(addr) => {
                let token = self.next_token;
                let pending = PendingInbound { addr, start_time: now };
                let refused = self.pending_inbound.insert(token, pending);
                assert(refused is None);
                self.next_token = token + 1;
                TransportAction::AwaitInbound { token }
            },
            Err(error) => TransportAction::AcceptFailed { error },
        }
    }

    /// Handles the end of the outbound upgrade that was admitted under
    /// `token`: the connection it produced, or the error it failed with.
    pub fn handle_completed_outbound_upgrade(
        &mut self,
        token: u64,
        upgrade: Result<Connection<TSocket>, TError>,
        now: u64,
    ) -> (action: TransportAction<TSocket, TReply, TError>)
        requires
            old(self).wf(),
        ensures
            final(self).wf(),
            final(self).spec_listen_address() == old(self).spec_listen_address(),
            (final(self)@, action) == old(self)@.complete_outbound(token, upgrade, now),
    {
        match self.pending_outbound.resolve(token) {
            None => TransportAction::NotPending { origin: ConnectionOrigin::Outbound, token },
            Some(pending) => {
                let elapsed = elapsed_since(pending.start_time, now);
                match upgrade {
                    Ok(connection) => {
                        let dialed_peer_id = connection.metadata.remote_peer_id;
                        if dialed_peer_id == pending.peer_id {
                            TransportAction::OutboundUpgraded {
                                token,
                                connection,
                                addr: pending.addr,
                                response_tx: pending.response_tx,
                                elapsed,
                            }
                        } else {
                            TransportAction::OutboundFailed {
                                token,
                                peer_id: pending.peer_id,
                                addr: pending.addr,
                                response_tx: pending.response_tx,
                                error: PeerManagerError::IdentityMismatch {
                                    dialed: dialed_peer_id,
                                    expected: pending.peer_id,
                                },
                                elapsed,
                            }
                        }
                    },
                    Err(error) => TransportAction::OutboundFailed {
                        token,
                        peer_id: pending.peer_id,
                        addr: pending.addr,
                        response_tx: pending.response_tx,
                        error: PeerManagerError::UpgradeFailed(error),
                        elapsed,
                    },
                }
            },
        }
    }

    /// Handles the end of the inbound upgrade that was admitted under
    /// `token`: the connection it produced, or the error it failed with.
    pub fn handle_completed_inbound_upgrade(
        &mut self,
        token: u64,
        upgrade: Result<Connection<TSocket>, TError>,
        now: u64,
    ) -> (action: TransportAction<TSocket, TReply, TError>)
        requires
            old(self).wf(),
        ensures
            final(self).wf(),
            final(self).spec_listen_address() == old(self).spec_listen_address(),
            (final(self)@, action) == old(self)@.complete_inbound::<TSocket, TError>(
                token,
                upgrade,
                now,
            ),
    {
        match self.pending_inbound.resolve(token) {
            None => TransportAction::NotPending { origin: ConnectionOrigin::Inbound, token },
            Some(pending) => {
                let elapsed = elapsed_since(pending.start_time, now);
                match upgrade {
                    Ok(connection) => TransportAction::InboundUpgraded {
                        token,
                        connection,
                        elapsed,
                    },
                    Err(error) => TransportAction::InboundFailed {
                        token,
                        addr: pending.addr,
                        error,
                        elapsed,
                    },
                }
            },
        }
    }

    /// Runs one iteration of the loop on the event that was ready first.
    pub fn handle_event(&mut self, event: TransportEvent<TSocket, TReply, TError>) -> (action:
        TransportAction<TSocket, TReply, TError>)
        requires
            old(self).wf(),
            event.starts_upgrade() ==> old(self)@.has_tokens(1),
        ensures
            final(self).wf(),
            final(self).spec_listen_address() == old(self).spec_listen_address(),
            (final(self)@, action) == old(self)@.step(event),
    {
        match event {
            TransportEvent::DialRequest { request, dial, now } => self.dial_peer(
                request,
                dial,
                now,
            ),
            TransportEvent::Incoming { accept, now } => self.accept_incoming(accept, now),
            TransportEvent::OutboundUpgradeDone {
                token,
                upgrade,
                now,
            } => self.handle_completed_outbound_upgrade(token, upgrade, now),
            TransportEvent::InboundUpgradeDone {
                token,
                upgrade,
                now,
            } => self.handle_completed_inbound_upgrade(token, upgrade, now),
        }
    }

    /// Runs the loop over `events`, one iteration for each and in their
    /// order, and returns what each iteration asks of the caller.
    ///
    /// Upgrades that are still in flight after the last event stay pending
    /// in the handler. A caller that ends the loop here drops them with it:
    /// their requests are never answered.
    ///
    /// The handler needs a token for each upgrade that the events start, and
    /// they start no more than there are events.
    pub fn listen(&mut self, events: Vec<TransportEvent<TSocket, TReply, TError>>) -> (actions: Vec<
        TransportAction<TSocket, TReply, TError>,
    >)
        requires
            old(self).wf(),
            old(self)@.has_tokens(upgrades_started(events@)),
        ensures
            final(self).wf(),
            final(self).spec_listen_address() == old(self).spec_listen_address(),
            final(self)@ == old(self)@.run(events@),
            actions@ == old(self)@.actions(events@),
    {
        let ghost start = self@;
        let ghost all = events@;
        let mut actions = Vec::new();
        for event in it: events
            invariant
                it.seq() == all,
                self.wf(),
                self.spec_listen_address() == old(self).spec_listen_address(),
                start.has_tokens(upgrades_started(all)),
                self@ == start.run(all.take(it.index())),
                self@.next_token == start.next_token + upgrades_started(all.take(it.index())),
                actions@ == start.actions(all.take(it.index())),
        {
            proof {
                let done = it.index();
                assert(all.take(done + 1).drop_last() =~= all.take(done));
                lemma_upgrades_started_monotone(all, done + 1, all.len() as int);
                assert(all.take(all.len() as int) =~= all);
            }
            let action = self.handle_event(event);
            actions.push(action);
        }
        proof {
            assert(all.take(all.len() as int) =~= all);
        }
        actions
    }
}

} // verus!
