//! What holds of every run of the establishment loop.

use crate::action::TransportAction;
use crate::connection::{Connection, ConnectionOrigin, TransportNotification};
use crate::error::PeerManagerError;
use crate::event::{upgrades_started, TransportEvent, TransportRequest};
use crate::pending::elapsed_between;
use crate::state::HandlerState;
use crate::trace::{
    admitted_total, lemma_upgrades_started_monotone, resolved_total, times_admitted,
    times_answered, times_notified, times_resolved,
};
use vstd::prelude::*;

verus! {

/// One for a pending upgrade, zero for none.
pub open spec fn in_flight<TReply>(
    state: HandlerState<TReply>,
    origin: ConnectionOrigin,
    token: u64,
) -> nat {
    if state.is_pending(origin, token) {
        1
    } else {
        0
    }
}

/// One iteration accounts for every upgrade: what was pending or is
/// admitted is resolved or stays pending. A token is admitted only when it
/// is the next to be handed out.
proof fn lemma_step_accounting<TSocket, TReply, TError>(
    state: HandlerState<TReply>,
    event: TransportEvent<TSocket, TReply, TError>,
    origin: ConnectionOrigin,
    token: u64,
)
    requires
        state.well_formed(),
        event.starts_upgrade() ==> state.has_tokens(1),
    ensures
        ({
            let (next, action) = state.step(event);
            let admitted: nat = if action.admitted() == Some((origin, token)) {
                1
            } else {
                0
            };
            let resolved: nat = if action.resolved() == Some((origin, token)) {
                1
            } else {
                0
            };
            &&& in_flight(state, origin, token) + admitted == resolved + in_flight(
                next,
                origin,
                token,
            )
            &&& admitted == 1 ==> token == state.next_token
        }),
{
}

/// One iteration moves each counter of pending upgrades by what it admits
/// and what it resolves.
proof fn lemma_step_pending<TSocket, TReply, TError>(
    state: HandlerState<TReply>,
    event: TransportEvent<TSocket, TReply, TError>,
    origin: ConnectionOrigin,
)
    requires
        state.well_formed(),
        event.starts_upgrade() ==> state.has_tokens(1),
    ensures
        ({
            let (next, action) = state.step(event);
            let admitted: nat = if action.admitted() matches Some((o, _)) && o == origin {
                1
            } else {
                0
            };
            let resolved: nat = if action.resolved() matches Some((o, _)) && o == origin {
                1
            } else {
                0
            };
            next.pending(origin) + resolved == state.pending(origin) + admitted
        }),
{
}

/// Every upgrade is accounted for. Over any run, and for any origin and
/// token: an upgrade that was pending at the start or was admitted during
/// the run has been resolved once, or is still pending at the end. No token
/// is admitted twice, and none that was handed out before the run; so no
/// upgrade is ever resolved twice.
pub proof fn law_every_upgrade_accounted_for<TSocket, TReply, TError>(
    start: HandlerState<TReply>,
    events: Seq<TransportEvent<TSocket, TReply, TError>>,
    origin: ConnectionOrigin,
    token: u64,
)
    requires
        start.well_formed(),
        start.has_tokens(upgrades_started(events)),
    ensures
        ({
            let actions = start.actions(events);
            let end = start.run(events);
            &&& in_flight(start, origin, token) + times_admitted(actions, origin, token)
                == times_resolved(actions, origin, token) + in_flight(end, origin, token)
            &&& times_admitted(actions, origin, token) <= 1
            &&& times_resolved(actions, origin, token) <= 1
            &&& token < start.next_token || token >= end.next_token ==> times_admitted(
                actions,
                origin,
                token,
            ) == 0
        }),
    decreases events.len(),
{
    if events.len() > 0 {
        let earlier = events.drop_last();
        let last = events.len() - 1;
        start.lemma_run_well_formed(events, last);
        law_every_upgrade_accounted_for(start, earlier, origin, token);
        lemma_step_accounting(start.run(earlier), events.last(), origin, token);
        assert(start.actions(events).drop_last() =~= start.actions(earlier));
    }
}

/// The counters of pending upgrades are consistent. Over any run and for
/// either origin, the number of upgrades in flight at the end is the number
/// at the start, plus those admitted, less those resolved.
pub proof fn law_pending_counts<TSocket, TReply, TError>(
    start: HandlerState<TReply>,
    events: Seq<TransportEvent<TSocket, TReply, TError>>,
    origin: ConnectionOrigin,
)
    requires
        start.well_formed(),
        start.has_tokens(upgrades_started(events)),
    ensures
        start.run(events).pending(origin) + resolved_total(start.actions(events), origin)
            == start.pending(origin) + admitted_total(start.actions(events), origin),
    decreases events.len(),
{
    if events.len() > 0 {
        let earlier = events.drop_last();
        let last = events.len() - 1;
        start.lemma_run_well_formed(events, last);
        law_pending_counts(start, earlier, origin);
        lemma_step_pending(start.run(earlier), events.last(), origin);
        assert(start.actions(events).drop_last() =~= start.actions(earlier));
    }
}

/// An action that admits an upgrade is counted.
proof fn lemma_admitted_counted<TSocket, TReply, TError>(
    actions: Seq<TransportAction<TSocket, TReply, TError>>,
    i: int,
    origin: ConnectionOrigin,
    token: u64,
)
    requires
        0 <= i < actions.len(),
        actions[i].admitted() == Some((origin, token)),
    ensures
        times_admitted(actions, origin, token) >= 1,
    decreases actions.len(),
{
    if i < actions.len() - 1 {
        lemma_admitted_counted(actions.drop_last(), i, origin, token);
    }
}

/// An action that announces a connection is counted, and no upgrade is
/// announced more often than it is resolved.
proof fn lemma_notified_counted<TSocket, TReply, TError>(
    actions: Seq<TransportAction<TSocket, TReply, TError>>,
    i: int,
    origin: ConnectionOrigin,
    token: u64,
)
    requires
        0 <= i < actions.len(),
        actions[i].resolved() == Some((origin, token)),
        actions[i].notification() is Some,
    ensures
        1 <= times_notified(actions, origin, token) <= times_resolved(actions, origin, token),
    decreases actions.len(),
{
    lemma_notified_at_most_resolved(actions, origin, token);
    if i < actions.len() - 1 {
        lemma_notified_counted(actions.drop_last(), i, origin, token);
    }
}

proof fn lemma_notified_at_most_resolved<TSocket, TReply, TError>(
    actions: Seq<TransportAction<TSocket, TReply, TError>>,
    origin: ConnectionOrigin,
    token: u64,
)
    ensures
        times_notified(actions, origin, token) <= times_resolved(actions, origin, token),
    decreases actions.len(),
{
    if actions.len() > 0 {
        lemma_notified_at_most_resolved(actions.drop_last(), origin, token);
    }
}

/// While an outbound upgrade stays pending, its record stays as it was
/// admitted.
proof fn lemma_pending_outbound_stable<TSocket, TReply, TError>(
    start: HandlerState<TReply>,
    events: Seq<TransportEvent<TSocket, TReply, TError>>,
    i: int,
    j: int,
    token: u64,
)
    requires
        start.well_formed(),
        start.has_tokens(upgrades_started(events)),
        0 <= i <= j <= events.len(),
        start.run(events.take(i)).outbound.contains_key(token),
        start.run(events.take(j)).outbound.contains_key(token),
    ensures
        start.run(events.take(j)).outbound[token] == start.run(events.take(i)).outbound[token],
    decreases j - i,
{
    if i < j {
        start.lemma_run_well_formed(events, i);
        start.lemma_run_well_formed(events, j - 1);
        start.lemma_run_next(events, j - 1);
        lemma_upgrades_started_monotone(events, i, j - 1);
        let before = start.run(events.take(j - 1));
        if before.outbound.contains_key(token) {
            lemma_pending_outbound_stable(start, events, i, j - 1, token);
        }
    }
}

/// The token of an upgrade that a later event starts is not pending yet.
proof fn lemma_token_fresh<TSocket, TReply, TError>(
    start: HandlerState<TReply>,
    events: Seq<TransportEvent<TSocket, TReply, TError>>,
    j: int,
    i: int,
    origin: ConnectionOrigin,
)
    requires
        start.well_formed(),
        start.has_tokens(upgrades_started(events)),
        0 <= j <= i < events.len(),
        events[i].starts_upgrade(),
    ensures
        start.run(events.take(i)).next_token <= u64::MAX,
        !start.run(events.take(j)).is_pending(
            origin,
            start.run(events.take(i)).next_token as u64,
        ),
{
    start.lemma_run_well_formed(events, i);
    start.lemma_run_well_formed(events, j);
    lemma_upgrades_started_monotone(events, j, i);
}

/// A dial request is answered where its upgrade ends.
///
/// Take any run and any dial request in it. If the transport refused the
/// dial, the request is answered in that very iteration, with the
/// transport's error, and nothing is admitted that could answer it again.
/// If the transport started the dial, the iteration answers nothing and
/// admits the upgrade under a fresh token; from then on exactly one of two
/// things holds: one later iteration has resolved the upgrade, or it is
/// still pending when the run ends. Whichever iteration resolves it comes
/// later and answers on the reply slot of this request.
pub proof fn law_dial_answered_by_its_upgrade<TSocket, TReply, TError>(
    start: HandlerState<TReply>,
    events: Seq<TransportEvent<TSocket, TReply, TError>>,
    i: int,
    request: TransportRequest<TReply>,
    dial: Result<(), TError>,
    now: u64,
)
    requires
        start.well_formed(),
        start.has_tokens(upgrades_started(events)),
        0 <= i < events.len(),
        events[i] == (TransportEvent::<TSocket, TReply, TError>::DialRequest { request, dial, now }),
    ensures
        ({
            let actions = start.actions(events);
            let token = start.run(events.take(i)).next_token as u64;
            match dial {
                Err(error) => {
                    &&& actions[i].response() == Some(
                        (
                            request.response_tx(),
                            Err::<(), PeerManagerError<TError>>(
                                PeerManagerError::DialRejected(error),
                            ),
                        ),
                    )
                    &&& actions[i].admitted() is None
                },
                Ok(_) => {
                    &&& actions[i].response() is None
                    &&& actions[i].admitted() == Some((ConnectionOrigin::Outbound, token))
                    &&& times_resolved(actions, ConnectionOrigin::Outbound, token) + in_flight(
                        start.run(events),
                        ConnectionOrigin::Outbound,
                        token,
                    ) == 1
                    &&& forall|j: int|
                        0 <= j < events.len() && (#[trigger] actions[j]).resolved() == Some(
                            (ConnectionOrigin::Outbound, token),
                        ) ==> {
                            &&& i < j
                            &&& actions[j].response() matches Some(response)
                            &&& response.0 == request.response_tx()
                        }
                },
            }
        }),
{
    let actions = start.actions(events);
    let token = start.run(events.take(i)).next_token as u64;
    start.lemma_actions_index(events, i);
    if dial is Ok {
        let outbound = ConnectionOrigin::Outbound;
        start.lemma_run_next(events, i);
        law_every_upgrade_accounted_for(start, events, outbound, token);
        lemma_admitted_counted(actions, i, outbound, token);
        assert forall|j: int|
            0 <= j < events.len() && (#[trigger] actions[j]).resolved() == Some(
                (outbound, token),
            ) implies {
            &&& i < j
            &&& actions[j].response() matches Some(response)
            &&& response.0 == request.response_tx()
        } by {
            start.lemma_actions_index(events, j);
            if j <= i {
                lemma_token_fresh(start, events, j, i, outbound);
            } else {
                lemma_pending_outbound_stable(start, events, i + 1, j, token);
            }
        }
    }
}

/// Whether the reply slot of the dial request at position `i` is its own:
/// no other dial request of the run carries it, and no upgrade that was
/// pending before the run waits to answer on it.
pub open spec fn slot_is_its_own<TSocket, TReply, TError>(
    start: HandlerState<TReply>,
    events: Seq<TransportEvent<TSocket, TReply, TError>>,
    i: int,
    response_tx: TReply,
) -> bool {
    &&& forall|j: int|
        0 <= j < events.len() && j != i && (#[trigger] events[j]) is DialRequest
            ==> events[j]->request.response_tx() != response_tx
    &&& forall|token: u64| #[trigger]
        start.outbound.contains_key(token) ==> start.outbound[token].response_tx != response_tx
}

/// What holds of the reply slot of the dial request at position `i` after
/// the first `k` events: it has been answered on once, or its upgrade is
/// pending, or the request is yet to come.
spec fn slot_accounted_for<TSocket, TReply, TError>(
    start: HandlerState<TReply>,
    events: Seq<TransportEvent<TSocket, TReply, TError>>,
    i: int,
    request: TransportRequest<TReply>,
    dial: Result<(), TError>,
    k: int,
) -> bool {
    let state = start.run(events.take(k));
    let answered = times_answered(start.actions(events.take(k)), request.response_tx());
    let token = start.run(events.take(i)).next_token as u64;
    let waiting = k > i && dial is Ok && state.outbound.contains_key(token);
    &&& forall|other: u64|
        #![trigger state.outbound.contains_key(other)]
        state.outbound.contains_key(other) && state.outbound[other].response_tx
            == request.response_tx() ==> waiting && other == token
    &&& waiting ==> state.outbound[token].response_tx == request.response_tx()
    &&& answered + (if waiting {
        1nat
    } else {
        0nat
    }) == (if k > i {
        1nat
    } else {
        0nat
    })
}

proof fn lemma_slot_accounted_for<TSocket, TReply, TError>(
    start: HandlerState<TReply>,
    events: Seq<TransportEvent<TSocket, TReply, TError>>,
    i: int,
    request: TransportRequest<TReply>,
    dial: Result<(), TError>,
    now: u64,
    k: int,
)
    requires
        start.well_formed(),
        start.has_tokens(upgrades_started(events)),
        0 <= i < events.len(),
        0 <= k <= events.len(),
        events[i] == (TransportEvent::<TSocket, TReply, TError>::DialRequest { request, dial, now }),
        slot_is_its_own(start, events, i, request.response_tx()),
    ensures
        slot_accounted_for(start, events, i, request, dial, k),
    decreases k,
{
    if k > 0 {
        lemma_slot_accounted_for(start, events, i, request, dial, now, k - 1);
        start.lemma_run_well_formed(events, k - 1);
        start.lemma_run_well_formed(events, i);
        if k - 1 > i {
            lemma_upgrades_started_monotone(events, i + 1, k - 1);
            start.lemma_run_next(events, i);
        }
        assert(events.take(k).drop_last() =~= events.take(k - 1));
        assert(start.actions(events.take(k)).drop_last() =~= start.actions(events.take(k - 1)));
    }
}

/// Every reply slot is accounted for.
///
/// Take any run and any dial request in it whose reply slot is its own.
/// If the transport refused the dial, the run answers on the slot once. If
/// the transport started the dial, the run answers on the slot once, or the
/// upgrade is still pending when the run ends and the slot has not been
/// answered on. In no run is a slot answered on twice.
pub proof fn law_reply_slot_accounted_for<TSocket, TReply, TError>(
    start: HandlerState<TReply>,
    events: Seq<TransportEvent<TSocket, TReply, TError>>,
    i: int,
    request: TransportRequest<TReply>,
    dial: Result<(), TError>,
    now: u64,
)
    requires
        start.well_formed(),
        start.has_tokens(upgrades_started(events)),
        0 <= i < events.len(),
        events[i] == (TransportEvent::<TSocket, TReply, TError>::DialRequest { request, dial, now }),
        slot_is_its_own(start, events, i, request.response_tx()),
    ensures
        ({
            let token = start.run(events.take(i)).next_token as u64;
            let answered = times_answered(start.actions(events), request.response_tx());
            match dial {
                Err(_) => answered == 1,
                Ok(_) => answered + in_flight(start.run(events), ConnectionOrigin::Outbound, token)
                    == 1,
            }
        }),
{
    lemma_slot_accounted_for(start, events, i, request, dial, now, events.len() as int);
    assert(events.take(events.len() as int) =~= events);
}

/// Every dial request is answered exactly once, whichever way it fails or
/// succeeds.
///
/// Take any run and any dial request in it whose reply slot is its own, and
/// let the run not end while the upgrade of the dial is pending. Then the
/// run answers on the slot exactly once.
pub proof fn law_reply_exactly_once<TSocket, TReply, TError>(
    start: HandlerState<TReply>,
    events: Seq<TransportEvent<TSocket, TReply, TError>>,
    i: int,
    request: TransportRequest<TReply>,
    dial: Result<(), TError>,
    now: u64,
)
    requires
        start.well_formed(),
        start.has_tokens(upgrades_started(events)),
        0 <= i < events.len(),
        events[i] == (TransportEvent::<TSocket, TReply, TError>::DialRequest { request, dial, now }),
        slot_is_its_own(start, events, i, request.response_tx()),
        dial is Ok ==> !start.run(events).is_pending(
            ConnectionOrigin::Outbound,
            start.run(events.take(i)).next_token as u64,
        ),
    ensures
        times_answered(start.actions(events), request.response_tx()) == 1,
{
    law_reply_slot_accounted_for(start, events, i, request, dial, now);
}

/// A dial is answered with what became of its upgrade.
///
/// Take a dial that the transport started, and the event that reports the
/// end of its upgrade while the upgrade is pending. If the upgrade produced
/// a connection to the peer that was dialed, the connection is announced
/// and the request is answered with success. If it produced a connection to
/// another peer, or failed, the request is answered with the matching error
/// and nothing is announced. The answer always goes to the reply slot of
/// the request, and the time taken runs from the dial to the completion.
pub proof fn law_dial_outcome<TSocket, TReply, TError>(
    start: HandlerState<TReply>,
    events: Seq<TransportEvent<TSocket, TReply, TError>>,
    i: int,
    j: int,
    request: TransportRequest<TReply>,
    dialed_at: u64,
    token: u64,
    upgrade: Result<Connection<TSocket>, TError>,
    now: u64,
)
    requires
        start.well_formed(),
        start.has_tokens(upgrades_started(events)),
        0 <= i < j < events.len(),
        events[i] == (TransportEvent::<TSocket, TReply, TError>::DialRequest {
            request,
            dial: Ok(()),
            now: dialed_at,
        }),
        token == start.run(events.take(i)).next_token,
        events[j] == (TransportEvent::<TSocket, TReply, TError>::OutboundUpgradeDone {
            token,
            upgrade,
            now,
        }),
        start.run(events.take(j)).is_pending(ConnectionOrigin::Outbound, token),
    ensures
        start.actions(events)[j] == match upgrade {
            Ok(connection) => if connection.metadata.remote_peer_id == request.peer_id() {
                TransportAction::OutboundUpgraded {
                    token,
                    connection,
                    addr: request.addr(),
                    response_tx: request.response_tx(),
                    elapsed: elapsed_between(dialed_at, now),
                }
            } else {
                TransportAction::OutboundFailed {
                    token,
                    peer_id: request.peer_id(),
                    addr: request.addr(),
                    response_tx: request.response_tx(),
                    error: PeerManagerError::IdentityMismatch {
                        dialed: connection.metadata.remote_peer_id,
                        expected: request.peer_id(),
                    },
                    elapsed: elapsed_between(dialed_at, now),
                }
            },
            Err(error) => TransportAction::OutboundFailed {
                token,
                peer_id: request.peer_id(),
                addr: request.addr(),
                response_tx: request.response_tx(),
                error: PeerManagerError::UpgradeFailed(error),
                elapsed: elapsed_between(dialed_at, now),
            },
        },
{
    start.lemma_actions_index(events, j);
    start.lemma_run_next(events, i);
    lemma_pending_outbound_stable(start, events, i + 1, j, token);
}

/// A connection to the wrong peer is never used.
///
/// Take a dial that the transport started, and the event that reports,
/// while the upgrade is pending, that it produced a connection to a peer
/// other than the one that was dialed. Then the request is answered with an
/// identity mismatch that names both peers, and nothing is announced to the
/// registry.
pub proof fn law_identity_mismatch_is_an_error<TSocket, TReply, TError>(
    start: HandlerState<TReply>,
    events: Seq<TransportEvent<TSocket, TReply, TError>>,
    i: int,
    j: int,
    request: TransportRequest<TReply>,
    dialed_at: u64,
    token: u64,
    connection: Connection<TSocket>,
    now: u64,
)
    requires
        start.well_formed(),
        start.has_tokens(upgrades_started(events)),
        0 <= i < j < events.len(),
        events[i] == (TransportEvent::<TSocket, TReply, TError>::DialRequest {
            request,
            dial: Ok(()),
            now: dialed_at,
        }),
        token == start.run(events.take(i)).next_token,
        events[j] == (TransportEvent::<TSocket, TReply, TError>::OutboundUpgradeDone {
            token,
            upgrade: Ok(connection),
            now,
        }),
        start.run(events.take(j)).is_pending(ConnectionOrigin::Outbound, token),
        connection.metadata.remote_peer_id != request.peer_id(),
    ensures
        start.actions(events)[j].response() == Some(
            (
                request.response_tx(),
                Err::<(), PeerManagerError<TError>>(
                    PeerManagerError::IdentityMismatch {
                        dialed: connection.metadata.remote_peer_id,
                        expected: request.peer_id(),
                    },
                ),
            ),
        ),
        start.actions(events)[j].notification() is None,
{
    law_dial_outcome(start, events, i, j, request, dialed_at, token, Ok(connection), now);
}

/// Every successful upgrade is announced exactly once.
///
/// Take the event that reports, while the upgrade is pending, that an
/// upgrade produced a connection; for an outbound upgrade, let the
/// connection be to the peer that was dialed. Then that iteration announces
/// this very connection, and no other iteration of the run announces
/// anything for this upgrade.
pub proof fn law_connection_announced_exactly_once<TSocket, TReply, TError>(
    start: HandlerState<TReply>,
    events: Seq<TransportEvent<TSocket, TReply, TError>>,
    j: int,
    origin: ConnectionOrigin,
    token: u64,
    connection: Connection<TSocket>,
    now: u64,
)
    requires
        start.well_formed(),
        start.has_tokens(upgrades_started(events)),
        0 <= j < events.len(),
        events[j] == TransportEvent::<TSocket, TReply, TError>::upgrade_done(
            origin,
            token,
            Ok(connection),
            now,
        ),
        start.run(events.take(j)).is_pending(origin, token),
        origin == ConnectionOrigin::Outbound ==> connection.metadata.remote_peer_id == start.run(
            events.take(j),
        ).outbound[token].peer_id,
    ensures
        start.actions(events)[j].notification() == Some(
            TransportNotification::NewConnection(connection),
        ),
        times_notified(start.actions(events), origin, token) == 1,
{
    start.lemma_actions_index(events, j);
    law_every_upgrade_accounted_for(start, events, origin, token);
    lemma_notified_counted(start.actions(events), j, origin, token);
}

/// Nothing is announced but the connection of an upgrade that just
/// finished: an iteration that announces a connection was given that
/// connection by its event, and resolves the upgrade that produced it.
pub proof fn law_announcements_are_upgrades<TSocket, TReply, TError>(
    start: HandlerState<TReply>,
    events: Seq<TransportEvent<TSocket, TReply, TError>>,
    j: int,
)
    requires
        0 <= j < events.len(),
        start.actions(events)[j].notification() is Some,
    ensures
        events[j].connection() is Some,
        start.actions(events)[j].notification() == Some(
            TransportNotification::NewConnection(events[j].connection()->0),
        ),
        start.actions(events)[j].resolved() is Some,
{
    start.lemma_actions_index(events, j);
}

/// Inbound connections answer nobody.
///
/// An iteration on an item of the listener, or on the end of an inbound
/// upgrade, answers no request. If the upgrade failed, or was not pending,
/// it announces nothing either.
pub proof fn law_inbound_answers_nobody<TSocket, TReply, TError>(
    start: HandlerState<TReply>,
    events: Seq<TransportEvent<TSocket, TReply, TError>>,
    j: int,
)
    requires
        0 <= j < events.len(),
        events[j] is Incoming || events[j] is InboundUpgradeDone,
    ensures
        start.actions(events)[j].response() is None,
        events[j].connection() is None ==> start.actions(events)[j].notification() is None,
        start.actions(events)[j].resolved() is None ==> start.actions(events)[j].notification()
            is None,
{
    start.lemma_actions_index(events, j);
}

/// The order in which upgrades complete does not matter.
///
/// Take two events that report the end of two different upgrades. Whichever
/// is handled first, each is answered with the same action, and the handler
/// ends in the same state.
pub proof fn law_completion_order_independent<TSocket, TReply, TError>(
    state: HandlerState<TReply>,
    origin_a: ConnectionOrigin,
    token_a: u64,
    upgrade_a: Result<Connection<TSocket>, TError>,
    now_a: u64,
    origin_b: ConnectionOrigin,
    token_b: u64,
    upgrade_b: Result<Connection<TSocket>, TError>,
    now_b: u64,
)
    requires
        origin_a != origin_b || token_a != token_b,
    ensures
        ({
            let a = TransportEvent::<TSocket, TReply, TError>::upgrade_done(
                origin_a,
                token_a,
                upgrade_a,
                now_a,
            );
            let b = TransportEvent::<TSocket, TReply, TError>::upgrade_done(
                origin_b,
                token_b,
                upgrade_b,
                now_b,
            );
            &&& state.step(b).0.step(a).1 == state.step(a).1
            &&& state.step(a).0.step(b).1 == state.step(b).1
            &&& state.step(a).0.step(b).0 == state.step(b).0.step(a).0
        }),
{
    let a = TransportEvent::<TSocket, TReply, TError>::upgrade_done(
        origin_a,
        token_a,
        upgrade_a,
        now_a,
    );
    let b = TransportEvent::<TSocket, TReply, TError>::upgrade_done(
        origin_b,
        token_b,
        upgrade_b,
        now_b,
    );
    let ab = state.step(a).0.step(b).0;
    let ba = state.step(b).0.step(a).0;
    assert(ab.outbound =~= ba.outbound);
    assert(ab.inbound =~= ba.inbound);
}

/// With nothing in flight the counters read zero, and only then.
pub proof fn law_quiescent_counters<TReply>(state: HandlerState<TReply>, origin: ConnectionOrigin)
    requires
        state.well_formed(),
    ensures
        state.pending(origin) == 0 <==> forall|token: u64| !state.is_pending(origin, token),
{
    match origin {
        ConnectionOrigin::Inbound => {
            if state.inbound.len() != 0 {
                let token = state.inbound.dom().choose();
                assert(state.is_pending(origin, token));
            }
        },
        ConnectionOrigin::Outbound => {
            if state.outbound.len() != 0 {
                let token = state.outbound.dom().choose();
                assert(state.is_pending(origin, token));
            }
        },
    }
}

} // verus!
