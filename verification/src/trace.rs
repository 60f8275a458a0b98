//! Runs of the establishment loop: what holds of the states it passes
//! through and of the actions it asks for, one event after another.

use crate::action::TransportAction;
use crate::connection::ConnectionOrigin;
use crate::event::{upgrades_started, TransportEvent};
use crate::state::HandlerState;
use vstd::prelude::*;

verus! {

/// How often the actions admit an upgrade of the origin under the token.
pub open spec fn times_admitted<TSocket, TReply, TError>(
    actions: Seq<TransportAction<TSocket, TReply, TError>>,
    origin: ConnectionOrigin,
    token: u64,
) -> nat
    decreases actions.len(),
{
    if actions.len() == 0 {
        0
    } else {
        times_admitted(actions.drop_last(), origin, token) + if actions.last().admitted() == Some(
            (origin, token),
        ) {
            1nat
        } else {
            0nat
        }
    }
}

/// How often the actions take the upgrade of the origin under the token out
/// of its pool.
pub open spec fn times_resolved<TSocket, TReply, TError>(
    actions: Seq<TransportAction<TSocket, TReply, TError>>,
    origin: ConnectionOrigin,
    token: u64,
) -> nat
    decreases actions.len(),
{
    if actions.len() == 0 {
        0
    } else {
        times_resolved(actions.drop_last(), origin, token) + if actions.last().resolved() == Some(
            (origin, token),
        ) {
            1nat
        } else {
            0nat
        }
    }
}

/// How often the actions announce the connection of the upgrade of the
/// origin under the token.
pub open spec fn times_notified<TSocket, TReply, TError>(
    actions: Seq<TransportAction<TSocket, TReply, TError>>,
    origin: ConnectionOrigin,
    token: u64,
) -> nat
    decreases actions.len(),
{
    if actions.len() == 0 {
        0
    } else {
        times_notified(actions.drop_last(), origin, token) + if actions.last().resolved() == Some(
            (origin, token),
        ) && actions.last().notification() is Some {
            1nat
        } else {
            0nat
        }
    }
}

/// How often the actions answer a request on the reply slot.
pub open spec fn times_answered<TSocket, TReply, TError>(
    actions: Seq<TransportAction<TSocket, TReply, TError>>,
    response_tx: TReply,
) -> nat
    decreases actions.len(),
{
    if actions.len() == 0 {
        0
    } else {
        times_answered(actions.drop_last(), response_tx) + if actions.last().answers_on(
            response_tx,
        ) {
            1nat
        } else {
            0nat
        }
    }
}

/// How many upgrades of the origin the actions admit.
pub open spec fn admitted_total<TSocket, TReply, TError>(
    actions: Seq<TransportAction<TSocket, TReply, TError>>,
    origin: ConnectionOrigin,
) -> nat
    decreases actions.len(),
{
    if actions.len() == 0 {
        0
    } else {
        admitted_total(actions.drop_last(), origin) + if actions.last().admitted() matches Some(
            (o, _),
        ) && o == origin {
            1nat
        } else {
            0nat
        }
    }
}

/// How many upgrades of the origin the actions take out of their pool.
pub open spec fn resolved_total<TSocket, TReply, TError>(
    actions: Seq<TransportAction<TSocket, TReply, TError>>,
    origin: ConnectionOrigin,
) -> nat
    decreases actions.len(),
{
    if actions.len() == 0 {
        0
    } else {
        resolved_total(actions.drop_last(), origin) + if actions.last().resolved() matches Some(
            (o, _),
        ) && o == origin {
            1nat
        } else {
            0nat
        }
    }
}

impl<TReply> HandlerState<TReply> {
    /// One iteration keeps the state well formed, and hands out a token
    /// exactly if the event starts an upgrade.
    pub proof fn lemma_step_well_formed<TSocket, TError>(
        self,
        event: TransportEvent<TSocket, TReply, TError>,
    )
        requires
            self.well_formed(),
            event.starts_upgrade() ==> self.has_tokens(1),
        ensures
            self.step(event).0.well_formed(),
            self.step(event).0.next_token == self.next_token + if event.starts_upgrade() {
                1nat
            } else {
                0nat
            },
    {
    }

    /// The state after one more event is one iteration away.
    pub proof fn lemma_run_next<TSocket, TError>(
        self,
        events: Seq<TransportEvent<TSocket, TReply, TError>>,
        i: int,
    )
        requires
            0 <= i < events.len(),
        ensures
            self.run(events.take(i + 1)) == self.run(events.take(i)).step(events[i]).0,
            upgrades_started(events.take(i + 1)) == upgrades_started(events.take(i))
                + if events[i].starts_upgrade() {
                1nat
            } else {
                0nat
            },
    {
        assert(events.take(i + 1).drop_last() =~= events.take(i));
    }

    /// There is one action for each event: what the state before the event
    /// asks for on it.
    pub proof fn lemma_actions_index<TSocket, TError>(
        self,
        events: Seq<TransportEvent<TSocket, TReply, TError>>,
        i: int,
    )
        requires
            0 <= i < events.len(),
        ensures
            self.actions(events).len() == events.len(),
            self.actions(events)[i] == self.run(events.take(i)).step(events[i]).1,
        decreases events.len(),
    {
        self.lemma_actions_len(events);
        if i < events.len() - 1 {
            self.lemma_actions_index(events.drop_last(), i);
            assert(events.drop_last().take(i) =~= events.take(i));
        }
    }

    /// There are as many actions as events.
    pub proof fn lemma_actions_len<TSocket, TError>(
        self,
        events: Seq<TransportEvent<TSocket, TReply, TError>>,
    )
        ensures
            self.actions(events).len() == events.len(),
        decreases events.len(),
    {
        if events.len() > 0 {
            self.lemma_actions_len(events.drop_last());
        }
    }

    /// Every state that a run passes through is well formed, and has handed
    /// out one token for each upgrade that was started before it.
    pub proof fn lemma_run_well_formed<TSocket, TError>(
        self,
        events: Seq<TransportEvent<TSocket, TReply, TError>>,
        i: int,
    )
        requires
            self.well_formed(),
            self.has_tokens(upgrades_started(events)),
            0 <= i <= events.len(),
        ensures
            self.run(events.take(i)).well_formed(),
            self.run(events.take(i)).next_token == self.next_token + upgrades_started(
                events.take(i),
            ),
            upgrades_started(events.take(i)) <= upgrades_started(events),
            i < events.len() && events[i].starts_upgrade() ==> upgrades_started(events.take(i))
                < upgrades_started(events),
        decreases i,
    {
        if i > 0 {
            self.lemma_run_well_formed(events, i - 1);
            self.lemma_run_next(events, i - 1);
            self.run(events.take(i - 1)).lemma_step_well_formed(events[i - 1]);
        }
        if i < events.len() {
            self.lemma_run_next(events, i);
            lemma_upgrades_started_monotone(events, i + 1, events.len() as int);
        }
        assert(events.take(events.len() as int) =~= events);
    }
}

/// A longer prefix of the events starts at least as many upgrades.
pub proof fn lemma_upgrades_started_monotone<TSocket, TReply, TError>(
    events: Seq<TransportEvent<TSocket, TReply, TError>>,
    i: int,
    j: int,
)
    requires
        0 <= i <= j <= events.len(),
    ensures
        upgrades_started(events.take(i)) <= upgrades_started(events.take(j)),
    decreases j - i,
{
    if i < j {
        lemma_upgrades_started_monotone(events, i, j - 1);
        assert(events.take(j).drop_last() =~= events.take(j - 1));
    }
}

} // verus!
