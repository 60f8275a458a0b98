//! The records kept for upgrades that are in flight.

use crate::identity::{NetworkAddress, PeerId};
use vstd::prelude::*;

verus! {

/// An outbound upgrade in flight: a dial that the transport has started.
///
/// The record holds the reply slot of the request until the upgrade
/// completes; the slot leaves the handler in the answer to that request and
/// in no other way.
#[derive(Debug, PartialEq, Eq)]
pub struct PendingOutbound<TReply> {
    /// The address that was dialed.
    pub addr: NetworkAddress,
    /// The peer that the requester expects at that address.
    pub peer_id: PeerId,
    /// The clock reading when the upgrade was admitted.
    pub start_time: u64,
    /// Where the outcome of the dial is owed.
    pub response_tx: TReply,
}

/// An inbound upgrade in flight: a connection that the listener accepted.
/// Nobody asked for it, so there is nobody to answer.
#[derive(Debug, PartialEq, Eq)]
pub struct PendingInbound {
    /// The address the connection came from.
    pub addr: NetworkAddress,
    /// The clock reading when the upgrade was admitted.
    pub start_time: u64,
}

/// The time an upgrade took, on a clock that does not run backwards: the
/// difference of the two readings, and zero should the later reading be the
/// smaller one.
pub open spec fn elapsed_between(start_time: u64, now: u64) -> u64 {
    if now >= start_time {
        (now - start_time) as u64
    } else {
        0
    }
}

/// The time from the reading `start_time` to the reading `now`.
pub fn elapsed_since(start_time: u64, now: u64) -> (elapsed: u64)
    ensures
        elapsed == elapsed_between(start_time, now),
{
    if now >= start_time {
        now - start_time
    } else {
        0
    }
}

} // verus!
