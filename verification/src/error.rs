//! Why a dial did not end in a connection.

use crate::identity::PeerId;
use vstd::prelude::*;

verus! {

/// The error a dial request is answered with. The kinds are kept apart so
/// that the requester can retry, back off, or distrust the peer.
#[derive(Debug, PartialEq, Eq)]
pub enum PeerManagerError<TError> {
    /// The transport refused to start the dial. Nothing was admitted.
    DialRejected(TError),
    /// The upgrade was started and failed at the transport level.
    UpgradeFailed(TError),
    /// The upgrade succeeded, but the peer that answered is not the peer
    /// that was dialed. The connection is not used.
    IdentityMismatch { dialed: PeerId, expected: PeerId },
}

/// A failure to deliver what an action asked to send.
#[derive(Clone, Copy, Debug, PartialEq, Eq, Structural)]
pub enum DeliveryFailure {
    /// The registry no longer listens: a connection could not be announced.
    NotificationDeliveryFailure,
    /// The requester no longer waits: an answer could not be given.
    ReplyAbandoned,
}

impl DeliveryFailure {
    /// Whether the loop has to end after the failure. Without the registry
    /// there is nothing left to do. An answer that nobody waits for is no
    /// loss: the books were closed before the answer was sent.
    pub open spec fn fatal(self) -> bool {
        self is NotificationDeliveryFailure
    }

    /// Whether the loop has to end after the failure.
    #[verifier::when_used_as_spec(fatal)]
    pub fn is_fatal(self) -> (fatal: bool)
        ensures
            fatal == self.fatal(),
    {
        match self {
            DeliveryFailure::NotificationDeliveryFailure => true,
            DeliveryFailure::ReplyAbandoned => false,
        }
    }
}

} // verus!
