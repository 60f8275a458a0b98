//! What a finished upgrade yields, and how it is announced.

use crate::identity::{NetworkAddress, PeerId};
use vstd::prelude::*;

verus! {

/// Which side started a connection.
#[derive(Clone, Copy, Debug, PartialEq, Eq, Structural, Hash)]
pub enum ConnectionOrigin {
    /// The remote peer connected to our listener.
    Inbound,
    /// We dialed the remote peer.
    Outbound,
}

/// What is known of a connection once its upgrade is done.
#[derive(Clone, Debug, PartialEq, Eq)]
pub struct ConnectionMetadata {
    /// The identity that the remote side proved during the upgrade.
    pub remote_peer_id: PeerId,
    /// The address the connection was negotiated at.
    pub addr: NetworkAddress,
    /// Set when the connection is made, never changed.
    pub origin: ConnectionOrigin,
}

/// An authenticated connection: the transport's socket with its metadata.
/// Only a successful upgrade makes one.
#[derive(Debug, PartialEq, Eq)]
pub struct Connection<TSocket> {
    pub socket: TSocket,
    pub metadata: ConnectionMetadata,
}

/// What the handler tells the connection registry.
#[derive(Debug, PartialEq, Eq)]
pub enum TransportNotification<TSocket> {
    /// A connection is established and now belongs to the registry.
    NewConnection(Connection<TSocket>),
}

} // verus!
