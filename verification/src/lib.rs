//! Connection establishment for one node of a peer-to-peer network.
//!
//! The [`TransportHandler`] decides what happens to every dial request, every
//! incoming connection and every finished upgrade. It owns the bookkeeping of
//! the upgrades that are in flight; the sockets, channels and clocks stay with
//! the caller, which feeds the handler one [`TransportEvent`] at a time and
//! carries out the [`TransportAction`] it gets back.

pub mod action;
pub mod connection;
pub mod error;
pub mod event;
pub mod handler;
pub mod identity;
pub mod laws;
pub mod pending;
pub mod pool;
pub mod state;
pub mod trace;

pub use action::{TransportAction, TransportEffect, UpgradeTime};
pub use connection::{Connection, ConnectionMetadata, ConnectionOrigin, TransportNotification};
pub use error::{DeliveryFailure, PeerManagerError};
pub use event::{lemma_upgrades_started_bound, upgrades_started, TransportEvent, TransportRequest};
pub use handler::TransportHandler;
pub use identity::{NetworkAddress, PeerId};
pub use pending::{elapsed_since, PendingInbound, PendingOutbound};
pub use pool::UpgradePool;
pub use state::HandlerState;
