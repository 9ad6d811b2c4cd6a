//! What the library tells of its work while it works.

use crate::protocol::Protocol;
use vstd::prelude::*;

verus! {

/// Receives the events that are worth counting. Every method does nothing unless it is
/// overridden, and is called where speed matters: it must not block.
pub trait Metrics: Send + Sync {
    /// A connection was opened.
    fn connection_opened(&self) {
    }

    /// A connection was closed.
    fn connection_closed(&self) {
    }

    /// A connection was authenticated and joined its account's connections.
    fn connection_authenticated(&self, account: &str) {
        let _ = account;
    }

    /// A frame came in.
    fn inbound_frame(&self, protocol: Protocol, command_id: u32) {
        let _ = (protocol, command_id);
    }

    /// A frame went out.
    fn outbound_frame(&self) {
    }

    /// A frame could not be read; its connection will be closed.
    fn decode_error(&self, protocol: Protocol) {
        let _ = protocol;
    }
}

/// Counts nothing.
pub struct NoopMetrics;

impl Metrics for NoopMetrics {

}

} // verus!
