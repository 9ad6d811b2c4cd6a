//! How far a session has come.

use vstd::prelude::*;

verus! {

/// The state of a connection's session.
#[derive(Debug, Clone, Copy, PartialEq, Eq, Structural)]
pub enum SessionState {
    /// Closed, or not yet set up.
    Disconnected,
    /// Set up, and ready to be used.
    Connected,
    /// Authenticated.
    Logined,
}

} // verus!
