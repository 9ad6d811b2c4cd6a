//! Numbers for messages and for requests.

use vstd::prelude::*;

verus! {

/// A source of message ids and of sequence numbers.
pub trait IdGenerator: Send + Sync + 'static {
    fn next_msg_id(&mut self) -> u64;

    fn next_sequence_id(&mut self) -> u32;
}

} // verus!
