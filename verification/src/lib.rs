//! Short message service protocols: long message splitting and merging, the SMPP codec, a
//! protocol neutral message model, and the decisions of a connector's connections, pools and
//! transactions.
//!
//! Sockets, tasks and timers live in the application around this library; everything here
//! works on plain values.

pub mod clock;
pub mod connector;
pub mod cstring;
pub mod encoded_pdu;
pub mod endpoint;
pub mod error;
pub mod frame;
pub mod id_generator;
pub mod longmsg;
pub mod metrics;
pub mod model;
pub mod protocol;
pub mod pstring;
pub mod session;
pub mod smpp;
pub mod text;
pub mod wire;
