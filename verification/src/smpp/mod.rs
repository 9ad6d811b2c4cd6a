//! SMPP: its PDUs, their encoding, and the way from and to the protocol neutral model.

pub mod adapter;
pub mod codec;
pub mod datatypes;
pub mod grammar;
pub mod message;
pub mod pdu;
pub mod registry;
pub mod submit_decode;
pub mod version;
