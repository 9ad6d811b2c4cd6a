//! The PDUs of SMPP and what they are made of.

pub mod address;
pub mod bind;
pub mod cancel_sm;
pub mod command_id;
pub mod command_status;
pub mod data_coding;
pub mod link;
pub mod query_sm;
pub mod short_message;
pub mod tags;
pub mod tlv;
