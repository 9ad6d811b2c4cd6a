//! The decisions of servers and clients: what a connection, a pool or a transaction does next,
//! given what happened.

pub mod protocol;
pub mod framing;
pub mod command;
pub mod client;
pub mod connection;
pub mod handlers;
pub mod id_generator;
pub mod pool;
pub mod account;
pub mod client_pool;
pub mod server;
pub mod transaction;
pub mod adapter_registry;
pub mod state;
