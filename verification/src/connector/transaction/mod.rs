//! Submitted messages on their way: from the request over its response to the report.

pub mod cmpp;
pub mod drive;
pub mod info;
pub mod manager;
pub mod sgip;
pub mod smgp;
pub mod smpp;
pub mod table;
