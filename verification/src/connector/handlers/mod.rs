//! What a server makes of a frame by its protocol: who is let in, and what is answered.

pub mod cmpp;
pub mod outcome;
pub mod sgip;
pub mod smgp;
pub mod smpp;
