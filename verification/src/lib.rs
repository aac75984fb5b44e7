//! Building blocks of a peer-to-peer artifact distribution node: the error
//! vocabulary of its registry interface and the event and message types of
//! its network layer.

pub mod docker;
pub mod network;
