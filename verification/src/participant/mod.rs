//! The gossip participant: its messages, its membership table and the state
//! machine that reacts to network events.

pub mod laws;
pub mod message;
pub mod model;
pub mod storage;
pub mod utils;
