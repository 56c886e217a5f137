//! A peer-to-peer gossip node, as a library that decides and leaves the
//! doing to its caller.
//!
//! A node listens on one address, dials at most one peer at startup and
//! learns of the others from the rosters that peers send on request. Every
//! few seconds it sends a line of chat to every peer it knows.
//!
//! - `network`: socket addresses and connection handles, as plain numbers.
//! - `participant`: the messages, the membership table, and the participant,
//!   which turns each network event into the next table and a list of
//!   actions; `participant::laws` states what holds whatever the events are.
//! - `cli`: the command line.
//! - `printer`: the lines of the event log.
//! - `text`: numbers as text, and text as numbers.

pub mod cli;
pub mod network;
pub mod participant;
pub mod printer;
pub mod text;
