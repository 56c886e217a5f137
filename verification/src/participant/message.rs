//! The four messages that participants exchange.

use crate::network::SocketAddr;
use vstd::prelude::*;

verus! {

/// A message between two participants.
#[derive(Debug, PartialEq, Eq)]
pub enum Message {
    /// "My listening address is this": sent by the side that dialed, first
    /// thing on a new connection.
    PublicAddress(SocketAddr),
    /// "Send me the addresses you know": the request for a roster.
    PushParticipantsList,
    /// A roster: the addresses that the sender knows, its own first.
    PullParticipantsList(Vec<SocketAddr>),
    /// A line of chat.
    Text(String),
}

/// A message as a mathematical value.
pub enum MessageView {
    PublicAddress(SocketAddr),
    PushParticipantsList,
    PullParticipantsList(Seq<SocketAddr>),
    Text(Seq<char>),
}

impl View for Message {
    type V = MessageView;

    open spec fn view(&self) -> MessageView {
        match self {
            Message::PublicAddress(addr) => MessageView::PublicAddress(*addr),
            Message::PushParticipantsList => MessageView::PushParticipantsList,
            Message::PullParticipantsList(addrs) => MessageView::PullParticipantsList(addrs@),
            Message::Text(text) => MessageView::Text(text@),
        }
    }
}

} // verus!
