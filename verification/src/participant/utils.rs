//! Addresses in log lines.

use crate::network::{addr_text, Endpoint, SocketAddr};
use crate::text::{decimal_string, decimal_text};
use vstd::prelude::*;
use vstd::string::*;

verus! {

/// Anything that stands for one socket address.
pub trait ToSocketAddr {
    /// The address that the value stands for.
    spec fn socket_addr(&self) -> SocketAddr;

    /// The address that the value stands for.
    fn get_addr(&self) -> (a: SocketAddr)
        ensures
            a == self.socket_addr(),
    ;
}

impl ToSocketAddr for Endpoint {
    open spec fn socket_addr(&self) -> SocketAddr {
        self.addr
    }

    fn get_addr(&self) -> (a: SocketAddr) {
        self.addr
    }
}

impl ToSocketAddr for SocketAddr {
    open spec fn socket_addr(&self) -> SocketAddr {
        *self
    }

    fn get_addr(&self) -> (a: SocketAddr) {
        *self
    }
}

/// An address in double quotes.
pub open spec fn quoted_text(addr: SocketAddr) -> Seq<char> {
    "\""@ + addr_text(addr) + "\""@
}

/// One or more addresses, each in double quotes, separated by a comma and a
/// space.
pub open spec fn joined_text(addrs: Seq<SocketAddr>) -> Seq<char>
    decreases addrs.len(),
{
    if addrs.len() <= 1 {
        quoted_text(addrs[0])
    } else {
        joined_text(addrs.drop_last()) + ", "@ + quoted_text(addrs.last())
    }
}

/// A list of addresses as it stands in a log line: `[no one]` for none,
/// otherwise the quoted addresses in square brackets.
pub open spec fn list_text(addrs: Seq<SocketAddr>) -> Seq<char> {
    if addrs.len() == 0 {
        "[no one]"@
    } else {
        "["@ + joined_text(addrs) + "]"@
    }
}

/// The addresses that the items stand for.
pub open spec fn addrs_of<T: ToSocketAddr>(items: Seq<T>) -> Seq<SocketAddr> {
    items.map_values(|x: T| x.socket_addr())
}

/// The line of chat that carries the number `n`.
pub open spec fn chat_text(n: nat) -> Seq<char> {
    "random message "@ + decimal_text(n)
}

/// The log line for a chat message that arrived from `from`.
pub open spec fn received_line(text: Seq<char>, from: SocketAddr) -> Seq<char> {
    "Received message ["@ + text + "] from "@ + quoted_text(from)
}

/// The log line for a chat message sent to the peers shown as `to`.
pub open spec fn sending_line(text: Seq<char>, to: Seq<SocketAddr>) -> Seq<char> {
    "Sending message ["@ + text + "] to "@ + list_text(to)
}

/// The log line for the peers that a roster made this node dial.
pub open spec fn discovered_line(addrs: Seq<SocketAddr>) -> Seq<char> {
    "Connected to new participants: "@ + list_text(addrs)
}

/// The log line for a node's own address.
pub open spec fn own_address_line(addr: SocketAddr) -> Seq<char> {
    "My address is "@ + quoted_text(addr)
}

/// The log line for a dial that could not be started or did not get through.
pub open spec fn unreachable_line(target: Seq<char>) -> Seq<char> {
    "Failed to connect to "@ + target
}

/// The log line for a connection dropped over a message that does not decode.
pub open spec fn undecodable_line(from: SocketAddr) -> Seq<char> {
    "Dropped "@ + quoted_text(from) + ": message does not decode"@
}

fn quoted(addr: SocketAddr) -> (s: String)
    ensures
        s@ == quoted_text(addr),
{
    let mut s = String::from_str("\"");
    s.append(addr.to_text().as_str());
    s.append("\"");
    s
}

/// The list of the items' addresses as it stands in a log line.
pub fn format_list_of_addrs<T: ToSocketAddr>(items: &[T]) -> (s: String)
    ensures
        s@ == list_text(addrs_of(items@)),
{
    if items.len() == 0 {
        String::from_str("[no one]")
    } else {
        let mut joined = quoted(items[0].get_addr());
        let mut i: usize = 1;
        proof {
            assert(addrs_of(items@.take(1))[0] == items@[0].socket_addr());
        }
        while i < items.len()
            invariant
                1 <= i <= items.len(),
                joined@ == joined_text(addrs_of(items@.take(i as int))),
            decreases items.len() - i,
        {
            joined.append(", ");
            joined.append(quoted(items[i].get_addr()).as_str());
            proof {
                let before = addrs_of(items@.take(i as int));
                let after = addrs_of(items@.take(i + 1));
                assert(after.drop_last() == before);
                assert(after.last() == items@[i as int].socket_addr());
            }
            i += 1;
        }
        proof {
            assert(items@.take(i as int) == items@);
        }
        let mut s = String::from_str("[");
        s.append(joined.as_str());
        s.append("]");
        s
    }
}

/// The line of chat that carries the number `n`.
pub fn chat_message(n: u32) -> (s: String)
    ensures
        s@ == chat_text(n as nat),
{
    let mut s = String::from_str("random message ");
    s.append(decimal_string(n as u64).as_str());
    s
}

/// The log line for a chat message that arrived from `from`.
pub fn received_message(text: &str, from: SocketAddr) -> (s: String)
    ensures
        s@ == received_line(text@, from),
{
    let mut s = String::from_str("Received message [");
    s.append(text);
    s.append("] from ");
    s.append(quoted(from).as_str());
    s
}

/// The log line for a chat message sent to the peers shown as `to`.
pub fn sending_message(text: &str, to: &[SocketAddr]) -> (s: String)
    ensures
        s@ == sending_line(text@, to@),
{
    let mut s = String::from_str("Sending message [");
    s.append(text);
    s.append("] to ");
    s.append(format_list_of_addrs(to).as_str());
    proof {
        assert(addrs_of(to@) == to@);
    }
    s
}

/// The log line for the peers that a roster made this node dial.
pub fn discovered_message(addrs: &[SocketAddr]) -> (s: String)
    ensures
        s@ == discovered_line(addrs@),
{
    let mut s = String::from_str("Connected to new participants: ");
    s.append(format_list_of_addrs(addrs).as_str());
    proof {
        assert(addrs_of(addrs@) == addrs@);
    }
    s
}

/// The log line for a node's own address.
pub fn own_address_message(addr: SocketAddr) -> (s: String)
    ensures
        s@ == own_address_line(addr),
{
    let mut s = String::from_str("My address is ");
    s.append(quoted(addr).as_str());
    s
}

/// The log line for a dial that could not be started or did not get through.
pub fn unreachable_message(target: &str) -> (s: String)
    ensures
        s@ == unreachable_line(target@),
{
    let mut s = String::from_str("Failed to connect to ");
    s.append(target);
    s
}

/// The log line for a connection dropped over a message that does not decode.
pub fn undecodable_message(from: SocketAddr) -> (s: String)
    ensures
        s@ == undecodable_line(from),
{
    let mut s = String::from_str("Dropped ");
    s.append(quoted(from).as_str());
    s.append(": message does not decode");
    s
}

} // verus!
