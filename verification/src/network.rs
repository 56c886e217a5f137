//! Socket addresses and connection handles, held as plain numbers.

use crate::text::{decimal_string, decimal_text, hex_string, hex_text};
use vstd::prelude::*;
use vstd::string::*;

verus! {

/// The host part of a socket address.
#[derive(Clone, Copy, Debug, PartialEq, Eq, Hash, Structural)]
pub enum Host {
    /// An IPv4 address, by its four octets.
    V4 { a: u8, b: u8, c: u8, d: u8 },
    /// An IPv6 address, by its eight segments, with the flow information and
    /// the scope that a socket address carries with it.
    V6 {
        h0: u16,
        h1: u16,
        h2: u16,
        h3: u16,
        h4: u16,
        h5: u16,
        h6: u16,
        h7: u16,
        flowinfo: u32,
        scope_id: u32,
    },
}

/// A socket address: a host and a port. Two addresses are the same exactly
/// when all their numbers are.
#[derive(Clone, Copy, Debug, PartialEq, Eq, Hash, Structural)]
pub struct SocketAddr {
    pub host: Host,
    pub port: u16,
}

/// A handle on one connection: the number that the transport gave the
/// connection, and the address of the socket at its other end. A handle names
/// a connection, not a peer: for a connection that the other side opened, the
/// address is that side's ephemeral socket, not the address it listens on.
#[derive(Clone, Copy, Debug, PartialEq, Eq, Hash, Structural)]
pub struct Endpoint {
    pub resource_id: u64,
    pub addr: SocketAddr,
}

/// A host as text: dotted decimal for IPv4; for IPv6 the eight segments in
/// lower-case hexadecimal, none of them abbreviated, followed by `%` and the
/// scope where the scope is not zero.
pub open spec fn host_text(host: Host) -> Seq<char> {
    match host {
        Host::V4 { a, b, c, d } => decimal_text(a as nat) + "."@ + decimal_text(b as nat) + "."@
            + decimal_text(c as nat) + "."@ + decimal_text(d as nat),
        Host::V6 { h0, h1, h2, h3, h4, h5, h6, h7, flowinfo, scope_id } => {
            let segments = hex_text(h0 as nat) + ":"@ + hex_text(h1 as nat) + ":"@ + hex_text(
                h2 as nat,
            ) + ":"@ + hex_text(h3 as nat) + ":"@ + hex_text(h4 as nat) + ":"@ + hex_text(
                h5 as nat,
            ) + ":"@ + hex_text(h6 as nat) + ":"@ + hex_text(h7 as nat);
            if scope_id == 0 {
                segments
            } else {
                segments + "%"@ + decimal_text(scope_id as nat)
            }
        },
    }
}

/// A socket address as text: `host:port`, an IPv6 host in square brackets.
pub open spec fn addr_text(addr: SocketAddr) -> Seq<char> {
    match addr.host {
        Host::V4 { .. } => host_text(addr.host) + ":"@ + decimal_text(addr.port as nat),
        Host::V6 { .. } => "["@ + host_text(addr.host) + "]:"@ + decimal_text(addr.port as nat),
    }
}

impl Host {
    /// The host as text.
    pub fn to_text(&self) -> (s: String)
        ensures
            s@ == host_text(*self),
    {
        match *self {
            Host::V4 { a, b, c, d } => {
                let mut s = decimal_string(a as u64);
                s.append(".");
                s.append(decimal_string(b as u64).as_str());
                s.append(".");
                s.append(decimal_string(c as u64).as_str());
                s.append(".");
                s.append(decimal_string(d as u64).as_str());
                s
            },
            Host::V6 { h0, h1, h2, h3, h4, h5, h6, h7, flowinfo, scope_id } => {
                let mut s = hex_string(h0 as u64);
                s.append(":");
                s.append(hex_string(h1 as u64).as_str());
                s.append(":");
                s.append(hex_string(h2 as u64).as_str());
                s.append(":");
                s.append(hex_string(h3 as u64).as_str());
                s.append(":");
                s.append(hex_string(h4 as u64).as_str());
                s.append(":");
                s.append(hex_string(h5 as u64).as_str());
                s.append(":");
                s.append(hex_string(h6 as u64).as_str());
                s.append(":");
                s.append(hex_string(h7 as u64).as_str());
                if scope_id != 0 {
                    s.append("%");
                    s.append(decimal_string(scope_id as u64).as_str());
                }
                s
            },
        }
    }
}

impl SocketAddr {
    /// The IPv4 address `a.b.c.d:port`.
    pub fn v4(a: u8, b: u8, c: u8, d: u8, port: u16) -> (addr: SocketAddr)
        ensures
            addr == (SocketAddr { host: Host::V4 { a, b, c, d }, port }),
    {
        SocketAddr { host: Host::V4 { a, b, c, d }, port }
    }

    /// The address as text.
    pub fn to_text(&self) -> (s: String)
        ensures
            s@ == addr_text(*self),
    {
        match self.host {
            Host::V4 { .. } => {
                let mut s = self.host.to_text();
                s.append(":");
                s.append(decimal_string(self.port as u64).as_str());
                s
            },
            Host::V6 { .. } => {
                let mut s = String::from_str("[");
                s.append(self.host.to_text().as_str());
                s.append("]:");
                s.append(decimal_string(self.port as u64).as_str());
                s
            },
        }
    }
}

impl Endpoint {
    /// The handle with the given connection number and remote address.
    pub fn new(resource_id: u64, addr: SocketAddr) -> (e: Endpoint)
        ensures
            e == (Endpoint { resource_id, addr }),
    {
        Endpoint { resource_id, addr }
    }

    /// The number that the transport gave the connection.
    pub fn resource_id(&self) -> (id: u64)
        ensures
            id == self.resource_id,
    {
        self.resource_id
    }

    /// The address of the socket at the other end of the connection.
    pub fn addr(&self) -> (a: SocketAddr)
        ensures
            a == self.addr,
    {
        self.addr
    }
}

} // verus!
