//! Plain-value model of network addresses.
//!
//! The library never touches live sockets, so an address is data only: an IP
//! address is its numeric components, and a socket address pairs an IP
//! address with a port.

use vstd::prelude::*;

verus! {

/// An IP address, version 4 or 6, as plain numeric components.
///
/// A version-4 address holds its four octets; a version-6 address holds its
/// eight 16-bit segments.
#[derive(Clone, Copy, PartialEq, Eq, Structural, Debug)]
pub enum IpAddress {
    V4 { a: u8, b: u8, c: u8, d: u8 },
    V6 { s0: u16, s1: u16, s2: u16, s3: u16, s4: u16, s5: u16, s6: u16, s7: u16 },
}

impl IpAddress {
    /// The version-4 address `a.b.c.d`.
    pub fn v4(a: u8, b: u8, c: u8, d: u8) -> (r: IpAddress)
        ensures
            r == (IpAddress::V4 { a, b, c, d }),
    {
        IpAddress::V4 { a, b, c, d }
    }

    /// The version-6 address with the given eight segments.
    pub fn v6(s0: u16, s1: u16, s2: u16, s3: u16, s4: u16, s5: u16, s6: u16, s7: u16) -> (r:
        IpAddress)
        ensures
            r == (IpAddress::V6 { s0, s1, s2, s3, s4, s5, s6, s7 }),
    {
        IpAddress::V6 { s0, s1, s2, s3, s4, s5, s6, s7 }
    }
}

/// A socket address: an IP address together with a port.
#[derive(Clone, Copy, PartialEq, Eq, Structural, Debug)]
pub struct SocketAddress {
    pub ip: IpAddress,
    pub port: u16,
}

impl SocketAddress {
    /// The socket address `ip:port`.
    pub fn new(ip: IpAddress, port: u16) -> (r: SocketAddress)
        ensures
            r == (SocketAddress { ip, port }),
    {
        SocketAddress { ip, port }
    }
}

} // verus!
