//! A socket address as plain data.
//!
//! The verified core never touches a real socket, so an address is just the
//! pair of values the protocol routes by: an IPv4 host and a port. The
//! application converts between this and its real socket addresses.

use vstd::prelude::*;

verus! {

/// An IPv4 endpoint: host (as its 32-bit value) and port.
#[derive(Clone, Copy, PartialEq, Eq, Structural, Debug, Hash)]
pub struct Addr {
    pub ip: u32,
    pub port: u16,
}

impl Addr {
    pub fn new(ip: u32, port: u16) -> (a: Addr)
        ensures
            a == (Addr { ip, port }),
    {
        Addr { ip, port }
    }
}

} // verus!
