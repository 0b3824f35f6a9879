//! IPv4 addresses.
use vstd::prelude::*;

verus! {

/// An IPv4 address.
#[derive(Clone, Copy, Debug, PartialEq, Eq, Hash)]
pub struct Ipv4Addr {
    octets: [u8; 4],
}

impl Ipv4Addr {
    /// The four bytes of the address.
    pub closed spec fn bytes(self) -> Seq<u8> {
        self.octets@
    }

    /// The address made of the given bytes, of which there are four.
    pub closed spec fn with_bytes(bytes: Seq<u8>) -> Self {
        choose|ip: Self| ip.bytes() == bytes
    }

    /// The address `a.b.c.d`.
    pub fn new(a: u8, b: u8, c: u8, d: u8) -> (r: Self)
        ensures
            r.bytes() == seq![a, b, c, d],
    {
        let octets: [u8; 4] = [a, b, c, d];
        assert(octets@ =~= seq![a, b, c, d]);
        Ipv4Addr { octets }
    }

    /// The address made of these four bytes.
    pub fn from_octets(octets: [u8; 4]) -> (r: Self)
        ensures
            r.bytes() == octets@,
    {
        Ipv4Addr { octets }
    }

    /// The four bytes of the address.
    pub fn octets(&self) -> (r: [u8; 4])
        ensures
            r@ == self.bytes(),
    {
        self.octets
    }

    /// Any four bytes make an address.
    pub proof fn lemma_with_bytes(bytes: Seq<u8>)
        requires
            bytes.len() == 4,
        ensures
            Self::with_bytes(bytes).bytes() == bytes,
    {
        let octets: [u8; 4] = [bytes[0], bytes[1], bytes[2], bytes[3]];
        assert(octets@ =~= bytes);
        assert(Ipv4Addr { octets }.bytes() == bytes);
    }

    /// An address has four bytes and is made of them.
    pub proof fn lemma_bytes(self)
        ensures
            self.bytes().len() == 4,
            Self::with_bytes(self.bytes()) == self,
    {
        let other = Self::with_bytes(self.bytes());
        assert(other.bytes() == self.bytes());
        assert(self.octets =~= other.octets);
    }
}

/// A port at an IPv4 address.
#[derive(Clone, Copy, Debug, PartialEq, Eq, Hash)]
pub struct SocketAddrV4 {
    /// The address.
    pub ip: Ipv4Addr,
    /// The port.
    pub port: u16,
}

impl SocketAddrV4 {
    /// The given port at the given address.
    pub fn new(ip: Ipv4Addr, port: u16) -> (r: Self)
        ensures
            r.ip == ip,
            r.port == port,
    {
        SocketAddrV4 { ip, port }
    }
}

} // verus!
