//! Name records: at which address, on which ports and with which capabilities a node is reached.
use crate::addr::{Ipv4Addr, SocketAddrV4};
use crate::codec;
use crate::encoding;
use crate::encoding::{Decodable, Encodable};
use crate::error::DecodeError;
use crate::port::{Port, PortTag};
use crate::rlp;
use std::collections::HashSet;
use vstd::prelude::*;

verus! {

/// The largest number of ports in a record.
pub const MAX_PORTS: usize = 8;

/// A name record as it is written: a list of address, ports, capabilities and sequence number.
#[derive(Debug, PartialEq, Eq)]
pub struct WireNameRecord {
    /// The address of the node.
    pub ip: Ipv4Addr,
    /// Its ports.
    pub ports: Vec<Port>,
    /// Its capabilities, one bit each.
    pub capabilities: u64,
    /// The sequence number of the record.
    pub seq: u64,
}

/// What a [`WireNameRecord`] holds.
#[verifier::ext_equal]
pub struct WireNameRecordView {
    /// The address of the node.
    pub ip: Ipv4Addr,
    /// Its ports.
    pub ports: Seq<Port>,
    /// Its capabilities, one bit each.
    pub capabilities: u64,
    /// The sequence number of the record.
    pub seq: u64,
}

impl View for WireNameRecord {
    type V = WireNameRecordView;

    open spec fn view(&self) -> WireNameRecordView {
        WireNameRecordView {
            ip: self.ip,
            ports: self.ports@,
            capabilities: self.capabilities,
            seq: self.seq,
        }
    }
}

impl Clone for WireNameRecord {
    fn clone(&self) -> (r: Self)
        ensures
            r@ == self@,
    {
        let ports = self.ports.clone();
        assert(ports@ =~= self.ports@);
        WireNameRecord { ip: self.ip, ports, capabilities: self.capabilities, seq: self.seq }
    }
}

impl WireNameRecordView {
    /// The encoded fields, one after the other.
    pub open spec fn fields_rlp(self) -> Seq<u8> {
        rlp::item(false, self.ip.bytes()) + rlp::item(true, encoding::concat::<Port>(self.ports))
            + rlp::uint(self.capabilities as nat) + rlp::uint(self.seq as nat)
    }
}

impl Encodable for WireNameRecord {
    /// The list of the fields.
    open spec fn rlp(v: WireNameRecordView) -> Seq<u8> {
        rlp::item(true, v.fields_rlp())
    }

    fn encode(&self, out: &mut Vec<u8>) {
        let ghost before = out@;
        let mut payload: Vec<u8> = Vec::new();
        codec::encode_octets(&self.ip.octets(), &mut payload);
        encoding::encode_vec(&self.ports, &mut payload);
        codec::encode_u64(self.capabilities, &mut payload);
        codec::encode_u64(self.seq, &mut payload);
        proof {
            assert(self.ports@.map_values(|p: Port| p@) =~= self.ports@);
            assert(payload@ =~= self@.fields_rlp());
        }
        codec::encode_list_header(payload.len(), out);
        out.append(&mut payload);
        assert(out@ =~= before + Self::rlp(self@));
    }
}

/// The fields that the payload of a record begins with. What follows the sequence number is left
/// unread.
pub open spec fn wire_fields(payload: Seq<u8>) -> Result<WireNameRecordView, DecodeError> {
    match rlp::octets_at(payload) {
        None => Err(DecodeError::InvalidIpv4Address),
        Some((octets, s1)) => {
            let (ports, s2) = encoding::list_with_limit::<Port>(s1, MAX_PORTS as nat);
            match ports {
                Err(e) => Err(e),
                Ok(ports) => match rlp::uint_at(s2, u64::MAX as nat) {
                    None => encoding::refused(codec::uint_failure(s2, 8)).0,
                    Some((capabilities, s3)) => match rlp::uint_at(s3, u64::MAX as nat) {
                        None => encoding::refused(codec::uint_failure(s3, 8)).0,
                        Some((seq, s4)) => Ok(
                            WireNameRecordView {
                                ip: Ipv4Addr::with_bytes(octets),
                                ports,
                                capabilities: capabilities as u64,
                                seq: seq as u64,
                            },
                        ),
                    },
                },
            }
        },
    }
}

impl Decodable for WireNameRecord {
    /// The list at the front, read as a record. Where there is a list, what is left is what follows
    /// it, whatever is in it.
    open spec fn decoded(input: Seq<u8>) -> (Result<WireNameRecordView, DecodeError>, Seq<u8>) {
        match rlp::list_at(input) {
            None => encoding::refused(codec::list_failure(input)),
            Some((payload, rest)) => (wire_fields(payload), rest),
        }
    }

    fn decode(buf: &mut &[u8]) -> (r: Result<Self, DecodeError>) {
        proof {
            codec::lemma_left_is_suffix(buf@, 0);
        }
        let mut fields: &[u8] = match codec::decode_list(buf) {
            Ok(payload) => payload,
            Err(e) => return Err(DecodeError::Rlp(e)),
        };
        proof {
            rlp::lemma_item_at_front(old(buf)@, true, fields@);
        }
        let octets = match codec::decode_octets(&mut fields) {
            Some(octets) => octets,
            None => return Err(DecodeError::InvalidIpv4Address),
        };
        let ip = Ipv4Addr::from_octets(octets);
        proof {
            ip.lemma_bytes();
        }
        let ports = match encoding::decode_vec_with_limit::<Port>(&mut fields, MAX_PORTS) {
            Ok(ports) => ports,
            Err(e) => return Err(e),
        };
        proof {
            assert(ports@.map_values(|p: Port| p@) =~= ports@);
        }
        let capabilities: u64 = match codec::decode_u64(&mut fields) {
            Ok(capabilities) => capabilities,
            Err(e) => return Err(DecodeError::Rlp(e)),
        };
        let seq: u64 = match codec::decode_u64(&mut fields) {
            Ok(seq) => seq,
            Err(e) => return Err(DecodeError::Rlp(e)),
        };
        Ok(WireNameRecord { ip, ports, capabilities, seq })
    }
}

/// A record that was read has few enough ports.
proof fn lemma_wire_fields_ports(payload: Seq<u8>)
    ensures
        wire_fields(payload) matches Ok(wire) ==> wire.ports.len() <= MAX_PORTS,
{
    if wire_fields(payload) is Ok {
        let (_, s1) = rlp::octets_at(payload)->0;
        let (elements, _) = rlp::list_at(s1)->0;
        encoding::lemma_items_len::<Port>(elements, MAX_PORTS as nat);
    }
}

/// A capability of a node: a bit of the capabilities in its record. None is assigned yet, so
/// there is no way to make one.
#[derive(Clone, Copy, Debug, PartialEq, Eq, Hash)]
pub struct Capability {
    index: u8,
}

impl Capability {
    /// A capability is one of 64 bits.
    #[verifier::type_invariant]
    spec fn is_bit(self) -> bool {
        self.index < 64
    }

    /// The position of the capability's bit.
    pub closed spec fn bit(self) -> u8 {
        self.index
    }

    /// The position of the capability's bit.
    pub fn index(&self) -> (r: u8)
        ensures
            r == self.bit(),
            r < 64,
    {
        proof {
            use_type_invariant(self);
        }
        self.index
    }
}

/// Whether the bit at `index` is set.
pub open spec fn has_bit(bits: u64, index: u8) -> bool {
    bits & (1u64 << index) != 0
}

/// `bits` with the bit at `index` set.
pub open spec fn with_bit(bits: u64, index: u8) -> u64 {
    bits | (1u64 << index)
}

/// Whether the bit at `index` is set.
pub fn test_bit(bits: u64, index: u8) -> (r: bool)
    requires
        index < 64,
    ensures
        r == has_bit(bits, index),
{
    (bits & (1u64 << index)) != 0
}

/// `bits` with the bit at `index` set.
pub fn set_bit(bits: u64, index: u8) -> (r: u64)
    requires
        index < 64,
    ensures
        r == with_bit(bits, index),
{
    bits | (1u64 << index)
}

/// A name record with one TCP and one UDP port. Other ports are kept but not used.
#[derive(Debug, PartialEq, Eq)]
pub struct NameRecord {
    wire: WireNameRecord,
    tcp_port: u16,
    udp_port: u16,
}

/// What a [`NameRecord`] holds.
#[verifier::ext_equal]
pub struct NameRecordView {
    /// The record as it is written.
    pub wire: WireNameRecordView,
    /// The TCP port.
    pub tcp_port: u16,
    /// The UDP port.
    pub udp_port: u16,
}

/// No two ports have the same tag.
pub open spec fn distinct_tags(ports: Seq<Port>) -> bool {
    forall|i: int, j: int| 0 <= i < j < ports.len() ==> ports[i].tag != ports[j].tag
}

/// The port at position `i` has the given tag.
pub open spec fn has_tag_at(ports: Seq<Port>, tag: PortTag, i: int) -> bool {
    0 <= i < ports.len() && ports[i].tag == tag.code()
}

/// The number of a port with the given tag.
pub open spec fn port_with_tag(ports: Seq<Port>, tag: PortTag) -> Option<u16> {
    if exists|i: int| has_tag_at(ports, tag, i) {
        Some(ports[choose|i: int| has_tag_at(ports, tag, i)].port)
    } else {
        None
    }
}

/// The name record that a record on the wire stands for, or what is wrong with its ports.
pub open spec fn with_ports(wire: WireNameRecordView) -> Result<NameRecordView, DecodeError> {
    if !distinct_tags(wire.ports) {
        Err(DecodeError::DuplicatePortTag)
    } else {
        match port_with_tag(wire.ports, PortTag::TCP) {
            None => Err(DecodeError::MissingTcpPort),
            Some(tcp_port) => match port_with_tag(wire.ports, PortTag::UDP) {
                None => Err(DecodeError::MissingUdpPort),
                Some(udp_port) => Ok(NameRecordView { wire, tcp_port, udp_port }),
            },
        }
    }
}

impl NameRecordView {
    /// The ports are few enough, none has the tag of another, and the TCP and the UDP port are
    /// those with these tags.
    pub open spec fn wf(self) -> bool {
        &&& self.wire.ports.len() <= MAX_PORTS
        &&& with_ports(self.wire) == Ok::<NameRecordView, DecodeError>(self)
    }
}

impl View for NameRecord {
    type V = NameRecordView;

    closed spec fn view(&self) -> NameRecordView {
        NameRecordView { wire: self.wire@, tcp_port: self.tcp_port, udp_port: self.udp_port }
    }
}

impl Clone for NameRecord {
    fn clone(&self) -> (r: Self)
        ensures
            r@ == self@,
    {
        proof {
            use_type_invariant(self);
        }
        NameRecord { wire: self.wire.clone(), tcp_port: self.tcp_port, udp_port: self.udp_port }
    }
}

/// With distinct tags, a port with a given tag is the only one.
pub proof fn lemma_port_with_tag(ports: Seq<Port>, tag: PortTag, i: int)
    requires
        distinct_tags(ports),
        has_tag_at(ports, tag, i),
    ensures
        port_with_tag(ports, tag) == Some(ports[i].port),
{
    let j = choose|j: int| has_tag_at(ports, tag, j);
    assert(i == j);
}

impl NameRecord {
    #[verifier::type_invariant]
    spec fn inv(self) -> bool {
        self@.wf()
    }

    /// The record of a node with these ports and no others.
    pub fn new(ip: Ipv4Addr, tcp_port: u16, udp_port: u16, capabilities: u64, seq: u64) -> (r: Self)
        ensures
            r@ == (NameRecordView {
                wire: WireNameRecordView {
                    ip,
                    ports: seq![
                        Port { tag: PortTag::TCP.code(), port: tcp_port },
                        Port { tag: PortTag::UDP.code(), port: udp_port },
                    ],
                    capabilities,
                    seq,
                },
                tcp_port,
                udp_port,
            }),
            r@.wf(),
    {
        let ports: Vec<Port> = vec![
            Port::new(PortTag::TCP, tcp_port),
            Port::new(PortTag::UDP, udp_port),
        ];
        let wire = WireNameRecord { ip, ports, capabilities, seq };
        proof {
            lemma_port_with_tag(ports@, PortTag::TCP, 0);
            lemma_port_with_tag(ports@, PortTag::UDP, 1);
        }
        NameRecord { wire, tcp_port, udp_port }
    }

    /// The record that `wire` stands for: every tag at most once, a TCP and a UDP port among them.
    fn from_wire(wire: WireNameRecord) -> (r: Result<Self, DecodeError>)
        requires
            wire.ports@.len() <= MAX_PORTS,
        ensures
            match with_ports(wire@) {
                Ok(v) => r matches Ok(record) && record@ == v,
                Err(e) => r == Err::<Self, DecodeError>(e),
            },
    {
        broadcast use vstd::std_specs::hash::group_hash_axioms;

        let mut tcp_port: Option<u16> = None;
        let mut udp_port: Option<u16> = None;
        let mut seen_tags: HashSet<u8> = HashSet::new();
        let mut i: usize = 0;
        while i < wire.ports.len()
            invariant
                i <= wire.ports@.len(),
                forall|tag: u8| #[trigger]
                    seen_tags@.contains(tag) <==> exists|j: int|
                        0 <= j < i && (#[trigger] wire.ports@[j]).tag == tag,
                distinct_tags(wire.ports@.take(i as int)),
                match tcp_port {
                    Some(port) => exists|j: int|
                        j < i && has_tag_at(wire.ports@, PortTag::TCP, j) && wire.ports@[j].port
                            == port,
                    None => forall|j: int| j < i ==> !has_tag_at(wire.ports@, PortTag::TCP, j),
                },
                match udp_port {
                    Some(port) => exists|j: int|
                        j < i && has_tag_at(wire.ports@, PortTag::UDP, j) && wire.ports@[j].port
                            == port,
                    None => forall|j: int| j < i ==> !has_tag_at(wire.ports@, PortTag::UDP, j),
                },
            decreases wire.ports@.len() - i,
        {
            let port = wire.ports[i];
            if !seen_tags.insert(port.tag) {
                return Err(DecodeError::DuplicatePortTag);
            }
            match port.tag_enum() {
                Some(PortTag::TCP) => {
                    assert(has_tag_at(wire.ports@, PortTag::TCP, i as int));
                    tcp_port = Some(port.port);
                },
                Some(PortTag::UDP) => {
                    assert(has_tag_at(wire.ports@, PortTag::UDP, i as int));
                    udp_port = Some(port.port);
                },
                None => {},
            }
            i = i + 1;
        }
        assert(wire.ports@.take(i as int) =~= wire.ports@);
        let tcp_port: u16 = match tcp_port {
            Some(port) => port,
            None => return Err(DecodeError::MissingTcpPort),
        };
        proof {
            let j = choose|j: int|
                has_tag_at(wire.ports@, PortTag::TCP, j) && wire.ports@[j].port == tcp_port;
            lemma_port_with_tag(wire.ports@, PortTag::TCP, j);
        }
        let udp_port: u16 = match udp_port {
            Some(port) => port,
            None => return Err(DecodeError::MissingUdpPort),
        };
        proof {
            let j = choose|j: int|
                has_tag_at(wire.ports@, PortTag::UDP, j) && wire.ports@[j].port == udp_port;
            lemma_port_with_tag(wire.ports@, PortTag::UDP, j);
        }
        Ok(NameRecord { wire, tcp_port, udp_port })
    }

    /// The address of the node.
    pub fn ip(&self) -> (r: Ipv4Addr)
        ensures
            r == self@.wire.ip,
    {
        self.wire.ip
    }

    /// The TCP port.
    pub fn tcp_port(&self) -> (r: u16)
        ensures
            r == self@.tcp_port,
            port_with_tag(self@.wire.ports, PortTag::TCP) == Some(r),
    {
        proof {
            use_type_invariant(self);
        }
        self.tcp_port
    }

    /// The UDP port.
    pub fn udp_port(&self) -> (r: u16)
        ensures
            r == self@.udp_port,
            port_with_tag(self@.wire.ports, PortTag::UDP) == Some(r),
    {
        proof {
            use_type_invariant(self);
        }
        self.udp_port
    }

    /// The capabilities, one bit each.
    pub fn capabilities(&self) -> (r: u64)
        ensures
            r == self@.wire.capabilities,
    {
        self.wire.capabilities
    }

    /// The sequence number of the record.
    pub fn seq(&self) -> (r: u64)
        ensures
            r == self@.wire.seq,
    {
        self.wire.seq
    }

    /// Where the node is reached over TCP.
    pub fn tcp_socket(&self) -> (r: SocketAddrV4)
        ensures
            r == (SocketAddrV4 { ip: self@.wire.ip, port: self@.tcp_port }),
    {
        SocketAddrV4::new(self.wire.ip, self.tcp_port)
    }

    /// Where the node is reached over UDP.
    pub fn udp_socket(&self) -> (r: SocketAddrV4)
        ensures
            r == (SocketAddrV4 { ip: self@.wire.ip, port: self@.udp_port }),
    {
        SocketAddrV4::new(self.wire.ip, self.udp_port)
    }

    /// Whether the node has the capability.
    pub fn check_capability(&self, capability: Capability) -> (r: bool)
        ensures
            r == has_bit(self@.wire.capabilities, capability.bit()),
    {
        test_bit(self.wire.capabilities, capability.index())
    }

    /// Gives the node the capability. Nothing else changes.
    pub fn set_capability(&mut self, capability: Capability)
        ensures
            final(self)@ == (NameRecordView {
                wire: WireNameRecordView {
                    capabilities: with_bit(old(self)@.wire.capabilities, capability.bit()),
                    ..old(self)@.wire
                },
                ..old(self)@
            }),
            final(self)@.wf(),
    {
        let capabilities: u64 = set_bit(self.wire.capabilities, capability.index());
        proof {
            use_type_invariant(&*self);
        }
        self.wire.capabilities = capabilities;
    }
}

impl Encodable for NameRecord {
    /// The record as it is written.
    open spec fn rlp(v: NameRecordView) -> Seq<u8> {
        <WireNameRecord as Encodable>::rlp(v.wire)
    }

    fn encode(&self, out: &mut Vec<u8>) {
        self.wire.encode(out);
    }
}

impl Decodable for NameRecord {
    /// The record on the wire at the front, with its ports.
    open spec fn decoded(input: Seq<u8>) -> (Result<NameRecordView, DecodeError>, Seq<u8>) {
        let (wire, rest) = <WireNameRecord as Decodable>::decoded(input);
        match wire {
            Err(e) => (Err(e), rest),
            Ok(wire) => (with_ports(wire), rest),
        }
    }

    fn decode(buf: &mut &[u8]) -> (r: Result<Self, DecodeError>)
        ensures
            r matches Ok(record) ==> record@.wf(),
    {
        let ghost input = buf@;
        let wire = match WireNameRecord::decode(buf) {
            Ok(wire) => wire,
            Err(e) => return Err(e),
        };
        proof {
            let (payload, _) = rlp::list_at(input)->0;
            lemma_wire_fields_ports(payload);
        }
        NameRecord::from_wire(wire)
    }
}

} // verus!
