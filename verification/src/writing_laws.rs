//! What is written for a port and for a record, byte by byte and item by item.
use crate::addr::{Ipv4Addr, SocketAddrV4};
use crate::encoding;
use crate::encoding::Encodable;
use crate::format_laws;
use crate::port::Port;
use crate::record::{NameRecord, WireNameRecord, WireNameRecordView};
use crate::rlp;
use vstd::prelude::*;

verus! {

/// A port is written as a byte that counts the bytes behind it, the tag as a number and the port as
/// a number. Of a tag from 1 to 127 and a port from 256 on, these are five bytes.
pub proof fn port_written<'a>(port: Port)
    ensures
        Port::rlp(port) == seq![
            (0xC0 + rlp::uint(port.tag as nat).len() + rlp::uint(port.port as nat).len()) as u8,
        ] + rlp::uint(port.tag as nat) + rlp::uint(port.port as nat),
        0 < port.tag < 0x80 && port.port >= 0x100 ==> Port::rlp(port) == seq![
            0xC4u8,
            port.tag,
            0x82u8,
            (port.port / 256) as u8,
            (port.port % 256) as u8,
        ],
        port.tag == 0 && port.port >= 0x100 ==> Port::rlp(port) == seq![
            0xC4u8,
            0x80u8,
            0x82u8,
            (port.port / 256) as u8,
            (port.port % 256) as u8,
        ],
        forall|out: &'a mut Vec<u8>| #[trigger]
            call_ensures(Port::encode, (&port, out), ()) ==> final(out)@ == out@ + Port::rlp(port),
{
    let tag = rlp::uint(port.tag as nat);
    let number = rlp::uint(port.port as nat);
    rlp::lemma_uint_len(port.tag as nat);
    rlp::lemma_uint_len(port.port as nat);
    format_laws::number_bytes(port.tag as nat);
    format_laws::number_bytes(port.port as nat);
    format_laws::list_bytes(tag + number);
    assert(Port::rlp(port) =~= seq![(0xC0 + tag.len() + number.len()) as u8] + tag + number);
    if port.port >= 0x100 {
        if port.tag == 0 {
            assert(Port::rlp(port) =~= seq![
                0xC4u8,
                0x80u8,
                0x82u8,
                (port.port / 256) as u8,
                (port.port % 256) as u8,
            ]);
        } else if port.tag < 0x80 {
            assert(Port::rlp(port) =~= seq![
                0xC4u8,
                port.tag,
                0x82u8,
                (port.port / 256) as u8,
                (port.port % 256) as u8,
            ]);
        }
    }
}

/// What is written for a port is a list of two numbers and nothing else: first the tag, then the
/// port.
pub proof fn port_written_items(port: Port)
    ensures
        rlp::list_at(Port::rlp(port)) matches Some((payload, after)) && {
            &&& after.len() == 0
            &&& rlp::uint_at(payload, u64::MAX as nat) matches Some((tag, s1))
            &&& tag == port.tag
            &&& rlp::uint_at(s1, u64::MAX as nat) matches Some((number, s2))
            &&& number == port.port
            &&& s2.len() == 0
        },
{
    let none = Seq::<u8>::empty();
    let tag = rlp::uint(port.tag as nat);
    let number = rlp::uint(port.port as nat);
    rlp::lemma_uint_len(port.tag as nat);
    rlp::lemma_uint_len(port.port as nat);
    assert(Port::rlp(port) =~= rlp::item(true, tag + number) + none);
    format_laws::list_found(Port::rlp(port), tag + number, none);
    format_laws::number_found(tag + number, u64::MAX as nat, port.tag as nat, number);
    assert(number =~= number + none);
    format_laws::number_found(number, u64::MAX as nat, port.port as nat, none);
}

/// What is written for a record is the list of the address as four bytes, the list of the ports,
/// the capabilities and the sequence number, in that order.
pub proof fn record_written<'a>(wire: WireNameRecord)
    ensures
        WireNameRecord::rlp(wire@) == rlp::item(
            true,
            seq![0x84u8] + wire.ip.bytes() + rlp::item(
                true,
                encoding::concat::<Port>(wire.ports@),
            ) + rlp::uint(wire.capabilities as nat) + rlp::uint(wire.seq as nat),
        ),
        forall|out: &'a mut Vec<u8>| #[trigger]
            call_ensures(WireNameRecord::encode, (&wire, out), ()) ==> final(out)@ == out@
                + WireNameRecord::rlp(wire@),
{
    wire.ip.lemma_bytes();
    format_laws::string_bytes(wire.ip.bytes());
}

/// Reading what is written for a record item by item gives the four bytes of the address, the list
/// of the ports, the capabilities, the sequence number, and then nothing more.
pub proof fn record_written_items(wire: WireNameRecordView)
    requires
        encoding::concat::<Port>(wire.ports).len() + 32 <= u64::MAX,
    ensures
        rlp::list_at(WireNameRecord::rlp(wire)) matches Some((payload, after)) && {
            &&& after.len() == 0
            &&& rlp::octets_at(payload) matches Some((octets, s1))
            &&& octets == wire.ip.bytes()
            &&& rlp::list_at(s1) matches Some((ports, s2))
            &&& ports == encoding::concat::<Port>(wire.ports)
            &&& rlp::uint_at(s2, u64::MAX as nat) matches Some((capabilities, s3))
            &&& capabilities == wire.capabilities
            &&& rlp::uint_at(s3, u64::MAX as nat) matches Some((seq, s4))
            &&& seq == wire.seq
            &&& s4.len() == 0
        },
{
    let none = Seq::<u8>::empty();
    let octets = wire.ip.bytes();
    let ports = encoding::concat::<Port>(wire.ports);
    let capabilities = rlp::uint(wire.capabilities as nat);
    let seq = rlp::uint(wire.seq as nat);
    wire.ip.lemma_bytes();
    format_laws::string_bytes(octets);
    rlp::lemma_be_len(ports.len());
    rlp::lemma_uint_len(wire.capabilities as nat);
    rlp::lemma_uint_len(wire.seq as nat);
    let s3 = seq;
    let s2 = capabilities + s3;
    let s1 = rlp::item(true, ports) + s2;
    let payload = seq![0x84u8] + octets + s1;
    assert(WireNameRecord::rlp(wire) =~= rlp::item(true, payload) + none) by {
        assert(rlp::item(false, octets) + rlp::item(true, ports) + capabilities + seq =~= payload);
    }
    format_laws::list_found(WireNameRecord::rlp(wire), payload, none);
    format_laws::octets_found(payload, octets, s1);
    format_laws::list_found(s1, ports, s2);
    format_laws::number_found(s2, u64::MAX as nat, wire.capabilities as nat, s3);
    assert(s3 =~= seq + none);
    format_laws::number_found(s3, u64::MAX as nat, wire.seq as nat, none);
}

/// A name record is written as its record on the wire is.
pub proof fn name_record_written<'a>(name_record: NameRecord)
    ensures
        NameRecord::rlp(name_record@) == WireNameRecord::rlp(name_record@.wire),
        forall|out: &'a mut Vec<u8>| #[trigger]
            call_ensures(NameRecord::encode, (&name_record, out), ()) ==> final(out)@ == out@
                + WireNameRecord::rlp(name_record@.wire),
{
}

/// A new record gives back what it was made of. It is written as the list of its address, the list
/// of its TCP port with tag 0 and its UDP port with tag 1, its capabilities and its sequence
/// number.
pub proof fn new_record<'a>(
    ip: Ipv4Addr,
    tcp_port: u16,
    udp_port: u16,
    capabilities: u64,
    seq: u64,
    name_record: NameRecord,
)
    requires
        call_ensures(NameRecord::new, (ip, tcp_port, udp_port, capabilities, seq), name_record),
    ensures
        forall|r: Ipv4Addr| #[trigger]
            call_ensures(NameRecord::ip, (&name_record,), r) ==> r == ip,
        forall|r: u16| #[trigger]
            call_ensures(NameRecord::tcp_port, (&name_record,), r) ==> r == tcp_port,
        forall|r: u16| #[trigger]
            call_ensures(NameRecord::udp_port, (&name_record,), r) ==> r == udp_port,
        forall|r: u64| #[trigger]
            call_ensures(NameRecord::capabilities, (&name_record,), r) ==> r == capabilities,
        forall|r: u64| #[trigger] call_ensures(NameRecord::seq, (&name_record,), r) ==> r == seq,
        forall|r: SocketAddrV4| #[trigger]
            call_ensures(NameRecord::tcp_socket, (&name_record,), r) ==> r.ip == ip && r.port
                == tcp_port,
        forall|r: SocketAddrV4| #[trigger]
            call_ensures(NameRecord::udp_socket, (&name_record,), r) ==> r.ip == ip && r.port
                == udp_port,
        forall|out: &'a mut Vec<u8>| #[trigger]
            call_ensures(NameRecord::encode, (&name_record, out), ()) ==> final(out)@ == out@
                + rlp::item(
                true,
                seq![0x84u8] + ip.bytes() + rlp::item(
                    true,
                    Port::rlp(Port { tag: 0, port: tcp_port }) + Port::rlp(
                        Port { tag: 1, port: udp_port },
                    ),
                ) + rlp::uint(capabilities as nat) + rlp::uint(seq as nat),
            ),
{
    let tcp = Port { tag: 0, port: tcp_port };
    let udp = Port { tag: 1, port: udp_port };
    format_laws::elements_in_order::<Port>(seq![tcp], tcp, seq![udp]);
    format_laws::elements_in_order::<Port>(seq![tcp], udp, seq![udp]);
    assert(name_record@.wire.ports =~= seq![tcp] + seq![udp]);
    ip.lemma_bytes();
    format_laws::string_bytes(ip.bytes());
}

} // verus!
