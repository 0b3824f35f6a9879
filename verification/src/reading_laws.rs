//! What the readers of ports and records make of an input: which inputs they accept, what they read
//! from them, and why they refuse the others.
use crate::addr::Ipv4Addr;
use crate::codec;
use crate::encoding;
use crate::encoding::{Decodable, Encodable};
use crate::error::{DecodeError, RlpError};
use crate::format_laws;
use crate::laws;
use crate::port::{Port, PortTag};
use crate::record;
use crate::record::{NameRecord, NameRecordView, WireNameRecord, WireNameRecordView};
use crate::rlp;
use vstd::prelude::*;

verus! {

/// The tags of the TCP and the UDP port are 0 and 1; no other tag has a meaning.
pub proof fn tag_numbers(port: Port, r: Option<PortTag>)
    requires
        call_ensures(Port::tag_enum, (&port,), r),
    ensures
        PortTag::TCP.code() == 0,
        PortTag::UDP.code() == 1,
        r == Some(PortTag::TCP) <==> port.tag == 0,
        r == Some(PortTag::UDP) <==> port.tag == 1,
        r is None <==> port.tag > 1,
{
    assert(PortTag::TCP.code() == 0);
    assert(PortTag::UDP.code() == 1);
    if let Some(tag) = r {
        assert(tag.code() == port.tag);
    }
}

/// A list of two numbers, the first a tag and the second a port, is read as the port with that tag
/// and that number, whatever follows the list.
pub proof fn port_read<'a, 'b>(tag: u8, number: u16, rest: Seq<u8>)
    ensures
        Port::decoded(rlp::item(true, rlp::uint(tag as nat) + rlp::uint(number as nat)) + rest) == (
            Ok::<Port, DecodeError>(Port { tag, port: number }),
            rest,
        ),
        forall|buf: &'b mut &'a [u8], r: Result<Port, DecodeError>| #[trigger]
            call_ensures(Port::decode, (buf,), r) && buf@ == rlp::item(
                true,
                rlp::uint(tag as nat) + rlp::uint(number as nat),
            ) + rest ==> r == Ok::<Port, DecodeError>(Port { tag, port: number }) && final(buf)@
                == rest,
{
    let port = Port { tag, port: number };
    laws::port_round_trip(port, rest);
    assert(Port::rlp(port) == rlp::item(true, rlp::uint(tag as nat) + rlp::uint(number as nat)));
}

/// A port is read from no other input.
pub proof fn port_read_only<'a, 'b>()
    ensures
        forall|buf: &'b mut &'a [u8], port: Port| #[trigger]
            call_ensures(Port::decode, (buf,), Ok::<Port, DecodeError>(port)) ==> buf@ == rlp::item(
                true,
                rlp::uint(port.tag as nat) + rlp::uint(port.port as nat),
            ) + final(buf)@,
{
    assert forall|buf: &'b mut &'a [u8], port: Port| #[trigger]
        call_ensures(Port::decode, (buf,), Ok::<Port, DecodeError>(port)) implies buf@ == rlp::item(
        true,
        rlp::uint(port.tag as nat) + rlp::uint(port.port as nat),
    ) + final(buf)@ by {
        laws::port_canonical(buf@, port, final(buf)@);
    }
}

/// What becomes of any input that is read as a port, and what is left of it. It is refused if it
/// begins with no item, or with a string; if the tag or the number behind it cannot be read; or if
/// the two do not end where the list does. Otherwise they are the port.
pub proof fn port_outcomes(input: Seq<u8>)
    ensures
        match rlp::item_at(input) {
            None => Port::decoded(input) == (
                Err::<Port, DecodeError>(DecodeError::Rlp(codec::header_failure(input).0)),
                codec::header_failure(input).1,
            ),
            Some((false, payload)) => Port::decoded(input) == (
                Err::<Port, DecodeError>(DecodeError::Rlp(RlpError::UnexpectedString)),
                input.skip(rlp::item(false, payload).len() - payload.len()),
            ),
            Some((true, payload)) => {
                let s0 = input.skip(rlp::item(true, payload).len() - payload.len());
                match rlp::uint_at(s0, 0xFF) {
                    None => Port::decoded(input) == (
                        Err::<Port, DecodeError>(DecodeError::Rlp(codec::uint_failure(s0, 1).0)),
                        codec::uint_failure(s0, 1).1,
                    ),
                    Some((tag, s1)) => match rlp::uint_at(s1, 0xFFFF) {
                        None => Port::decoded(input) == (
                            Err::<Port, DecodeError>(
                                DecodeError::Rlp(codec::uint_failure(s1, 2).0),
                            ),
                            codec::uint_failure(s1, 2).1,
                        ),
                        Some((number, s2)) => Port::decoded(input) == (
                            if s0.len() - s2.len() == payload.len() {
                                Ok::<Port, DecodeError>(
                                    Port { tag: tag as u8, port: number as u16 },
                                )
                            } else {
                                Err::<Port, DecodeError>(
                                    DecodeError::Rlp(
                                        RlpError::ListLengthMismatch {
                                            expected: payload.len() as usize,
                                            got: (s0.len() - s2.len()) as usize,
                                        },
                                    ),
                                )
                            },
                            s2,
                        ),
                    },
                }
            },
        },
{
}

/// A list of four bytes, at most eight ports and two numbers is read as the record with that
/// address, these ports in their order, these capabilities and that sequence number. More ports are
/// refused. What follows the sequence number in the list is skipped, what follows the list is left.
pub proof fn record_read<'a, 'b>(
    ip: Ipv4Addr,
    ports: Seq<Port>,
    capabilities: u64,
    seq: u64,
    extra: Seq<u8>,
    rest: Seq<u8>,
)
    requires
        encoding::concat::<Port>(ports).len() + extra.len() + 32 <= u64::MAX,
    ensures
        ({
            let input = rlp::item(
                true,
                seq![0x84u8] + ip.bytes() + rlp::item(true, encoding::concat::<Port>(ports))
                    + rlp::uint(capabilities as nat) + rlp::uint(seq as nat) + extra,
            ) + rest;
            &&& WireNameRecord::decoded(input) == (
                if ports.len() <= 8 {
                    Ok::<WireNameRecordView, DecodeError>(
                        WireNameRecordView { ip, ports, capabilities, seq },
                    )
                } else {
                    Err::<WireNameRecordView, DecodeError>(DecodeError::TooManyItems)
                },
                rest,
            )
            &&& forall|buf: &'b mut &'a [u8], r: Result<WireNameRecord, DecodeError>| #[trigger]
                call_ensures(WireNameRecord::decode, (buf,), r) && buf@ == input ==> {
                    &&& final(buf)@ == rest
                    &&& ports.len() <= 8 ==> (r matches Ok(wire) && wire.ip == ip && wire.ports@
                        == ports && wire.capabilities == capabilities && wire.seq == seq)
                    &&& ports.len() > 8 ==> r == Err::<WireNameRecord, DecodeError>(
                        DecodeError::TooManyItems,
                    )
                }
        }),
{
    let wire = WireNameRecordView { ip, ports, capabilities, seq };
    let elements = encoding::concat::<Port>(ports);
    let fields = seq![0x84u8] + ip.bytes() + rlp::item(true, elements) + rlp::uint(
        capabilities as nat,
    ) + rlp::uint(seq as nat);
    ip.lemma_bytes();
    format_laws::string_bytes(ip.bytes());
    rlp::lemma_be_len(elements.len());
    rlp::lemma_uint_len(capabilities as nat);
    rlp::lemma_uint_len(seq as nat);
    assert(wire.fields_rlp() =~= fields);
    laws::wire_fields_round_trip(wire, extra);
    rlp::lemma_item_then(true, fields + extra, rest);
}

/// What becomes of any input that is read as a record, and what is left of it. It is refused if it
/// begins with no list; if the list does not begin with four bytes; or if the ports, the
/// capabilities or the sequence number behind them cannot be read. Otherwise these are the record.
/// Once there is a list, what follows it is left.
pub proof fn record_outcomes(input: Seq<u8>)
    ensures
        match rlp::list_at(input) {
            None => WireNameRecord::decoded(input) == (
                Err::<WireNameRecordView, DecodeError>(
                    DecodeError::Rlp(codec::list_failure(input).0),
                ),
                codec::list_failure(input).1,
            ),
            Some((payload, rest)) => {
                &&& WireNameRecord::decoded(input).1 == rest
                &&& match rlp::octets_at(payload) {
                    None => WireNameRecord::decoded(input).0 == Err::<
                        WireNameRecordView,
                        DecodeError,
                    >(DecodeError::InvalidIpv4Address),
                    Some((octets, s1)) => match encoding::list_with_limit::<Port>(s1, 8) {
                        (Err(e), _) => WireNameRecord::decoded(input).0 == Err::<
                            WireNameRecordView,
                            DecodeError,
                        >(e),
                        (Ok(ports), s2) => match rlp::uint_at(s2, u64::MAX as nat) {
                            None => WireNameRecord::decoded(input).0 == Err::<
                                WireNameRecordView,
                                DecodeError,
                            >(DecodeError::Rlp(codec::uint_failure(s2, 8).0)),
                            Some((capabilities, s3)) => match rlp::uint_at(s3, u64::MAX as nat) {
                                None => WireNameRecord::decoded(input).0 == Err::<
                                    WireNameRecordView,
                                    DecodeError,
                                >(DecodeError::Rlp(codec::uint_failure(s3, 8).0)),
                                Some((seq, _)) => {
                                    &&& WireNameRecord::decoded(input).0 matches Ok(wire)
                                    &&& wire.ip.bytes() == octets
                                    &&& wire.ports == ports
                                    &&& wire.capabilities == capabilities
                                    &&& wire.seq == seq
                                },
                            },
                        },
                    },
                }
            },
        },
{
    if let Some((payload, _)) = rlp::list_at(input) {
        if let Some((octets, _)) = rlp::octets_at(payload) {
            Ipv4Addr::lemma_with_bytes(octets);
        }
    }
}

/// A record is read only from a list that begins with its four fields, and has at most eight ports.
pub proof fn record_read_only<'a, 'b>()
    ensures
        forall|buf: &'b mut &'a [u8], wire: WireNameRecord| #[trigger]
            call_ensures(WireNameRecord::decode, (buf,), Ok::<WireNameRecord, DecodeError>(wire))
                ==> wire.ports@.len() <= 8 && exists|extra: Seq<u8>|
                buf@ == #[trigger] rlp::item(
                    true,
                    seq![0x84u8] + wire.ip.bytes() + rlp::item(
                        true,
                        encoding::concat::<Port>(wire.ports@),
                    ) + rlp::uint(wire.capabilities as nat) + rlp::uint(wire.seq as nat) + extra,
                ) + final(buf)@,
{
    assert forall|buf: &'b mut &'a [u8], wire: WireNameRecord| #[trigger]
        call_ensures(
            WireNameRecord::decode,
            (buf,),
            Ok::<WireNameRecord, DecodeError>(wire),
        ) implies wire.ports@.len() <= 8 && exists|extra: Seq<u8>|
        buf@ == #[trigger] rlp::item(
            true,
            seq![0x84u8] + wire.ip.bytes() + rlp::item(
                true,
                encoding::concat::<Port>(wire.ports@),
            ) + rlp::uint(wire.capabilities as nat) + rlp::uint(wire.seq as nat) + extra,
        ) + final(buf)@ by {
        laws::wire_read(buf@, wire@, final(buf)@);
        let (payload, _) = rlp::list_at(buf@)->0;
        wire.ip.lemma_bytes();
        format_laws::string_bytes(wire.ip.bytes());
        let fields = seq![0x84u8] + wire.ip.bytes() + rlp::item(
            true,
            encoding::concat::<Port>(wire.ports@),
        ) + rlp::uint(wire.capabilities as nat) + rlp::uint(wire.seq as nat);
        assert(wire@.fields_rlp() =~= fields);
        let extra = payload.skip(fields.len() as int);
        assert(payload =~= fields + extra);
        assert(buf@ == rlp::item(true, fields + extra) + final(buf)@);
    }
}

/// The ports of a name record are at most eight, no two of them have the same tag, the one with tag
/// 0 is the TCP port and the one with tag 1 the UDP port. Nothing else is asked of a name record.
pub proof fn well_formed(v: NameRecordView)
    ensures
        v.wf() <==> {
            &&& v.wire.ports.len() <= 8
            &&& forall|i: int, j: int|
                0 <= i < v.wire.ports.len() && 0 <= j < v.wire.ports.len() && i != j
                    ==> v.wire.ports[i].tag != v.wire.ports[j].tag
            &&& v.wire.ports.contains(Port { tag: 0, port: v.tcp_port })
            &&& v.wire.ports.contains(Port { tag: 1, port: v.udp_port })
        },
{
    let ports = v.wire.ports;
    if v.wf() {
        let i = choose|i: int| record::has_tag_at(ports, PortTag::TCP, i);
        let j = choose|j: int| record::has_tag_at(ports, PortTag::UDP, j);
        assert(record::has_tag_at(ports, PortTag::TCP, i));
        assert(record::has_tag_at(ports, PortTag::UDP, j));
        assert(ports[i] == Port { tag: 0, port: v.tcp_port });
        assert(ports[j] == Port { tag: 1, port: v.udp_port });
    }
    if ports.contains(Port { tag: 0, port: v.tcp_port }) && ports.contains(
        Port { tag: 1, port: v.udp_port },
    ) && record::distinct_tags(ports) {
        let i = ports.index_of(Port { tag: 0, port: v.tcp_port });
        let j = ports.index_of(Port { tag: 1, port: v.udp_port });
        record::lemma_port_with_tag(ports, PortTag::TCP, i);
        record::lemma_port_with_tag(ports, PortTag::UDP, j);
    }
}

/// A record with at most eight ports, no two of which have the same tag, among them one with tag 0
/// and one with tag 1, is read as a name record with these two as its TCP and its UDP port. It does
/// not matter in which order the ports stand nor which other tags there are; all ports are kept.
pub proof fn name_record_read_in_any_order<'a, 'b>(
    wire: WireNameRecordView,
    tcp: int,
    udp: int,
    rest: Seq<u8>,
)
    requires
        wire.ports.len() <= 8,
        forall|i: int, j: int|
            0 <= i < wire.ports.len() && 0 <= j < wire.ports.len() && i != j ==> wire.ports[i].tag
                != wire.ports[j].tag,
        0 <= tcp < wire.ports.len() && wire.ports[tcp].tag == 0,
        0 <= udp < wire.ports.len() && wire.ports[udp].tag == 1,
    ensures
        NameRecord::decoded(WireNameRecord::rlp(wire) + rest) == (
            Ok::<NameRecordView, DecodeError>(
                NameRecordView {
                    wire,
                    tcp_port: wire.ports[tcp].port,
                    udp_port: wire.ports[udp].port,
                },
            ),
            rest,
        ),
        forall|buf: &'b mut &'a [u8], r: Result<NameRecord, DecodeError>| #[trigger]
            call_ensures(NameRecord::decode, (buf,), r) && buf@ == WireNameRecord::rlp(wire) + rest
                ==> final(buf)@ == rest && (r matches Ok(name_record) && name_record@.wire == wire
                && name_record@.tcp_port == wire.ports[tcp].port && name_record@.udp_port
                == wire.ports[udp].port),
{
    laws::unknown_ports_kept(wire, tcp, udp, rest);
}

/// What becomes of any input that is read as a name record. An input that is no record is refused
/// as such. A record is refused if two of its ports have the same tag; or, if not, none has tag 0;
/// or, if one has, none has tag 1. Otherwise it is the name record with these ports. Whatever
/// becomes of it, what is left is what reading the record leaves.
pub proof fn name_record_outcomes(input: Seq<u8>)
    ensures
        NameRecord::decoded(input).1 == WireNameRecord::decoded(input).1,
        match WireNameRecord::decoded(input).0 {
            Err(e) => NameRecord::decoded(input).0 == Err::<NameRecordView, DecodeError>(e),
            Ok(wire) => {
                let ports = wire.ports;
                let outcome = NameRecord::decoded(input).0;
                let repeated = exists|i: int, j: int|
                    0 <= i < ports.len() && 0 <= j < ports.len() && i != j && (#[trigger]
                    ports[i]).tag == (#[trigger] ports[j]).tag;
                let tcp = exists|i: int| 0 <= i < ports.len() && (#[trigger] ports[i]).tag == 0;
                let udp = exists|i: int| 0 <= i < ports.len() && (#[trigger] ports[i]).tag == 1;
                &&& outcome == Err::<NameRecordView, DecodeError>(DecodeError::DuplicatePortTag)
                    <==> repeated
                &&& outcome == Err::<NameRecordView, DecodeError>(DecodeError::MissingTcpPort)
                    <==> !repeated && !tcp
                &&& outcome == Err::<NameRecordView, DecodeError>(DecodeError::MissingUdpPort)
                    <==> !repeated && tcp && !udp
                &&& outcome is Ok <==> !repeated && tcp && udp
                &&& outcome matches Ok(v) ==> {
                    &&& v.wire == wire
                    &&& ports.contains(Port { tag: 0, port: v.tcp_port })
                    &&& ports.contains(Port { tag: 1, port: v.udp_port })
                }
            },
        },
{
    if let Ok(wire) = WireNameRecord::decoded(input).0 {
        let ports = wire.ports;
        assert forall|i: int|
            0 <= i < ports.len() && (#[trigger] ports[i]).tag == 0 implies record::has_tag_at(
            ports,
            PortTag::TCP,
            i,
        ) by {}
        assert forall|i: int|
            0 <= i < ports.len() && (#[trigger] ports[i]).tag == 1 implies record::has_tag_at(
            ports,
            PortTag::UDP,
            i,
        ) by {}
        if let Ok(v) = NameRecord::decoded(input).0 {
            let i = choose|i: int| record::has_tag_at(ports, PortTag::TCP, i);
            let j = choose|j: int| record::has_tag_at(ports, PortTag::UDP, j);
            assert(ports[i] == Port { tag: 0, port: v.tcp_port });
            assert(ports[j] == Port { tag: 1, port: v.udp_port });
        }
    }
}

/// Two records that differ only in the order of their ports are read as name records with the same
/// TCP and the same UDP port, or refused for the same reason. The orders are given by where each
/// port of the one stands in the other.
pub proof fn order_of_ports_is_irrelevant(
    wire: WireNameRecordView,
    other: WireNameRecordView,
    there: Seq<int>,
    back: Seq<int>,
    rest: Seq<u8>,
)
    requires
        wire.ports.len() <= 8,
        other.ports.len() == wire.ports.len(),
        forall|i: int|
            0 <= i < wire.ports.len() ==> 0 <= #[trigger] there[i] < wire.ports.len()
                && back[there[i]] == i && other.ports[there[i]] == wire.ports[i],
        forall|i: int|
            0 <= i < wire.ports.len() ==> 0 <= #[trigger] back[i] < wire.ports.len()
                && there[back[i]] == i,
    ensures
        match (
            NameRecord::decoded(WireNameRecord::rlp(wire) + rest).0,
            NameRecord::decoded(WireNameRecord::rlp(other) + rest).0,
        ) {
            (Ok(v), Ok(w)) => v.tcp_port == w.tcp_port && v.udp_port == w.udp_port,
            (Err(e), Err(f)) => e == f,
            _ => false,
        },
{
    let a = wire.ports;
    let b = other.ports;
    laws::wire_round_trip(wire, rest);
    laws::wire_round_trip(other, rest);
    assert forall|i: int| 0 <= i < a.len() implies b[i] == a[#[trigger] back[i]] by {
        assert(there[back[i]] == i);
    }
    if record::distinct_tags(a) {
        assert forall|i: int, j: int| 0 <= i < j < b.len() implies b[i].tag != b[j].tag by {
            assert(b[i] == a[back[i]] && b[j] == a[back[j]]);
            assert(there[back[i]] != there[back[j]]);
        }
    }
    if record::distinct_tags(b) {
        assert forall|i: int, j: int| 0 <= i < j < a.len() implies a[i].tag != a[j].tag by {
            assert(a[i] == b[there[i]] && a[j] == b[there[j]]);
            assert(back[there[i]] != back[there[j]]);
        }
    }
    if record::distinct_tags(a) {
        assert forall|tag: PortTag|
            record::port_with_tag(a, tag) == #[trigger] record::port_with_tag(b, tag) by {
            if exists|i: int| record::has_tag_at(a, tag, i) {
                let i = choose|i: int| record::has_tag_at(a, tag, i);
                assert(record::has_tag_at(b, tag, there[i]));
                record::lemma_port_with_tag(a, tag, i);
                record::lemma_port_with_tag(b, tag, there[i]);
            } else if exists|i: int| record::has_tag_at(b, tag, i) {
                let i = choose|i: int| record::has_tag_at(b, tag, i);
                assert(b[i] == a[back[i]]);
                assert(record::has_tag_at(a, tag, back[i]));
            }
        }
    }
}

} // verus!
