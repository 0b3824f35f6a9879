//! What holds of records across writing, reading and signing.
use crate::addr::Ipv4Addr;
use crate::codec;
use crate::encoding;
use crate::encoding::{Decodable, Encodable};
use crate::error::{DecodeError, RlpError};
use crate::port::{Port, PortTag};
use crate::record;
use crate::record::{
    Capability, NameRecord, NameRecordView, WireNameRecord, WireNameRecordView,
};
use crate::rlp;
use crate::signed;
use crate::signed::{CertificateSignatureRecoverable, MonadNameRecord};
use crate::signing_domain;
use vstd::arithmetic::power2::pow2;
use vstd::prelude::*;

verus! {

/// A port is read back as it was written, whatever follows it.
pub proof fn port_round_trip(port: Port, rest: Seq<u8>)
    ensures
        Port::decoded(Port::rlp(port) + rest) == (Ok::<Port, DecodeError>(port), rest),
{
    let tag = rlp::uint(port.tag as nat);
    let number = rlp::uint(port.port as nat);
    let payload = tag + number;
    rlp::lemma_uint_len(port.tag as nat);
    rlp::lemma_uint_len(port.port as nat);
    rlp::lemma_item_then(true, payload, rest);
    let s = Port::rlp(port) + rest;
    let s0 = s.skip(rlp::item_header(true, payload).len() as int);
    assert(s0 =~= tag + (number + rest));
    rlp::lemma_uint_then(port.tag as nat, u8::MAX as nat, number + rest);
    rlp::lemma_uint_then(port.port as nat, u16::MAX as nat, rest);
}

/// A port is read only from its own encoding.
pub proof fn port_canonical(input: Seq<u8>, port: Port, rest: Seq<u8>)
    requires
        Port::decoded(input) == (Ok::<Port, DecodeError>(port), rest),
    ensures
        input == Port::rlp(port) + rest,
{
    let (_, payload) = rlp::item_at(input)->0;
    rlp::lemma_item_at_front(input, true, payload);
    let s0 = input.skip(rlp::item_header(true, payload).len() as int);
    let (tag, s1) = rlp::uint_at(s0, u8::MAX as nat)->0;
    rlp::lemma_uint_at_front(s0, u8::MAX as nat, tag, s1);
    let (number, s2) = rlp::uint_at(s1, u16::MAX as nat)->0;
    rlp::lemma_uint_at_front(s1, u16::MAX as nat, number, s2);
    let fields = rlp::uint(tag) + rlp::uint(number);
    assert(s0 =~= fields + rest);
    assert(s0 =~= payload + rlp::after_item(input, true, payload));
    assert(payload =~= s0.take(payload.len() as int));
    assert(fields =~= s0.take(fields.len() as int));
    assert(payload == fields);
    assert(input =~= rlp::item_header(true, payload) + s0);
    assert(input =~= Port::rlp(port) + rest);
}

/// The elements of a list of ports are the ports, as long as the limit allows them.
pub proof fn ports_round_trip(ports: Seq<Port>, limit: nat)
    ensures
        encoding::items::<Port>(encoding::concat::<Port>(ports), limit) == if ports.len() <= limit {
            Ok::<Seq<Port>, DecodeError>(ports)
        } else {
            Err::<Seq<Port>, DecodeError>(DecodeError::TooManyItems)
        },
    decreases ports.len(),
{
    if ports.len() > 0 {
        let tail = encoding::concat::<Port>(ports.drop_first());
        let payload = encoding::concat::<Port>(ports);
        assert(payload == Port::rlp(ports.first()) + tail);
        assert(payload.len() > 0) by {
            rlp::lemma_uint_len(ports.first().tag as nat);
        }
        if limit > 0 {
            port_round_trip(ports.first(), tail);
            ports_round_trip(ports.drop_first(), (limit - 1) as nat);
            assert(seq![ports.first()] + ports.drop_first() =~= ports);
        }
    } else {
        assert(ports =~= Seq::<Port>::empty());
    }
}

/// A list of ports is read only from the encodings of these ports.
pub proof fn ports_canonical(payload: Seq<u8>, limit: nat, ports: Seq<Port>)
    requires
        encoding::items::<Port>(payload, limit) == Ok::<Seq<Port>, DecodeError>(ports),
    ensures
        payload == encoding::concat::<Port>(ports),
    decreases limit,
{
    if payload.len() > 0 {
        let (outcome, rest) = Port::decoded(payload);
        let port = outcome->Ok_0;
        port_canonical(payload, port, rest);
        let tail = encoding::items::<Port>(rest, (limit - 1) as nat)->Ok_0;
        ports_canonical(rest, (limit - 1) as nat, tail);
        assert(ports.first() == port);
        assert(ports.drop_first() =~= tail);
    } else {
        assert(payload =~= Seq::<u8>::empty());
    }
}

/// The encoded fields of a record with at most eight ports are short, and those of the ports are a
/// part of them.
proof fn lemma_fields(wire: WireNameRecordView)
    ensures
        wire.ports.len() <= record::MAX_PORTS ==> wire.fields_rlp().len() <= 200,
        encoding::concat::<Port>(wire.ports).len() <= wire.fields_rlp().len(),
{
    lemma_ports_size(wire.ports);
    wire.ip.lemma_bytes();
    let ports = encoding::concat::<Port>(wire.ports);
    rlp::lemma_be_len(ports.len());
    rlp::lemma_uint_len(wire.capabilities as nat);
    rlp::lemma_uint_len(wire.seq as nat);
}

/// Four parts and a tail make the same whole from either end, and the parts are its beginning.
proof fn lemma_four_parts(a: Seq<u8>, b: Seq<u8>, c: Seq<u8>, d: Seq<u8>, tail: Seq<u8>)
    ensures
        a + b + c + d + tail == a + (b + (c + (d + tail))),
        (a + b + c + d).is_prefix_of(a + b + c + d + tail),
{
    assert(a + b + c + d + tail =~= a + (b + (c + (d + tail))));
    let whole = a + b + c + d + tail;
    assert(a + b + c + d =~= whole.subrange(0, (a + b + c + d).len() as int));
}

/// The fields of a record are read back as they were written, whatever follows them in the list:
/// that is left unread. Only too many ports are refused.
pub proof fn wire_fields_round_trip(wire: WireNameRecordView, extra: Seq<u8>)
    requires
        wire.fields_rlp().len() <= u64::MAX,
    ensures
        record::wire_fields(wire.fields_rlp() + extra) == if wire.ports.len() <= record::MAX_PORTS {
            Ok::<WireNameRecordView, DecodeError>(wire)
        } else {
            Err::<WireNameRecordView, DecodeError>(DecodeError::TooManyItems)
        },
{
    lemma_fields(wire);
    let ports = encoding::concat::<Port>(wire.ports);
    let s0 = wire.fields_rlp() + extra;
    let s3 = rlp::uint(wire.seq as nat) + extra;
    let s2 = rlp::uint(wire.capabilities as nat) + s3;
    let s1 = rlp::item(true, ports) + s2;
    lemma_four_parts(
        rlp::item(false, wire.ip.bytes()),
        rlp::item(true, ports),
        rlp::uint(wire.capabilities as nat),
        rlp::uint(wire.seq as nat),
        extra,
    );
    assert(s0 == rlp::item(false, wire.ip.bytes()) + s1);
    wire.ip.lemma_bytes();
    rlp::lemma_item_then(false, wire.ip.bytes(), s1);
    rlp::lemma_item_then(true, ports, s2);
    ports_round_trip(wire.ports, record::MAX_PORTS as nat);
    rlp::lemma_uint_then(wire.capabilities as nat, u64::MAX as nat, s3);
    rlp::lemma_uint_then(wire.seq as nat, u64::MAX as nat, extra);
}

/// A record on the wire with at most eight ports is read back as it was written, whatever follows
/// it.
pub proof fn wire_round_trip(wire: WireNameRecordView, rest: Seq<u8>)
    requires
        wire.ports.len() <= record::MAX_PORTS,
    ensures
        WireNameRecord::decoded(WireNameRecord::rlp(wire) + rest) == (
            Ok::<WireNameRecordView, DecodeError>(wire),
            rest,
        ),
{
    lemma_fields(wire);
    rlp::lemma_item_then(true, wire.fields_rlp(), rest);
    wire_fields_round_trip(wire, Seq::empty());
    assert(wire.fields_rlp() + Seq::<u8>::empty() =~= wire.fields_rlp());
}

/// A written record with more than eight ports is refused, as long as the format has an encoding
/// for it at all.
pub proof fn too_many_ports_refused(wire: WireNameRecordView, rest: Seq<u8>)
    requires
        wire.ports.len() > record::MAX_PORTS,
        wire.fields_rlp().len() <= u64::MAX,
    ensures
        WireNameRecord::decoded(WireNameRecord::rlp(wire) + rest) == (
            Err::<WireNameRecordView, DecodeError>(DecodeError::TooManyItems),
            rest,
        ),
        NameRecord::decoded(WireNameRecord::rlp(wire) + rest) == (
            Err::<NameRecordView, DecodeError>(DecodeError::TooManyItems),
            rest,
        ),
{
    rlp::lemma_item_then(true, wire.fields_rlp(), rest);
    wire_fields_round_trip(wire, Seq::empty());
    assert(wire.fields_rlp() + Seq::<u8>::empty() =~= wire.fields_rlp());
}

/// Bytes that follow the fields inside the list are skipped: the record is read as if they were not
/// there.
pub proof fn bytes_behind_fields_skipped(
    wire: WireNameRecordView,
    extra: Seq<u8>,
    rest: Seq<u8>,
)
    requires
        wire.ports.len() <= record::MAX_PORTS,
        wire.fields_rlp().len() + extra.len() <= u64::MAX,
    ensures
        WireNameRecord::decoded(rlp::item(true, wire.fields_rlp() + extra) + rest)
            == WireNameRecord::decoded(WireNameRecord::rlp(wire) + rest),
        NameRecord::decoded(rlp::item(true, wire.fields_rlp() + extra) + rest)
            == NameRecord::decoded(WireNameRecord::rlp(wire) + rest),
{
    wire_round_trip(wire, rest);
    rlp::lemma_item_then(true, wire.fields_rlp() + extra, rest);
    wire_fields_round_trip(wire, extra);
}

/// A name record is read back as it was written, whatever follows it.
pub proof fn name_record_round_trip(v: NameRecordView, rest: Seq<u8>)
    requires
        v.wf(),
    ensures
        NameRecord::decoded(NameRecord::rlp(v) + rest) == (
            Ok::<NameRecordView, DecodeError>(v),
            rest,
        ),
{
    wire_round_trip(v.wire, rest);
}

/// A written record with two ports of the same tag is refused.
pub proof fn duplicate_tag_refused(wire: WireNameRecordView, i: int, j: int, rest: Seq<u8>)
    requires
        wire.ports.len() <= record::MAX_PORTS,
        0 <= i < j < wire.ports.len(),
        wire.ports[i].tag == wire.ports[j].tag,
    ensures
        NameRecord::decoded(WireNameRecord::rlp(wire) + rest) == (
            Err::<NameRecordView, DecodeError>(DecodeError::DuplicatePortTag),
            rest,
        ),
{
    wire_round_trip(wire, rest);
}

/// A written record without a TCP port is refused.
pub proof fn missing_tcp_port_refused(wire: WireNameRecordView, rest: Seq<u8>)
    requires
        wire.ports.len() <= record::MAX_PORTS,
        record::distinct_tags(wire.ports),
        forall|i: int|
            0 <= i < wire.ports.len() ==> (#[trigger] wire.ports[i]).tag != PortTag::TCP.code(),
    ensures
        NameRecord::decoded(WireNameRecord::rlp(wire) + rest) == (
            Err::<NameRecordView, DecodeError>(DecodeError::MissingTcpPort),
            rest,
        ),
{
    wire_round_trip(wire, rest);
}

/// A written record with a TCP port and without a UDP port is refused.
pub proof fn missing_udp_port_refused(wire: WireNameRecordView, tcp: int, rest: Seq<u8>)
    requires
        wire.ports.len() <= record::MAX_PORTS,
        record::distinct_tags(wire.ports),
        record::has_tag_at(wire.ports, PortTag::TCP, tcp),
        forall|i: int|
            0 <= i < wire.ports.len() ==> (#[trigger] wire.ports[i]).tag != PortTag::UDP.code(),
    ensures
        NameRecord::decoded(WireNameRecord::rlp(wire) + rest) == (
            Err::<NameRecordView, DecodeError>(DecodeError::MissingUdpPort),
            rest,
        ),
{
    wire_round_trip(wire, rest);
    record::lemma_port_with_tag(wire.ports, PortTag::TCP, tcp);
}

/// Every other written record with at most eight ports is read as a name record. It has these TCP
/// and UDP ports, and keeps ports with unknown tags and all capabilities as they are.
pub proof fn unknown_ports_kept(wire: WireNameRecordView, tcp: int, udp: int, rest: Seq<u8>)
    requires
        wire.ports.len() <= record::MAX_PORTS,
        record::distinct_tags(wire.ports),
        record::has_tag_at(wire.ports, PortTag::TCP, tcp),
        record::has_tag_at(wire.ports, PortTag::UDP, udp),
    ensures
        NameRecord::decoded(WireNameRecord::rlp(wire) + rest) == (
            Ok::<NameRecordView, DecodeError>(
                NameRecordView {
                    wire,
                    tcp_port: wire.ports[tcp].port,
                    udp_port: wire.ports[udp].port,
                },
            ),
            rest,
        ),
{
    wire_round_trip(wire, rest);
    record::lemma_port_with_tag(wire.ports, PortTag::TCP, tcp);
    record::lemma_port_with_tag(wire.ports, PortTag::UDP, udp);
}

/// The encoding of a name record is that of its record on the wire, and read as such it gives
/// that record.
pub proof fn name_record_as_wire(v: NameRecordView, rest: Seq<u8>)
    requires
        v.wf(),
    ensures
        NameRecord::rlp(v) == WireNameRecord::rlp(v.wire),
        WireNameRecord::decoded(NameRecord::rlp(v) + rest) == (
            Ok::<WireNameRecordView, DecodeError>(v.wire),
            rest,
        ),
{
    wire_round_trip(v.wire, rest);
}

/// A record on the wire is read only from a list that begins with its encoded fields, and has at
/// most eight ports.
pub proof fn wire_read(input: Seq<u8>, wire: WireNameRecordView, rest: Seq<u8>)
    requires
        WireNameRecord::decoded(input) == (Ok::<WireNameRecordView, DecodeError>(wire), rest),
    ensures
        wire.ports.len() <= record::MAX_PORTS,
        rlp::list_at(input) matches Some((payload, after)) && {
            &&& input == rlp::item(true, payload) + rest
            &&& wire.fields_rlp().is_prefix_of(payload)
        },
{
    let (payload, after) = rlp::list_at(input)->0;
    rlp::lemma_item_at_front(input, true, payload);
    let (octets, s1) = rlp::octets_at(payload)->0;
    rlp::lemma_item_at_front(payload, false, octets);
    Ipv4Addr::lemma_with_bytes(octets);
    let (elements, s2) = rlp::list_at(s1)->0;
    rlp::lemma_item_at_front(s1, true, elements);
    ports_canonical(elements, record::MAX_PORTS as nat, wire.ports);
    encoding::lemma_items_len::<Port>(elements, record::MAX_PORTS as nat);
    let (capabilities, s3) = rlp::uint_at(s2, u64::MAX as nat)->0;
    rlp::lemma_uint_at_front(s2, u64::MAX as nat, capabilities, s3);
    let (seq, unread) = rlp::uint_at(s3, u64::MAX as nat)->0;
    rlp::lemma_uint_at_front(s3, u64::MAX as nat, seq, unread);
    lemma_four_parts(
        rlp::item(false, octets),
        rlp::item(true, elements),
        rlp::uint(capabilities),
        rlp::uint(seq),
        unread,
    );
    assert(payload == wire.fields_rlp() + unread);
}

/// A name record is read only from a list that begins with its encoded fields, and every name
/// record that is read is well formed.
pub proof fn name_record_read(input: Seq<u8>, v: NameRecordView, rest: Seq<u8>)
    requires
        NameRecord::decoded(input) == (Ok::<NameRecordView, DecodeError>(v), rest),
    ensures
        v.wf(),
        rlp::list_at(input) matches Some((payload, after)) && {
            &&& input == rlp::item(true, payload) + rest
            &&& v.wire.fields_rlp().is_prefix_of(payload)
        },
{
    wire_read(input, v.wire, rest);
}

/// A name record that is read from a list in which nothing follows its fields is written as the
/// input that it was read from.
pub proof fn name_record_canonical(
    input: Seq<u8>,
    payload: Seq<u8>,
    v: NameRecordView,
    rest: Seq<u8>,
)
    requires
        NameRecord::decoded(input) == (Ok::<NameRecordView, DecodeError>(v), rest),
        rlp::list_at(input) == Some((payload, rest)),
        payload.len() == v.wire.fields_rlp().len(),
    ensures
        input == NameRecord::rlp(v) + rest,
{
    name_record_read(input, v, rest);
    assert(payload =~= v.wire.fields_rlp());
}

/// The beginning of a list, short of the whole, is refused because the input ends too early.
pub proof fn truncated_list_refused(payload: Seq<u8>, n: int)
    requires
        payload.len() <= usize::MAX,
        0 <= n < rlp::item(true, payload).len(),
    ensures
        rlp::item_at(rlp::item(true, payload).take(n)) is None,
        codec::header_failure(rlp::item(true, payload).take(n)).0 == RlpError::InputTooShort,
{
    rlp::lemma_truncated_item(true, payload, n);
    let whole = rlp::item(true, payload);
    let s = whole.take(n);
    if n > 0 && payload.len() >= 56 {
        let digits = rlp::be_bytes(payload.len());
        rlp::lemma_be_len(payload.len());
        rlp::lemma_be_first(payload.len());
        rlp::lemma_be_round_trip(payload.len());
        let k: int = digits.len() as int;
        assert(s[0] == 0xF7 + k);
        if s.skip(1).len() >= k {
            assert(s.skip(1).take(k) =~= digits);
        }
    }
}

/// The beginning of a written port, short of the whole, is never accepted.
pub proof fn truncated_port_refused(port: Port, n: int)
    requires
        0 <= n < Port::rlp(port).len(),
    ensures
        Port::decoded(Port::rlp(port).take(n)).0 == Err::<Port, DecodeError>(
            DecodeError::Rlp(RlpError::InputTooShort),
        ),
{
    rlp::lemma_uint_len(port.tag as nat);
    rlp::lemma_uint_len(port.port as nat);
    truncated_list_refused(rlp::uint(port.tag as nat) + rlp::uint(port.port as nat), n);
}

/// The beginning of a written record, short of the whole, is never accepted, neither as a record on
/// the wire nor as a name record.
pub proof fn truncated_record_refused(wire: WireNameRecordView, n: int)
    requires
        wire.fields_rlp().len() <= usize::MAX,
        0 <= n < WireNameRecord::rlp(wire).len(),
    ensures
        WireNameRecord::decoded(WireNameRecord::rlp(wire).take(n)).0 == Err::<
            WireNameRecordView,
            DecodeError,
        >(DecodeError::Rlp(RlpError::InputTooShort)),
        NameRecord::decoded(WireNameRecord::rlp(wire).take(n)).0 == Err::<
            NameRecordView,
            DecodeError,
        >(DecodeError::Rlp(RlpError::InputTooShort)),
{
    truncated_list_refused(wire.fields_rlp(), n);
}

/// The beginning of a written signed record, short of the whole, is refused before its signature is
/// read.
pub proof fn truncated_signed_record_refused(v: NameRecordView, signature_rlp: Seq<u8>, n: int)
    requires
        NameRecord::rlp(v).len() + signature_rlp.len() <= usize::MAX,
        0 <= n < rlp::item(true, NameRecord::rlp(v) + signature_rlp).len(),
    ensures
        ({
            let input = rlp::item(true, NameRecord::rlp(v) + signature_rlp).take(n);
            signed::signed_prefix(input).0 == Err::<signed::SignedPrefix, DecodeError>(
                DecodeError::Rlp(RlpError::InputTooShort),
            )
        }),
{
    truncated_list_refused(NameRecord::rlp(v) + signature_rlp, n);
}

/// Raising the limit of a list keeps the elements that were read, and every error but that there
/// are too many.
pub proof fn raised_limit_keeps_result<T: Decodable>(payload: Seq<u8>, limit: nat, higher: nat)
    requires
        limit <= higher,
        encoding::items::<T>(payload, limit) != Err::<Seq<T::V>, DecodeError>(
            DecodeError::TooManyItems,
        ),
    ensures
        encoding::items::<T>(payload, higher) == encoding::items::<T>(payload, limit),
    decreases limit,
{
    if payload.len() > 0 && limit > 0 {
        let (outcome, rest) = T::decoded(payload);
        if outcome is Ok {
            raised_limit_keeps_result::<T>(rest, (limit - 1) as nat, (higher - 1) as nat);
        }
    }
}

/// A limit below the number of elements gives the error that there are too many.
pub proof fn low_limit_refuses<T: Decodable>(
    payload: Seq<u8>,
    limit: nat,
    higher: nat,
    vs: Seq<T::V>,
)
    requires
        encoding::items::<T>(payload, higher) == Ok::<Seq<T::V>, DecodeError>(vs),
        limit < vs.len(),
    ensures
        encoding::items::<T>(payload, limit) == Err::<Seq<T::V>, DecodeError>(
            DecodeError::TooManyItems,
        ),
    decreases limit,
{
    if limit > 0 {
        let (outcome, rest) = T::decoded(payload);
        let tail = encoding::items::<T>(rest, (higher - 1) as nat)->Ok_0;
        low_limit_refuses::<T>(rest, (limit - 1) as nat, (higher - 1) as nat, tail);
    }
}

/// The number of ports whose tag is encoded in one byte.
spec fn short_tags(ports: Seq<Port>) -> nat
    decreases ports.len(),
{
    if ports.len() == 0 {
        0
    } else {
        (if ports.first().tag < 0x80 {
            1nat
        } else {
            0nat
        }) + short_tags(ports.drop_first())
    }
}

/// A port takes three to six bytes, at most five if its tag is encoded in one.
proof fn lemma_ports_size(ports: Seq<Port>)
    ensures
        3 * ports.len() <= encoding::concat::<Port>(ports).len(),
        encoding::concat::<Port>(ports).len() + short_tags(ports) <= 6 * ports.len(),
    decreases ports.len(),
{
    if ports.len() > 0 {
        let port = ports.first();
        rlp::lemma_uint_len(port.tag as nat);
        rlp::lemma_uint_len(port.port as nat);
        rlp::lemma_list_len(rlp::uint(port.tag as nat) + rlp::uint(port.port as nat));
        lemma_ports_size(ports.drop_first());
    }
}

/// One port with a short tag counts.
proof fn lemma_one_short_tag(ports: Seq<Port>, i: int)
    requires
        0 <= i < ports.len(),
        ports[i].tag < 0x80,
    ensures
        short_tags(ports) >= 1,
    decreases ports.len(),
{
    if i > 0 {
        lemma_one_short_tag(ports.drop_first(), i - 1);
    }
}

/// Two ports with short tags count twice.
proof fn lemma_two_short_tags(ports: Seq<Port>, i: int, j: int)
    requires
        0 <= i < j < ports.len(),
        ports[i].tag < 0x80,
        ports[j].tag < 0x80,
    ensures
        short_tags(ports) >= 2,
    decreases ports.len(),
{
    if i > 0 {
        lemma_two_short_tags(ports.drop_first(), i - 1, j - 1);
    } else {
        lemma_one_short_tag(ports.drop_first(), j - 1);
    }
}

/// A written name record has 15 to 72 bytes; with no other ports than the TCP and the UDP port, as
/// `NameRecord::new` makes it, it has at most 35.
pub proof fn name_record_size(v: NameRecordView)
    requires
        v.wf(),
    ensures
        15 <= NameRecord::rlp(v).len() <= 72,
        v.wire.ports.len() == 2 ==> NameRecord::rlp(v).len() <= 35,
{
    let ports = v.wire.ports;
    assert(record::port_with_tag(ports, PortTag::TCP) is Some);
    assert(record::port_with_tag(ports, PortTag::UDP) is Some);
    let i = choose|i: int| record::has_tag_at(ports, PortTag::TCP, i);
    let j = choose|j: int| record::has_tag_at(ports, PortTag::UDP, j);
    if i < j {
        lemma_two_short_tags(ports, i, j);
    } else {
        lemma_two_short_tags(ports, j, i);
    }
    lemma_ports_size(ports);
    rlp::lemma_list_len(encoding::concat::<Port>(ports));
    v.wire.ip.lemma_bytes();
    rlp::lemma_uint_len(v.wire.capabilities as nat);
    rlp::lemma_uint_len(v.wire.seq as nat);
    rlp::lemma_list_len(v.wire.fields_rlp());
}

/// No two name records have the same encoding.
pub proof fn name_record_encoding_injective(a: NameRecordView, b: NameRecordView)
    requires
        a.wf(),
        b.wf(),
        NameRecord::rlp(a) == NameRecord::rlp(b),
    ensures
        a == b,
{
    name_record_round_trip(a, Seq::empty());
    name_record_round_trip(b, Seq::empty());
}

/// A capability that is set is there, and setting it changes no other.
pub proof fn set_capability_then_check(bits: u64, index: u8, other: u8)
    requires
        index < 64,
        other < 64,
    ensures
        record::has_bit(record::with_bit(bits, index), index),
        other != index ==> record::has_bit(record::with_bit(bits, index), other) == record::has_bit(
            bits,
            other,
        ),
{
    assert((bits | (1u64 << index)) & (1u64 << index) != 0) by (bit_vector)
        requires
            index < 64,
    ;
    assert(other != index ==> ((bits | (1u64 << index)) & (1u64 << other) != 0) == (bits & (1u64
        << other) != 0)) by (bit_vector)
        requires
            index < 64,
            other < 64,
    ;
}

/// The capability at position `index` is the binary digit of that position: it is there if the
/// digit is 1, and setting it adds `2^index` unless it is there.
pub proof fn capabilities_are_binary_digits(bits: u64, index: u8)
    requires
        index < 64,
    ensures
        record::has_bit(bits, index) <==> (bits as nat / pow2(index as nat)) % 2 == 1,
        record::with_bit(bits, index) == bits + if (bits as nat / pow2(index as nat)) % 2 == 1 {
            0
        } else {
            pow2(index as nat)
        },
        forall|r: bool| #[trigger]
            call_ensures(record::test_bit, (bits, index), r) ==> (r <==> (bits as nat / pow2(
                index as nat,
            )) % 2 == 1),
        forall|r: u64| #[trigger]
            call_ensures(record::set_bit, (bits, index), r) ==> r == bits + if (bits as nat / pow2(
                index as nat,
            )) % 2 == 1 {
                0
            } else {
                pow2(index as nat)
            },
{
    let wide = index as u64;
    let shifted = bits >> wide;
    let bit = 1u64 << index;
    vstd::bits::lemma_u64_shr_is_div(bits, wide);
    vstd::bits::lemma_u64_pow2_no_overflow(index as nat);
    vstd::bits::lemma_u64_shl_is_mul(1, wide);
    assert(1u64 << wide == 1u64 << index) by (bit_vector)
        requires
            wide == index as u64,
    ;
    assert(bits & (1u64 << index) != 0 <==> (bits >> wide) % 2 == 1) by (bit_vector)
        requires
            index < 64,
            wide == index as u64,
    ;
    assert(bits & bit == 0 ==> bits | bit == bits + bit) by (bit_vector);
    assert(bits & bit != 0 ==> bits | bit == bits) by (bit_vector)
        requires
            index < 64,
            bit == 1u64 << index,
    ;
}

/// A record has a capability if the binary digit at its position is 1 in the record's capabilities.
/// Setting the capability makes that digit 1 and changes nothing else.
pub proof fn record_capabilities<'a>(capability: Capability, before: NameRecordView)
    requires
        capability.bit() < 64,
    ensures
        forall|name_record: NameRecord, r: bool|
            #[trigger] call_ensures(NameRecord::check_capability, (&name_record, capability), r)
                ==> (r <==> (name_record@.wire.capabilities as nat / pow2(capability.bit() as nat))
                % 2 == 1),
        forall|name_record: &'a mut NameRecord|
            #[trigger] call_ensures(NameRecord::set_capability, (name_record, capability), ())
                && name_record@ == before ==> {
                let after = final(name_record)@;
                &&& after.wire.ip == before.wire.ip
                &&& after.wire.ports == before.wire.ports
                &&& after.wire.seq == before.wire.seq
                &&& after.tcp_port == before.tcp_port
                &&& after.udp_port == before.udp_port
                &&& after.wire.capabilities == before.wire.capabilities + if (
                before.wire.capabilities as nat / pow2(capability.bit() as nat)) % 2 == 1 {
                    0
                } else {
                    pow2(capability.bit() as nat)
                }
            },
{
    assert forall|name_record: NameRecord, r: bool|
        #[trigger] call_ensures(
            NameRecord::check_capability,
            (&name_record, capability),
            r,
        ) implies (r <==> (name_record@.wire.capabilities as nat / pow2(capability.bit() as nat))
        % 2 == 1) by {
        capabilities_are_binary_digits(name_record@.wire.capabilities, capability.bit());
    }
    capabilities_are_binary_digits(before.wire.capabilities, capability.bit());
}

/// No two tags have the same number.
pub proof fn port_tag_code(tag: PortTag, other: PortTag)
    ensures
        tag.code() == other.code() ==> tag == other,
{
}

/// If a signature scheme recovers `pubkey` from every signature that `key` makes over a message,
/// then a record signed with `key` recovers to `pubkey`, and to nothing else.
pub proof fn signed_record_recovers<ST: CertificateSignatureRecoverable>(
    record: NameRecordView,
    key: &ST::KeyPairType,
    signature: ST,
    pubkey: ST::PubKeyType,
    r: Result<ST::PubKeyType, ST::Error>,
)
    requires
        forall|msg: &[u8], other: &[u8], s: ST, out: Result<ST::PubKeyType, ST::Error>|
            msg@ == other@ && #[trigger] call_ensures(
                ST::sign::<signing_domain::NameRecord>,
                (msg, key),
                s,
            ) && #[trigger] call_ensures(
                ST::recover_pubkey::<signing_domain::NameRecord>,
                (&s, other),
                out,
            ) ==> out == Ok::<ST::PubKeyType, ST::Error>(pubkey),
        signed::signed_with(record, key, signature),
        signed::recovered_from(record, signature, r),
    ensures
        r == Ok::<ST::PubKeyType, ST::Error>(pubkey),
{
}

/// A signed record is read back as it was written, whatever follows it, if its signature is.
pub proof fn signed_record_round_trip<'a, ST>(
    v: NameRecordView,
    signature: ST,
    signature_rlp: Seq<u8>,
    rest: &'a [u8],
    r: Result<MonadNameRecord<ST>, DecodeError>,
)
    requires
        v.wf(),
        NameRecord::rlp(v).len() + signature_rlp.len() <= u64::MAX,
    ensures
        ({
            let input = rlp::item(true, NameRecord::rlp(v) + signature_rlp) + rest@;
            let (prefix, left) = signed::signed_prefix(input);
            &&& left == signature_rlp + rest@
            &&& prefix matches Ok(prefix)
            &&& signed::signed_outcome(prefix, (Ok::<ST, RlpError>(signature), rest), r)
                <==> (r matches Ok(record) && record.name_record@ == v && record.signature
                == signature)
        }),
{
    let payload = NameRecord::rlp(v) + signature_rlp;
    let input = rlp::item(true, payload) + rest@;
    rlp::lemma_item_then(true, payload, rest@);
    let s0 = input.skip(rlp::item_header(true, payload).len() as int);
    assert(s0 =~= NameRecord::rlp(v) + (signature_rlp + rest@));
    name_record_round_trip(v, signature_rlp + rest@);
}

} // verus!
