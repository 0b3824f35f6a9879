use monad_peer_discovery::record::{set_bit, test_bit};
use monad_peer_discovery::{
    CertificateSignatureRecoverable, Decodable, DecodeError, Encodable, Ipv4Addr, MonadNameRecord,
    NameRecord, NodeId, Port, PortTag, RlpError, SigningDomain, SocketAddrV4, WireNameRecord,
};

/// Reads a dotted quad.
fn ip(s: &str) -> Ipv4Addr {
    let parts: Vec<u8> = s.split('.').map(|part| part.parse().unwrap()).collect();
    Ipv4Addr::new(parts[0], parts[1], parts[2], parts[3])
}

/// Reads a dotted quad with a port.
fn socket(s: &str) -> SocketAddrV4 {
    let (addr, port) = s.split_once(':').unwrap();
    SocketAddrV4::new(ip(addr), port.parse().unwrap())
}

fn encoded<T: Encodable>(value: &T) -> Vec<u8> {
    let mut out = Vec::new();
    value.encode(&mut out);
    out
}

fn rlp_error(error: alloy_rlp::Error) -> RlpError {
    match error {
        alloy_rlp::Error::InputTooShort => RlpError::InputTooShort,
        alloy_rlp::Error::UnexpectedList => RlpError::UnexpectedList,
        _ => RlpError::Custom("no string"),
    }
}

/// A scheme whose signatures hold the message and the key of the signer.
#[derive(Debug, Clone, PartialEq, Eq)]
struct PlainSignature {
    message: Vec<u8>,
    signer: Vec<u8>,
}

struct KeyPair {
    key: Vec<u8>,
}

impl KeyPair {
    fn from_ikm(ikm: &[u8]) -> KeyPair {
        KeyPair { key: ikm.to_vec() }
    }

    fn pubkey(&self) -> Vec<u8> {
        self.key.clone()
    }
}

impl CertificateSignatureRecoverable for PlainSignature {
    type KeyPairType = KeyPair;
    type PubKeyType = Vec<u8>;
    type Error = String;

    fn sign<SD: SigningDomain>(msg: &[u8], key: &KeyPair) -> Self {
        PlainSignature { message: msg.to_vec(), signer: key.pubkey() }
    }

    fn recover_pubkey<SD: SigningDomain>(&self, msg: &[u8]) -> Result<Vec<u8>, String> {
        if self.message == msg {
            Ok(self.signer.clone())
        } else {
            Err(format!("signed {} bytes, not these", self.message.len()))
        }
    }

    fn to_rlp(&self) -> Vec<u8> {
        let mut out = Vec::new();
        alloy_rlp::Encodable::encode(&self.message[..], &mut out);
        alloy_rlp::Encodable::encode(&self.signer[..], &mut out);
        out
    }

    fn from_rlp<'a>(input: &'a [u8]) -> (Result<Self, RlpError>, &'a [u8]) {
        let mut rest = input;
        let message = match alloy_rlp::Header::decode_bytes(&mut rest, false) {
            Ok(message) => message.to_vec(),
            Err(e) => return (Err(rlp_error(e)), rest),
        };
        let signer = match alloy_rlp::Header::decode_bytes(&mut rest, false) {
            Ok(signer) => signer.to_vec(),
            Err(e) => return (Err(rlp_error(e)), rest),
        };
        (Ok(PlainSignature { message, signer }), rest)
    }
}

#[test]
fn test_name_record_v4_rlp() {
    let name_record = NameRecord::new(ip("1.1.1.1"), 8000, 8001, 0, 2);

    let mut encoded = Vec::new();
    name_record.encode(&mut encoded);

    let result = NameRecord::decode(&mut encoded.as_slice());
    assert!(result.is_ok());
    assert_eq!(result.unwrap(), name_record);
}

#[test]
fn test_name_record_validation() {
    let name_record = NameRecord::new(ip("1.1.1.1"), 8000, 8001, 0, 1);

    assert_eq!(name_record.tcp_socket(), socket("1.1.1.1:8000"));
    assert_eq!(name_record.udp_socket(), socket("1.1.1.1:8001"));
}

#[test]
fn test_name_record_duplicate_port_validation() {
    let wire = WireNameRecord {
        ip: ip("1.1.1.1"),
        ports: vec![
            Port::new(PortTag::TCP, 8000),
            Port::new(PortTag::UDP, 8001),
            Port::new(PortTag::TCP, 8002),
        ],
        capabilities: 0,
        seq: 1,
    };

    let mut encoded = Vec::new();
    wire.encode(&mut encoded);

    let decoded = NameRecord::decode(&mut encoded.as_slice());
    assert!(decoded.is_err());
    assert_eq!(decoded, Err(DecodeError::DuplicatePortTag));
}

#[test]
fn test_name_record_missing_port_validation() {
    let wire = WireNameRecord {
        ip: ip("1.1.1.1"),
        ports: vec![Port::new(PortTag::TCP, 8000)],
        capabilities: 0,
        seq: 1,
    };

    let mut encoded = Vec::new();
    wire.encode(&mut encoded);

    let decoded = NameRecord::decode(&mut encoded.as_slice());
    assert!(decoded.is_err());
    assert_eq!(decoded, Err(DecodeError::MissingUdpPort));
}

#[test]
fn test_name_record_encode_snapshot() {
    let name_record = NameRecord::new(ip("192.168.1.1"), 8080, 8081, 0, 42);

    let mut encoded = Vec::new();
    name_record.encode(&mut encoded);
    let hex_encoded = hex::encode(&encoded);
    assert_eq!(hex_encoded, "d284c0a80101cac480821f90c401821f91802a");
}

#[test]
fn test_name_record_roundtrip() {
    let original = NameRecord::new(ip("172.16.0.1"), 7000, 7001, 255, 999);

    let mut encoded = Vec::new();
    original.encode(&mut encoded);

    let decoded = NameRecord::decode(&mut encoded.as_slice()).unwrap();
    assert_eq!(original, decoded);
}

#[test]
fn test_wire_name_record_compatibility() {
    let name_record = NameRecord::new(ip("127.0.0.1"), 8000, 8001, 0, 1);

    let mut encoded = Vec::new();
    name_record.encode(&mut encoded);

    let wire = WireNameRecord::decode(&mut encoded.as_slice()).unwrap();
    assert_eq!(wire.ports.len(), 2);
    assert_eq!(wire.ports[0].tag, PortTag::TCP as u8);
    assert_eq!(wire.ports[0].port, 8000);
    assert_eq!(wire.ports[1].tag, PortTag::UDP as u8);
    assert_eq!(wire.ports[1].port, 8001);
}

#[test]
fn test_name_record_with_unknown_ports_and_capabilities() {
    let wire = WireNameRecord {
        ip: ip("10.0.0.1"),
        ports: vec![
            Port::new(PortTag::TCP, 9000),
            Port::new(PortTag::UDP, 9001),
            Port { tag: 2, port: 9002 },
            Port { tag: 5, port: 9005 },
        ],
        capabilities: 7,
        seq: 100,
    };

    let mut wire_encoded = Vec::new();
    wire.encode(&mut wire_encoded);

    let decoded = NameRecord::decode(&mut wire_encoded.as_slice()).unwrap();

    assert_eq!(decoded.ip(), ip("10.0.0.1"));
    assert_eq!(decoded.tcp_port(), 9000);
    assert_eq!(decoded.udp_port(), 9001);
    assert_eq!(decoded.capabilities(), 7);
    assert_eq!(decoded.seq(), 100);

    let mut reencoded = Vec::new();
    decoded.encode(&mut reencoded);
    assert_eq!(wire_encoded, reencoded);

    let keypair = KeyPair::from_ikm(b"test keypair for signature veri");
    let signature = PlainSignature::sign::<monad_peer_discovery::signing_domain::NameRecord>(
        &wire_encoded,
        &keypair,
    );

    let signed_record = MonadNameRecord::<PlainSignature> { name_record: decoded, signature };

    let recovered_node_id = signed_record.recover_pubkey().unwrap();
    let expected_node_id = NodeId::new(keypair.pubkey());

    assert_eq!(recovered_node_id, expected_node_id);
}

#[test]
fn record_with_more_input_behind_it() {
    let name_record = NameRecord::new(ip("1.2.3.4"), 0, u16::MAX, u64::MAX, 0);
    let mut input = encoded(&name_record);
    input.extend_from_slice(&[0xff, 0x00]);

    let mut rest = input.as_slice();
    assert_eq!(NameRecord::decode(&mut rest), Ok(name_record));
    assert_eq!(rest, &[0xff, 0x00]);
}

#[test]
fn encoding_is_appended() {
    let name_record = NameRecord::new(ip("1.2.3.4"), 1, 2, 3, 4);
    let mut out = vec![9, 9];
    name_record.encode(&mut out);
    assert_eq!(&out[..2], &[9, 9]);
    assert_eq!(&out[2..], encoded(&name_record).as_slice());
}

#[test]
fn clone_is_equal() {
    let name_record = NameRecord::new(ip("1.2.3.4"), 1, 2, 3, 4);
    assert_eq!(name_record.clone(), name_record);
    let wire = WireNameRecord::decode(&mut encoded(&name_record).as_slice()).unwrap();
    assert_eq!(wire.clone(), wire);
}

#[test]
fn different_records_have_different_encodings() {
    let a = NameRecord::new(ip("1.2.3.4"), 1, 2, 3, 4);
    let b = NameRecord::new(ip("1.2.3.4"), 1, 2, 3, 5);
    assert_ne!(encoded(&a), encoded(&b));
}

fn wire_with_ports(n: u8) -> WireNameRecord {
    WireNameRecord {
        ip: ip("255.254.253.252"),
        ports: (0..n)
            .map(|i| Port { tag: if i < 2 { i } else { 200 + i }, port: 60000 + i as u16 })
            .collect(),
        capabilities: u64::MAX,
        seq: 0x0102_0304_0506_0708,
    }
}

#[test]
fn eight_ports_are_read() {
    let wire = wire_with_ports(8);
    let bytes = encoded(&wire);
    // The payload is longer than 55 bytes, so the length stands in a byte of its own.
    assert_eq!(bytes[0], 0xf8);
    assert_eq!(bytes[1] as usize, bytes.len() - 2);
    assert_eq!(WireNameRecord::decode(&mut bytes.as_slice()), Ok(wire.clone()));

    let name_record = NameRecord::decode(&mut bytes.as_slice()).unwrap();
    assert_eq!(name_record.tcp_port(), 60000);
    assert_eq!(name_record.udp_port(), 60001);
    assert_eq!(name_record.seq(), wire.seq);
    assert_eq!(encoded(&name_record), bytes);
}

#[test]
fn nine_ports_are_refused() {
    let bytes = encoded(&wire_with_ports(9));
    let mut rest = bytes.as_slice();
    assert_eq!(WireNameRecord::decode(&mut rest), Err(DecodeError::TooManyItems));
    assert!(rest.is_empty());
    assert_eq!(NameRecord::decode(&mut bytes.as_slice()), Err(DecodeError::TooManyItems));
}

#[test]
fn missing_tcp_port_is_refused() {
    let wire = WireNameRecord {
        ip: ip("1.1.1.1"),
        ports: vec![Port::new(PortTag::UDP, 8001), Port { tag: 9, port: 1 }],
        capabilities: 0,
        seq: 1,
    };
    let bytes = encoded(&wire);
    assert_eq!(NameRecord::decode(&mut bytes.as_slice()), Err(DecodeError::MissingTcpPort));

    let none = WireNameRecord { ports: vec![], ..wire };
    let bytes = encoded(&none);
    assert_eq!(NameRecord::decode(&mut bytes.as_slice()), Err(DecodeError::MissingTcpPort));
}

#[test]
fn repeated_unknown_tag_is_refused() {
    let wire = WireNameRecord {
        ip: ip("1.1.1.1"),
        ports: vec![
            Port::new(PortTag::TCP, 1),
            Port { tag: 7, port: 2 },
            Port::new(PortTag::UDP, 3),
            Port { tag: 7, port: 4 },
        ],
        capabilities: 0,
        seq: 1,
    };
    let bytes = encoded(&wire);
    assert_eq!(NameRecord::decode(&mut bytes.as_slice()), Err(DecodeError::DuplicatePortTag));
}

#[test]
fn bytes_behind_the_fields_are_left_unread() {
    let name_record = NameRecord::new(ip("192.168.1.1"), 8080, 8081, 0, 42);
    let mut input = hex::decode("d384c0a80101cac480821f90c401821f91802a05").unwrap();
    input.push(0x77);

    let mut rest = input.as_slice();
    let decoded = NameRecord::decode(&mut rest).unwrap();
    assert_eq!(decoded, name_record);
    assert_eq!(rest, &[0x77]);
    assert_eq!(hex::encode(encoded(&decoded)), "d284c0a80101cac480821f90c401821f91802a");
}

#[test]
fn broken_records_are_refused() {
    let cases: Vec<(&str, DecodeError)> = vec![
        ("", DecodeError::Rlp(RlpError::InputTooShort)),
        ("d284c0a8", DecodeError::Rlp(RlpError::InputTooShort)),
        ("84c0a80101", DecodeError::Rlp(RlpError::UnexpectedString)),
        ("f80184", DecodeError::Rlp(RlpError::NonCanonicalSize)),
        ("f800", DecodeError::Rlp(RlpError::LeadingZero)),
        ("c0", DecodeError::InvalidIpv4Address),
        ("c483c0a801", DecodeError::InvalidIpv4Address),
        ("c584c0a80101", DecodeError::Rlp(RlpError::InputTooShort)),
        ("c684c0a8010180", DecodeError::Rlp(RlpError::UnexpectedString)),
        ("c684c0a80101c0", DecodeError::Rlp(RlpError::InputTooShort)),
        ("c784c0a80101c000", DecodeError::Rlp(RlpError::LeadingZero)),
        ("c784c0a80101c080", DecodeError::Rlp(RlpError::InputTooShort)),
        ("c884c0a80101c080c0", DecodeError::Rlp(RlpError::UnexpectedList)),
        (
            "d084c0a80101c089010000000000000000",
            DecodeError::Rlp(RlpError::Overflow),
        ),
        ("c784c0a80101c105", DecodeError::Rlp(RlpError::UnexpectedString)),
        (
            "cb84c0a80101c5c301821f90",
            DecodeError::Rlp(RlpError::ListLengthMismatch { expected: 3, got: 4 }),
        ),
    ];
    for (input, error) in cases {
        let bytes = hex::decode(input).unwrap();
        assert_eq!(WireNameRecord::decode(&mut bytes.as_slice()), Err(error), "{}", input);
        assert_eq!(NameRecord::decode(&mut bytes.as_slice()), Err(error), "{}", input);
    }
}

#[test]
fn refused_record_is_passed_over() {
    let input = hex::decode("c483c0a80142").unwrap();
    let mut rest = input.as_slice();
    assert_eq!(NameRecord::decode(&mut rest), Err(DecodeError::InvalidIpv4Address));
    assert_eq!(rest, &[0x42]);
}

#[test]
fn capability_bits() {
    assert_eq!(set_bit(0, 0), 1);
    assert_eq!(set_bit(5, 1), 7);
    assert_eq!(set_bit(7, 2), 7);
    assert_eq!(set_bit(0, 63), 1 << 63);
    let bits = set_bit(0b1010, 5);
    let set: Vec<u8> = (0..64).filter(|index| test_bit(bits, *index)).collect();
    assert_eq!(set, vec![1, 3, 5]);
}

#[test]
fn truncated_records_are_refused() {
    let short = NameRecord::new(ip("1.2.3.4"), 1, 2, 3, 4);
    let long = wire_with_ports(8);
    for bytes in [encoded(&short), encoded(&long)] {
        for n in 0..bytes.len() {
            let error = DecodeError::Rlp(RlpError::InputTooShort);
            assert_eq!(WireNameRecord::decode(&mut &bytes[..n]), Err(error));
            assert_eq!(NameRecord::decode(&mut &bytes[..n]), Err(error));
        }
    }
}

#[test]
fn sizes_of_records() {
    assert_eq!(encoded(&NameRecord::new(ip("0.0.0.0"), 0, 0, 0, 0)).len(), 15);
    let largest = NameRecord::new(ip("9.9.9.9"), u16::MAX, u16::MAX, u64::MAX, u64::MAX);
    assert_eq!(encoded(&largest).len(), 35);
    assert_eq!(encoded(&wire_with_ports(8)).len(), 72);
}

#[test]
fn broken_numbers_are_refused() {
    // A sequence number, behind an address, no ports and no capabilities.
    let cases: Vec<(&str, RlpError)> = vec![
        ("c884c0a80101c08000", RlpError::LeadingZero),
        ("c984c0a80101c0808105", RlpError::NonCanonicalSingleByte),
        ("cb84c0a80101c080820005", RlpError::LeadingZero),
        ("d184c0a80101c08089ffffffffffffffffff", RlpError::Overflow),
        ("c884c0a80101c080c0", RlpError::UnexpectedList),
        ("c884c0a80101c08088", RlpError::InputTooShort),
    ];
    for (input, error) in cases {
        let mut bytes = hex::decode(input).unwrap();
        bytes[0] = 0xc0 + (bytes.len() - 1) as u8;
        let decoded = WireNameRecord::decode(&mut bytes.as_slice());
        assert_eq!(decoded, Err(DecodeError::Rlp(error)), "{}", input);
    }
}

#[test]
fn messages_of_the_errors() {
    assert_eq!(DecodeError::InvalidIpv4Address.message(), Some("Invalid IPv4 address"));
    assert_eq!(DecodeError::TooManyItems.message(), Some("Too many items in vector"));
    assert_eq!(DecodeError::DuplicatePortTag.message(), Some("duplicate port tag"));
    assert_eq!(DecodeError::MissingTcpPort.message(), Some("Missing TCP port"));
    assert_eq!(DecodeError::MissingUdpPort.message(), Some("Missing UDP port"));
    assert_eq!(DecodeError::Rlp(RlpError::UnexpectedString).message(), None);
}

#[test]
fn signed_record_recovers_its_signer() {
    let keypair = KeyPair::from_ikm(b"some key");
    let name_record = NameRecord::new(ip("1.2.3.4"), 5, 6, 7, 8);
    let signed = MonadNameRecord::<PlainSignature>::new(name_record.clone(), &keypair);

    assert_eq!(signed.name_record, name_record);
    assert_eq!(signed.signature.message, encoded(&name_record));
    assert_eq!(signed.recover_pubkey(), Ok(NodeId::new(keypair.pubkey())));
    assert_eq!(signed.address(), socket("1.2.3.4:5"));
    assert_eq!(signed.seq(), 8);
}

#[test]
fn signature_over_another_record_recovers_nothing() {
    let keypair = KeyPair::from_ikm(b"some key");
    let name_record = NameRecord::new(ip("1.2.3.4"), 5, 6, 7, 8);
    let signed = MonadNameRecord::<PlainSignature>::new(name_record, &keypair);
    let forged = MonadNameRecord {
        name_record: NameRecord::new(ip("1.2.3.4"), 5, 6, 7, 9),
        signature: signed.signature,
    };
    assert!(forged.recover_pubkey().is_err());
}

#[test]
fn signed_record_round_trip() {
    let keypair = KeyPair::from_ikm(b"some key");
    let name_record = NameRecord::new(ip("1.2.3.4"), 5, 6, 7, 8);
    let signed = MonadNameRecord::<PlainSignature>::new(name_record, &keypair);

    let mut bytes = vec![];
    signed.encode(&mut bytes);
    let mut payload = encoded(&signed.name_record);
    payload.extend(signed.signature.to_rlp());
    assert_eq!(bytes[0] as usize, 0xc0 + payload.len());
    assert_eq!(&bytes[1..], payload.as_slice());

    bytes.push(0x11);
    let mut rest = bytes.as_slice();
    let decoded = MonadNameRecord::<PlainSignature>::decode(&mut rest);
    assert_eq!(decoded, Ok(signed));
    assert_eq!(rest, &[0x11]);
}

#[test]
fn broken_signed_records_are_refused() {
    let cases: Vec<(&str, DecodeError)> = vec![
        ("", DecodeError::Rlp(RlpError::InputTooShort)),
        ("80", DecodeError::Rlp(RlpError::UnexpectedString)),
        ("c3c20102", DecodeError::InvalidIpv4Address),
        (
            "d3d284c0a80101cac480821f90c401821f91802a",
            DecodeError::Rlp(RlpError::InputTooShort),
        ),
        (
            "d6d284c0a80101cac480821f90c401821f91802a010203",
            DecodeError::Rlp(RlpError::ListLengthMismatch { expected: 22, got: 21 }),
        ),
        (
            "d4d284c0a80101cac480821f90c401821f91802a0102",
            DecodeError::Rlp(RlpError::ListLengthMismatch { expected: 20, got: 21 }),
        ),
    ];
    for (input, error) in cases {
        let bytes = hex::decode(input).unwrap();
        let decoded = MonadNameRecord::<PlainSignature>::decode(&mut bytes.as_slice());
        assert_eq!(decoded, Err(error), "{}", input);
    }
}
