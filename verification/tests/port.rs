use monad_peer_discovery::encoding::{decode_vec_with_limit, encode_vec};
use monad_peer_discovery::{
    Decodable, DecodeError, Encodable, Ipv4Addr, Port, PortTag, RlpError, TimerKind,
};

fn encoded(port: Port) -> Vec<u8> {
    let mut out = Vec::new();
    port.encode(&mut out);
    out
}

#[test]
fn tags() {
    assert_eq!(Port::new(PortTag::TCP, 1), Port { tag: 0, port: 1 });
    assert_eq!(Port::new(PortTag::UDP, 2), Port { tag: 1, port: 2 });
    assert_eq!(Port::new(PortTag::TCP, 1).tag_enum(), Some(PortTag::TCP));
    assert_eq!(Port::new(PortTag::UDP, 1).tag_enum(), Some(PortTag::UDP));
    assert_eq!(Port { tag: 2, port: 1 }.tag_enum(), None);
    assert_eq!(Port { tag: 255, port: 1 }.tag_enum(), None);
}

#[test]
fn port_encodings() {
    assert_eq!(hex::encode(encoded(Port { tag: 0, port: 0 })), "c28080");
    assert_eq!(hex::encode(encoded(Port { tag: 1, port: 127 })), "c2017f");
    assert_eq!(hex::encode(encoded(Port { tag: 128, port: 128 })), "c481808180");
    assert_eq!(hex::encode(encoded(Port { tag: 255, port: 65535 })), "c581ff82ffff");
}

#[test]
fn port_round_trip() {
    for tag in [0, 1, 2, 127, 128, 255] {
        for port in [0, 1, 127, 128, 255, 256, 65535] {
            let mut bytes = encoded(Port { tag, port });
            bytes.push(0x33);
            let mut rest = bytes.as_slice();
            assert_eq!(Port::decode(&mut rest), Ok(Port { tag, port }));
            assert_eq!(rest, &[0x33]);
        }
    }
}

#[test]
fn broken_ports_are_refused() {
    let cases: Vec<(&str, DecodeError)> = vec![
        ("", DecodeError::Rlp(RlpError::InputTooShort)),
        ("8101", DecodeError::Rlp(RlpError::NonCanonicalSingleByte)),
        ("05", DecodeError::Rlp(RlpError::UnexpectedString)),
        ("c20001", DecodeError::Rlp(RlpError::LeadingZero)),
        ("c3810501", DecodeError::Rlp(RlpError::NonCanonicalSingleByte)),
        ("c482010001", DecodeError::Rlp(RlpError::Overflow)),
        ("c2c001", DecodeError::Rlp(RlpError::UnexpectedList)),
        ("c101", DecodeError::Rlp(RlpError::InputTooShort)),
        ("c20100", DecodeError::Rlp(RlpError::LeadingZero)),
        ("c50183010000", DecodeError::Rlp(RlpError::Overflow)),
        ("c3010203", DecodeError::Rlp(RlpError::ListLengthMismatch { expected: 3, got: 2 })),
        ("c10102", DecodeError::Rlp(RlpError::ListLengthMismatch { expected: 1, got: 2 })),
    ];
    for (input, error) in cases {
        let bytes = hex::decode(input).unwrap();
        assert_eq!(Port::decode(&mut bytes.as_slice()), Err(error), "{}", input);
    }
}

#[test]
fn what_a_refused_port_leaves() {
    let cases: Vec<(&str, RlpError, &str)> = vec![
        // Headers.
        ("", RlpError::InputTooShort, ""),
        ("81", RlpError::InputTooShort, ""),
        ("810577", RlpError::NonCanonicalSingleByte, "0577"),
        ("83aabb", RlpError::InputTooShort, "aabb"),
        ("b8", RlpError::InputTooShort, ""),
        ("b901", RlpError::InputTooShort, "01"),
        ("b90001aa", RlpError::LeadingZero, "aa"),
        ("b837aa", RlpError::NonCanonicalSize, "aa"),
        ("b838aa", RlpError::InputTooShort, "aa"),
        ("f8", RlpError::InputTooShort, ""),
        ("fbaabbcc", RlpError::InputTooShort, "aabbcc"),
        ("f9003876", RlpError::LeadingZero, "76"),
        ("f83776", RlpError::NonCanonicalSize, "76"),
        ("f83876", RlpError::InputTooShort, "76"),
        ("ff7f00000000000000aa", RlpError::InputTooShort, "aa"),
        ("c30101", RlpError::InputTooShort, "0101"),
        ("05ff", RlpError::UnexpectedString, "05ff"),
        ("82aabbcc", RlpError::UnexpectedString, "aabbcc"),
        // Tags.
        ("c0", RlpError::InputTooShort, ""),
        ("c20001", RlpError::LeadingZero, "0001"),
        ("c3810501", RlpError::NonCanonicalSingleByte, "810501"),
        ("c482010001", RlpError::Overflow, "01"),
        ("c3c10101", RlpError::UnexpectedList, "0101"),
        ("c183", RlpError::InputTooShort, ""),
        // Ports.
        ("c20100", RlpError::LeadingZero, "00"),
        ("c4018200ff", RlpError::LeadingZero, "8200ff"),
        ("c301810577", RlpError::NonCanonicalSingleByte, "810577"),
        ("c5018301000077", RlpError::Overflow, "77"),
        ("c201c077", RlpError::UnexpectedList, "77"),
        ("c30182aa", RlpError::InputTooShort, "aa"),
        // Ends.
        ("c3010203", RlpError::ListLengthMismatch { expected: 3, got: 2 }, "03"),
        ("c1010203", RlpError::ListLengthMismatch { expected: 1, got: 2 }, "03"),
    ];
    for (input, error, left) in cases {
        let bytes = hex::decode(input).unwrap();
        let mut rest = bytes.as_slice();
        assert_eq!(Port::decode(&mut rest), Err(DecodeError::Rlp(error)), "{}", input);
        assert_eq!(hex::encode(rest), left, "{}", input);
    }
}

#[test]
fn what_a_refused_list_leaves() {
    let cases: Vec<(&str, RlpError, &str)> = vec![
        ("", RlpError::InputTooShort, ""),
        ("05ff", RlpError::UnexpectedString, "05ff"),
        ("8180ff", RlpError::UnexpectedString, "80ff"),
        ("8105ff", RlpError::NonCanonicalSingleByte, "05ff"),
        ("c5aabb", RlpError::InputTooShort, "aabb"),
    ];
    for (input, error, left) in cases {
        let bytes = hex::decode(input).unwrap();
        let mut rest = bytes.as_slice();
        let decoded = decode_vec_with_limit::<Port>(&mut rest, 8);
        assert_eq!(decoded, Err(DecodeError::Rlp(error)), "{}", input);
        assert_eq!(hex::encode(rest), left, "{}", input);
    }
}

#[test]
fn truncated_ports_are_refused() {
    let bytes = encoded(Port { tag: 255, port: 65535 });
    for n in 0..bytes.len() {
        assert_eq!(
            Port::decode(&mut &bytes[..n]),
            Err(DecodeError::Rlp(RlpError::InputTooShort))
        );
    }
}

#[test]
fn lists_of_ports() {
    let ports = vec![Port { tag: 3, port: 4 }, Port { tag: 3, port: 5 }];
    let mut bytes = Vec::new();
    encode_vec(&ports, &mut bytes);
    assert_eq!(hex::encode(&bytes), "c6c20304c20305");
    bytes.push(0x44);

    let mut rest = bytes.as_slice();
    assert_eq!(decode_vec_with_limit::<Port>(&mut rest, 2), Ok(ports));
    assert_eq!(rest, &[0x44]);

    let mut rest = bytes.as_slice();
    assert_eq!(decode_vec_with_limit::<Port>(&mut rest, 1), Err(DecodeError::TooManyItems));
    assert_eq!(rest, &[0x44]);

    for limit in 2..10 {
        assert_eq!(decode_vec_with_limit::<Port>(&mut bytes.as_slice(), limit).unwrap().len(), 2);
    }

    let empty = [0xc0];
    assert_eq!(decode_vec_with_limit::<Port>(&mut &empty[..], 0), Ok(vec![]));
}

#[test]
fn addresses() {
    assert_eq!(Ipv4Addr::new(1, 2, 3, 4).octets(), [1, 2, 3, 4]);
    assert_eq!(Ipv4Addr::from_octets([1, 2, 3, 4]), Ipv4Addr::new(1, 2, 3, 4));
}

#[test]
fn timers_are_told_apart_by_lookup() {
    let first = TimerKind::RetryPeerLookup { lookup_id: 1 };
    let second = TimerKind::RetryPeerLookup { lookup_id: 2 };
    assert_ne!(first, second);
    assert_ne!(TimerKind::Refresh, TimerKind::SendPing);
}
