//! The ports that a name record lists.
use crate::codec;
use crate::encoding;
use crate::encoding::{Decodable, Encodable};
use crate::error::{DecodeError, RlpError};
use crate::rlp;
use vstd::prelude::*;

verus! {

/// The tags that have a meaning.
#[derive(Clone, Copy, Debug, PartialEq, Eq, Hash)]
pub enum PortTag {
    /// The port for TCP.
    TCP,
    /// The port for UDP.
    UDP,
}

impl PortTag {
    /// The number that stands for the tag in a record.
    pub open spec fn code(self) -> u8 {
        match self {
            PortTag::TCP => 0,
            PortTag::UDP => 1,
        }
    }
}

/// A port and what it is for. Tags without a meaning are kept as they are.
#[derive(Clone, Copy, Debug, PartialEq, Eq)]
pub struct Port {
    /// What the port is for.
    pub tag: u8,
    /// The number of the port.
    pub port: u16,
}

impl View for Port {
    type V = Port;

    open spec fn view(&self) -> Port {
        *self
    }
}

impl Port {
    /// The port with the given tag.
    pub fn new(tag: PortTag, port: u16) -> (r: Self)
        ensures
            r == (Port { tag: tag.code(), port }),
    {
        let tag: u8 = match tag {
            PortTag::TCP => 0,
            PortTag::UDP => 1,
        };
        Port { tag, port }
    }

    /// The tag, where it has a meaning.
    pub fn tag_enum(&self) -> (r: Option<PortTag>)
        ensures
            forall|tag: PortTag| r == Some(tag) <==> #[trigger] tag.code() == self.tag,
    {
        match self.tag {
            0 => Some(PortTag::TCP),
            1 => Some(PortTag::UDP),
            _ => None,
        }
    }
}

impl Encodable for Port {
    /// The list of tag and port.
    open spec fn rlp(v: Port) -> Seq<u8> {
        rlp::item(true, rlp::uint(v.tag as nat) + rlp::uint(v.port as nat))
    }

    fn encode(&self, out: &mut Vec<u8>) {
        let mut payload: Vec<u8> = Vec::new();
        codec::encode_u8(self.tag, &mut payload);
        codec::encode_u16(self.port, &mut payload);
        let ghost before = out@;
        codec::encode_list_header(payload.len(), out);
        out.append(&mut payload);
        assert(out@ =~= before + Self::rlp(self@));
    }
}

impl Decodable for Port {
    /// A list of a tag and a port and nothing else. The two are read without regard to where the
    /// list ends, and then have to end where it does.
    open spec fn decoded(input: Seq<u8>) -> (Result<Port, DecodeError>, Seq<u8>) {
        match rlp::item_at(input) {
            None => encoding::refused(codec::header_failure(input)),
            Some((list, payload)) => {
                let s0 = input.skip(rlp::item_header(list, payload).len() as int);
                if !list {
                    (Err(DecodeError::Rlp(RlpError::UnexpectedString)), s0)
                } else {
                    match rlp::uint_at(s0, u8::MAX as nat) {
                        None => encoding::refused(codec::uint_failure(s0, 1)),
                        Some((tag, s1)) => match rlp::uint_at(s1, u16::MAX as nat) {
                            None => encoding::refused(codec::uint_failure(s1, 2)),
                            Some((port, s2)) => {
                                let got = s0.len() - s2.len();
                                if got == payload.len() {
                                    (Ok(Port { tag: tag as u8, port: port as u16 }), s2)
                                } else {
                                    (
                                        Err(
                                            DecodeError::Rlp(RlpError::ListLengthMismatch {
                                                expected: payload.len() as usize,
                                                got: got as usize,
                                            }),
                                        ),
                                        s2,
                                    )
                                }
                            },
                        },
                    }
                }
            },
        }
    }

    fn decode(buf: &mut &[u8]) -> (r: Result<Self, DecodeError>) {
        proof {
            codec::lemma_left_is_suffix(buf@, 0);
        }
        let (list, payload_length) = match codec::decode_header(buf) {
            Ok(header) => header,
            Err(e) => return Err(DecodeError::Rlp(e)),
        };
        proof {
            let (_, payload) = rlp::item_at(old(buf)@)->0;
            rlp::lemma_item_at_front(old(buf)@, list, payload);
        }
        if !list {
            return Err(DecodeError::Rlp(RlpError::UnexpectedString));
        }
        let started_len: usize = buf.len();
        let ghost s0 = buf@;
        let tag = codec::decode_u8(buf);
        let ghost s1 = buf@;
        proof {
            codec::lemma_left_is_suffix(s0, 1);
            if let Ok(tag) = tag {
                rlp::lemma_uint_at_front(s0, u8::MAX as nat, tag as nat, s1);
            }
            rlp::lemma_suffix_of_suffix(s1, s0, old(buf)@);
        }
        let tag: u8 = match tag {
            Ok(tag) => tag,
            Err(e) => return Err(DecodeError::Rlp(e)),
        };
        let port = codec::decode_u16(buf);
        proof {
            codec::lemma_left_is_suffix(s1, 2);
            if let Ok(port) = port {
                rlp::lemma_uint_at_front(s1, u16::MAX as nat, port as nat, buf@);
            }
            rlp::lemma_suffix_of_suffix(buf@, s1, old(buf)@);
        }
        let port: u16 = match port {
            Ok(port) => port,
            Err(e) => return Err(DecodeError::Rlp(e)),
        };
        let consumed: usize = started_len - buf.len();
        if consumed != payload_length {
            return Err(
                DecodeError::Rlp(
                    RlpError::ListLengthMismatch { expected: payload_length, got: consumed },
                ),
            );
        }
        Ok(Port { tag, port })
    }
}

} // verus!
