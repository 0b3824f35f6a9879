//! Name records with the signature of the node that they belong to.
use crate::addr::SocketAddrV4;
use crate::codec;
use crate::encoding;
use crate::encoding::{Decodable, Encodable};
use crate::error::{DecodeError, RlpError};
use crate::record::{NameRecord, NameRecordView};
use crate::rlp;
use crate::signing_domain;
use vstd::prelude::*;

verus! {

/// A kind of message that is signed. A signature over a message of one kind is none over a message
/// of another.
pub trait SigningDomain {

}

/// A signature from which the key of the signer can be recovered. Nothing is required of a
/// signature scheme here: what this module states holds of every one.
pub trait CertificateSignatureRecoverable: Sized {
    /// The keys that sign.
    type KeyPairType;

    /// The keys that identify a signer.
    type PubKeyType;

    /// Why no key can be recovered.
    type Error;

    /// Signs a message of the given kind.
    fn sign<SD: SigningDomain>(msg: &[u8], key: &Self::KeyPairType) -> Self;

    /// The key of whoever made this signature over a message of the given kind.
    fn recover_pubkey<SD: SigningDomain>(&self, msg: &[u8]) -> Result<
        Self::PubKeyType,
        Self::Error,
    >;

    /// The RLP encoding of the signature.
    fn to_rlp(&self) -> Vec<u8>;

    /// Reads a signature from the front of the input; gives it, or why there is none, with what is
    /// left of the input.
    fn from_rlp<'a>(input: &'a [u8]) -> (Result<Self, RlpError>, &'a [u8]);
}

/// The identity of a node: its public key.
#[derive(Copy, Debug, PartialEq, Eq, Hash, PartialOrd, Ord)]
pub struct NodeId<P> {
    /// The key.
    pub pubkey: P,
}

impl<P: Clone> Clone for NodeId<P> {
    fn clone(&self) -> (r: Self)
        ensures
            cloned(self.pubkey, r.pubkey),
    {
        NodeId { pubkey: self.pubkey.clone() }
    }
}

impl<P> NodeId<P> {
    /// The node with this key.
    pub fn new(pubkey: P) -> (r: Self)
        ensures
            r.pubkey == pubkey,
    {
        NodeId { pubkey }
    }

    /// The node whose key was recovered, if one was.
    pub fn from_recovered<E>(recovered: Result<P, E>) -> (r: Result<Self, E>)
        ensures
            match recovered {
                Ok(pubkey) => r == Ok::<Self, E>(NodeId { pubkey }),
                Err(e) => r == Err::<Self, E>(e),
            },
    {
        match recovered {
            Ok(pubkey) => Ok(NodeId::new(pubkey)),
            Err(e) => Err(e),
        }
    }
}

/// A name record and a signature over its encoding.
#[derive(Debug, PartialEq, Eq)]
pub struct MonadNameRecord<ST> {
    /// The record.
    pub name_record: NameRecord,
    /// The signature.
    pub signature: ST,
}

impl<ST: Clone> Clone for MonadNameRecord<ST> {
    fn clone(&self) -> (r: Self)
        ensures
            r.name_record@ == self.name_record@,
            cloned(self.signature, r.signature),
    {
        MonadNameRecord {
            name_record: self.name_record.clone(),
            signature: self.signature.clone(),
        }
    }
}

/// `signature` is what signing the encoding of the record with `key` gave.
pub open spec fn signed_with<ST: CertificateSignatureRecoverable>(
    record: NameRecordView,
    key: &ST::KeyPairType,
    signature: ST,
) -> bool {
    exists|msg: &[u8]|
        {
            &&& msg@ == NameRecord::rlp(record)
            &&& #[trigger] call_ensures(
                ST::sign::<signing_domain::NameRecord>,
                (msg, key),
                signature,
            )
        }
}

/// `r` is what recovering the signer of the encoding of the record from `signature` gave.
pub open spec fn recovered_from<ST: CertificateSignatureRecoverable>(
    record: NameRecordView,
    signature: ST,
    r: Result<ST::PubKeyType, ST::Error>,
) -> bool {
    exists|msg: &[u8]|
        {
            &&& msg@ == NameRecord::rlp(record)
            &&& #[trigger] call_ensures(
                ST::recover_pubkey::<signing_domain::NameRecord>,
                (&signature, msg),
                r,
            )
        }
}

/// `out` is what reading a signature from `input` gave: the signature or an error, and what is
/// left.
pub open spec fn signature_read<'a, ST: CertificateSignatureRecoverable>(
    input: Seq<u8>,
    out: (Result<ST, RlpError>, &'a [u8]),
) -> bool {
    exists|bytes: &'a [u8]|
        bytes@ == input && #[trigger] call_ensures(ST::from_rlp, (bytes,), out)
}

/// What reading a signature leaves is never longer than the input.
pub open spec fn reads_forward<'a, ST: CertificateSignatureRecoverable>() -> bool {
    forall|bytes: &'a [u8], out: (Result<ST, RlpError>, &'a [u8])| #[trigger]
        call_ensures(ST::from_rlp, (bytes,), out) ==> out.1@.len() <= bytes@.len()
}

/// The part of a signed record in front of the signature.
pub struct SignedPrefix {
    /// The length of the whole list, as its header gives it.
    pub payload_length: nat,
    /// What follows that header.
    pub payload: Seq<u8>,
    /// The record.
    pub name_record: NameRecordView,
}

/// The part of a signed record in front of the signature that the input begins with, or why there
/// is none, and what is left of the input.
pub open spec fn signed_prefix(input: Seq<u8>) -> (Result<SignedPrefix, DecodeError>, Seq<u8>) {
    match rlp::item_at(input) {
        None => encoding::refused(codec::header_failure(input)),
        Some((list, payload)) => {
            let s0 = input.skip(rlp::item_header(list, payload).len() as int);
            if !list {
                (Err(DecodeError::Rlp(RlpError::UnexpectedString)), s0)
            } else {
                let (name_record, rest) = NameRecord::decoded(s0);
                match name_record {
                    Err(e) => (Err(e), rest),
                    Ok(name_record) => (
                        Ok(
                            SignedPrefix {
                                payload_length: payload.len(),
                                payload: s0,
                                name_record,
                            },
                        ),
                        rest,
                    ),
                }
            }
        },
    }
}

/// `r` is what follows from the part in front of the signature and from what reading the signature
/// gave: the signature's error, or the record, provided that record and signature make up the list.
pub open spec fn signed_outcome<'a, ST>(
    prefix: SignedPrefix,
    out: (Result<ST, RlpError>, &'a [u8]),
    r: Result<MonadNameRecord<ST>, DecodeError>,
) -> bool {
    match out.0 {
        Err(e) => r == Err::<MonadNameRecord<ST>, DecodeError>(DecodeError::Rlp(e)),
        Ok(signature) => {
            let got = prefix.payload.len() - out.1@.len();
            if got == prefix.payload_length {
                r matches Ok(record) && record.name_record@ == prefix.name_record
                    && record.signature == signature
            } else {
                r == Err::<MonadNameRecord<ST>, DecodeError>(
                    DecodeError::Rlp(RlpError::ListLengthMismatch {
                        expected: prefix.payload_length as usize,
                        got: got as usize,
                    }),
                )
            }
        },
    }
}

impl<ST: CertificateSignatureRecoverable> MonadNameRecord<ST> {
    /// Signs the encoding of the record with `key`.
    pub fn new(name_record: NameRecord, key: &ST::KeyPairType) -> (r: Self)
        ensures
            r.name_record == name_record,
            signed_with(name_record@, key, r.signature),
    {
        let mut encoded: Vec<u8> = Vec::new();
        name_record.encode(&mut encoded);
        assert(encoded@ =~= NameRecord::rlp(name_record@));
        let signature = ST::sign::<signing_domain::NameRecord>(encoded.as_slice(), key);
        MonadNameRecord { name_record, signature }
    }

    /// The node that signed the record, as far as the signature scheme recovers one.
    pub fn recover_pubkey(&self) -> (r: Result<NodeId<ST::PubKeyType>, ST::Error>)
        ensures
            match r {
                Ok(id) => recovered_from(
                    self.name_record@,
                    self.signature,
                    Ok::<ST::PubKeyType, ST::Error>(id.pubkey),
                ),
                Err(e) => recovered_from(
                    self.name_record@,
                    self.signature,
                    Err::<ST::PubKeyType, ST::Error>(e),
                ),
            },
    {
        let mut encoded: Vec<u8> = Vec::new();
        self.name_record.encode(&mut encoded);
        assert(encoded@ =~= NameRecord::rlp(self.name_record@));
        let recovered = self.signature.recover_pubkey::<signing_domain::NameRecord>(
            encoded.as_slice(),
        );
        NodeId::from_recovered(recovered)
    }

    /// Where the node is reached over TCP.
    pub fn address(&self) -> (r: SocketAddrV4)
        ensures
            r == (SocketAddrV4 {
                ip: self.name_record@.wire.ip,
                port: self.name_record@.tcp_port,
            }),
    {
        self.name_record.tcp_socket()
    }

    /// The sequence number of the record.
    pub fn seq(&self) -> (r: u64)
        ensures
            r == self.name_record@.wire.seq,
    {
        self.name_record.seq()
    }

    /// Appends the list of the record and the signature to `out`.
    pub fn encode(&self, out: &mut Vec<u8>)
        ensures
            exists|signature: Vec<u8>|
                {
                    &&& #[trigger] call_ensures(ST::to_rlp, (&self.signature,), signature)
                    &&& final(out)@ == old(out)@ + rlp::item(
                        true,
                        NameRecord::rlp(self.name_record@) + signature@,
                    )
                },
    {
        let ghost before = out@;
        let mut payload: Vec<u8> = Vec::new();
        self.name_record.encode(&mut payload);
        let mut signature = self.signature.to_rlp();
        let ghost written = signature;
        payload.append(&mut signature);
        codec::encode_list_header(payload.len(), out);
        out.append(&mut payload);
        assert(out@ =~= before + rlp::item(
            true,
            NameRecord::rlp(self.name_record@) + written@,
        ));
    }

    /// The signed record, once its signature was read, or why there is none: reading the signature
    /// failed, or the list of `payload_length` bytes has not ended where `consumed` bytes do.
    pub fn from_read(
        name_record: NameRecord,
        read: Result<ST, RlpError>,
        payload_length: usize,
        consumed: usize,
    ) -> (r: Result<Self, DecodeError>)
        ensures
            match read {
                Err(e) => r == Err::<Self, DecodeError>(DecodeError::Rlp(e)),
                Ok(signature) => if consumed == payload_length {
                    r == Ok::<Self, DecodeError>(MonadNameRecord { name_record, signature })
                } else {
                    r == Err::<Self, DecodeError>(
                        DecodeError::Rlp(
                            RlpError::ListLengthMismatch { expected: payload_length, got: consumed },
                        ),
                    )
                },
            },
    {
        match read {
            Err(e) => Err(DecodeError::Rlp(e)),
            Ok(signature) => {
                if consumed != payload_length {
                    return Err(
                        DecodeError::Rlp(
                            RlpError::ListLengthMismatch { expected: payload_length, got: consumed },
                        ),
                    );
                }
                Ok(MonadNameRecord { name_record, signature })
            },
        }
    }

    /// Takes a signed record off the front of `buf`: a list of a record and a signature and
    /// nothing else.
    pub fn decode<'a>(buf: &mut &'a [u8]) -> (r: Result<Self, DecodeError>)
        requires
            reads_forward::<ST>(),
        ensures
            ({
                let (prefix, rest) = signed_prefix(old(buf)@);
                match prefix {
                    Err(e) => r == Err::<Self, DecodeError>(e) && final(buf)@ == rest,
                    Ok(prefix) => exists|out: (Result<ST, RlpError>, &'a [u8])| #[trigger]
                        signature_read::<ST>(rest, out) && signed_outcome(prefix, out, r)
                            && final(buf)@ == out.1@,
                }
            }),
    {
        let ghost input = buf@;
        let (list, payload_length) = match codec::decode_header(buf) {
            Ok(header) => header,
            Err(e) => return Err(DecodeError::Rlp(e)),
        };
        proof {
            let (_, payload) = rlp::item_at(input)->0;
            rlp::lemma_item_at_front(input, list, payload);
        }
        if !list {
            return Err(DecodeError::Rlp(RlpError::UnexpectedString));
        }
        let started_len: usize = buf.len();
        let ghost s0 = buf@;
        let name_record = match NameRecord::decode(buf) {
            Ok(name_record) => name_record,
            Err(e) => return Err(e),
        };
        proof {
            let (payload, _) = rlp::list_at(s0)->0;
            rlp::lemma_item_at_front(s0, true, payload);
        }
        let bytes: &'a [u8] = *buf;
        let out = ST::from_rlp(bytes);
        proof {
            let (prefix, left) = signed_prefix(input);
            assert(bytes@ == left);
            assert(signature_read::<ST>(left, out));
        }
        let (read, rest) = out;
        *buf = rest;
        let consumed: usize = started_len - rest.len();
        Self::from_read(name_record, read, payload_length, consumed)
    }
}

} // verus!
