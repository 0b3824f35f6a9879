//! What is signed, what is recovered from a signature, and how signed records are written and read,
//! over what the calls into a signature scheme are given and give back.
use crate::codec;
use crate::encoding::{Decodable, Encodable};
use crate::error::{DecodeError, RlpError};
use crate::laws;
use crate::record::{NameRecord, NameRecordView, WireNameRecord};
use crate::rlp;
use crate::signed;
use crate::signed::{CertificateSignatureRecoverable, MonadNameRecord, NodeId};
use crate::signing_domain;
use vstd::prelude::*;

verus! {

/// What is signed is the encoding of the whole record, as a name record: the signature is one that
/// the scheme made with the key over exactly these bytes.
pub proof fn encoding_is_signed<ST: CertificateSignatureRecoverable>(
    name_record: NameRecord,
    key: &ST::KeyPairType,
    r: MonadNameRecord<ST>,
)
    requires
        call_ensures(MonadNameRecord::<ST>::new, (name_record, key), r),
    ensures
        r.name_record == name_record,
        exists|msg: &[u8]|
            msg@ == WireNameRecord::rlp(name_record@.wire) && #[trigger] call_ensures(
                ST::sign::<signing_domain::NameRecord>,
                (msg, key),
                r.signature,
            ),
{
}

/// The key is recovered from the signature and the encoding of the whole record, and is the node
/// that is given; where the scheme recovers none, its error is given.
pub proof fn signer_of_encoding_is_recovered<ST: CertificateSignatureRecoverable>(
    record: MonadNameRecord<ST>,
    r: Result<NodeId<ST::PubKeyType>, ST::Error>,
)
    requires
        call_ensures(MonadNameRecord::<ST>::recover_pubkey, (&record,), r),
    ensures
        exists|msg: &[u8], recovered: Result<ST::PubKeyType, ST::Error>|
            {
                &&& msg@ == WireNameRecord::rlp(record.name_record@.wire)
                &&& #[trigger] call_ensures(
                    ST::recover_pubkey::<signing_domain::NameRecord>,
                    (&record.signature, msg),
                    recovered,
                )
                &&& match recovered {
                    Ok(pubkey) => r == Ok::<NodeId<ST::PubKeyType>, ST::Error>(NodeId { pubkey }),
                    Err(e) => r == Err::<NodeId<ST::PubKeyType>, ST::Error>(e),
                }
            },
{
    let recovered = match r {
        Ok(id) => Ok::<ST::PubKeyType, ST::Error>(id.pubkey),
        Err(e) => Err::<ST::PubKeyType, ST::Error>(e),
    };
    assert(signed::recovered_from(record.name_record@, record.signature, recovered));
}

/// Two records that differ are signed over different messages.
pub proof fn different_records_sign_different_messages<ST: CertificateSignatureRecoverable>(
    a: NameRecord,
    b: NameRecord,
    key: &ST::KeyPairType,
    other_key: &ST::KeyPairType,
    signed_a: MonadNameRecord<ST>,
    signed_b: MonadNameRecord<ST>,
)
    requires
        a@.wf(),
        b@.wf(),
        a@ != b@,
        call_ensures(MonadNameRecord::<ST>::new, (a, key), signed_a),
        call_ensures(MonadNameRecord::<ST>::new, (b, other_key), signed_b),
    ensures
        exists|msg_a: &[u8], msg_b: &[u8]|
            {
                &&& msg_a@ != msg_b@
                &&& #[trigger] call_ensures(
                    ST::sign::<signing_domain::NameRecord>,
                    (msg_a, key),
                    signed_a.signature,
                )
                &&& #[trigger] call_ensures(
                    ST::sign::<signing_domain::NameRecord>,
                    (msg_b, other_key),
                    signed_b.signature,
                )
            },
{
    encoding_is_signed(a, key, signed_a);
    encoding_is_signed(b, other_key, signed_b);
    if WireNameRecord::rlp(a@.wire) == WireNameRecord::rlp(b@.wire) {
        laws::name_record_encoding_injective(a@, b@);
    }
}

/// If a scheme recovers `pubkey` from every signature that `key` makes over a message, then a
/// record signed with `key` is found to be signed by the node `pubkey`.
pub proof fn signer_is_found<ST: CertificateSignatureRecoverable>(
    name_record: NameRecord,
    key: &ST::KeyPairType,
    pubkey: ST::PubKeyType,
    record: MonadNameRecord<ST>,
    r: Result<NodeId<ST::PubKeyType>, ST::Error>,
)
    requires
        forall|msg: &[u8], other: &[u8], s: ST, out: Result<ST::PubKeyType, ST::Error>|
            msg@ == other@ && #[trigger] call_ensures(
                ST::sign::<signing_domain::NameRecord>,
                (msg, key),
                s,
            ) && #[trigger] call_ensures(
                ST::recover_pubkey::<signing_domain::NameRecord>,
                (&s, other),
                out,
            ) ==> out == Ok::<ST::PubKeyType, ST::Error>(pubkey),
        call_ensures(MonadNameRecord::<ST>::new, (name_record, key), record),
        call_ensures(MonadNameRecord::<ST>::recover_pubkey, (&record,), r),
    ensures
        r == Ok::<NodeId<ST::PubKeyType>, ST::Error>(NodeId { pubkey }),
{
    encoding_is_signed(name_record, key, record);
    signer_of_encoding_is_recovered(record, r);
}

/// If a scheme recovers `pubkey` from a signature that `key` made over one message only together
/// with that message, then the signature on one record, put on another, does not make the other
/// appear to be signed by the node `pubkey`.
pub proof fn signature_binds_record<ST: CertificateSignatureRecoverable>(
    name_record: NameRecord,
    key: &ST::KeyPairType,
    pubkey: ST::PubKeyType,
    record: MonadNameRecord<ST>,
    other: MonadNameRecord<ST>,
    r: Result<NodeId<ST::PubKeyType>, ST::Error>,
)
    requires
        forall|msg: &[u8], other: &[u8], s: ST, out: Result<ST::PubKeyType, ST::Error>|
            #[trigger] call_ensures(ST::sign::<signing_domain::NameRecord>, (msg, key), s)
                && #[trigger] call_ensures(
                ST::recover_pubkey::<signing_domain::NameRecord>,
                (&s, other),
                out,
            ) && out == Ok::<ST::PubKeyType, ST::Error>(pubkey) ==> msg@ == other@,
        name_record@.wf(),
        call_ensures(MonadNameRecord::<ST>::new, (name_record, key), record),
        other.signature == record.signature,
        other.name_record@.wf(),
        other.name_record@ != name_record@,
        call_ensures(MonadNameRecord::<ST>::recover_pubkey, (&other,), r),
    ensures
        r != Ok::<NodeId<ST::PubKeyType>, ST::Error>(NodeId { pubkey }),
{
    encoding_is_signed(name_record, key, record);
    signer_of_encoding_is_recovered(other, r);
    if WireNameRecord::rlp(name_record@.wire) == WireNameRecord::rlp(other.name_record@.wire) {
        laws::name_record_encoding_injective(name_record@, other.name_record@);
    }
}

/// A signed record is written as the list of the record and of what the scheme writes for the
/// signature.
pub proof fn signed_record_written<'a, ST: CertificateSignatureRecoverable>(
    record: MonadNameRecord<ST>,
)
    ensures
        forall|out: &'a mut Vec<u8>| #[trigger]
            call_ensures(MonadNameRecord::<ST>::encode, (&record, out), ()) ==> exists|
                signature: Vec<u8>,
            |
                {
                    &&& #[trigger] call_ensures(ST::to_rlp, (&record.signature,), signature)
                    &&& final(out)@ == out@ + rlp::item(
                        true,
                        WireNameRecord::rlp(record.name_record@.wire) + signature@,
                    )
                },
{
}

/// A scheme that never leaves more than it was given can be read with.
pub proof fn signed_records_can_be_read<'a, 'b, ST: CertificateSignatureRecoverable>()
    requires
        forall|bytes: &'a [u8], out: (Result<ST, RlpError>, &'a [u8])| #[trigger]
            call_ensures(ST::from_rlp, (bytes,), out) ==> out.1@.len() <= bytes@.len(),
    ensures
        forall|buf: &'b mut &'a [u8]| #[trigger]
            call_requires(MonadNameRecord::<ST>::decode, (buf,)),
{
}

/// If the scheme reads a signature from its bytes and whatever follows them, and leaves that, then
/// the list of a record and these bytes is read as that record with that signature, and what
/// follows the list is left.
pub proof fn signed_record_read<'a, 'b, ST: CertificateSignatureRecoverable>(
    v: NameRecordView,
    signature: ST,
    signature_rlp: Seq<u8>,
    rest: Seq<u8>,
)
    requires
        v.wf(),
        WireNameRecord::rlp(v.wire).len() + signature_rlp.len() <= u64::MAX,
        forall|bytes: &'a [u8], out: (Result<ST, RlpError>, &'a [u8])|
            bytes@ == signature_rlp + rest && #[trigger] call_ensures(ST::from_rlp, (bytes,), out)
                ==> out.0 == Ok::<ST, RlpError>(signature) && out.1@ == rest,
    ensures
        forall|buf: &'b mut &'a [u8], r: Result<MonadNameRecord<ST>, DecodeError>| #[trigger]
            call_ensures(MonadNameRecord::<ST>::decode, (buf,), r) && buf@ == rlp::item(
                true,
                WireNameRecord::rlp(v.wire) + signature_rlp,
            ) + rest ==> final(buf)@ == rest && (r matches Ok(record) && record.name_record@ == v
                && record.signature == signature),
{
    let payload = NameRecord::rlp(v) + signature_rlp;
    let input = rlp::item(true, payload) + rest;
    rlp::lemma_item_then(true, payload, rest);
    let s0 = input.skip(rlp::item_header(true, payload).len() as int);
    assert(s0 =~= NameRecord::rlp(v) + (signature_rlp + rest));
    laws::name_record_round_trip(v, signature_rlp + rest);
}

/// If the scheme reads back what it writes, then a signed record is read back as it was written,
/// whatever follows it.
pub proof fn signed_record_read_back<'a, 'b, 'c, ST: CertificateSignatureRecoverable>(
    record: MonadNameRecord<ST>,
    written: Seq<u8>,
    rest: Seq<u8>,
)
    requires
        record.name_record@.wf(),
        written.len() <= u64::MAX,
        exists|out: &'c mut Vec<u8>| #[trigger]
            call_ensures(MonadNameRecord::<ST>::encode, (&record, out), ()) && out@.len() == 0
                && final(out)@ == written,
        forall|w: Vec<u8>, bytes: &'a [u8], out: (Result<ST, RlpError>, &'a [u8])|
            #[trigger] call_ensures(ST::to_rlp, (&record.signature,), w) && #[trigger] call_ensures(
                ST::from_rlp,
                (bytes,),
                out,
            ) && bytes@ == w@ + rest ==> out.0 == Ok::<ST, RlpError>(record.signature) && out.1@
                == rest,
    ensures
        forall|buf: &'b mut &'a [u8], r: Result<MonadNameRecord<ST>, DecodeError>| #[trigger]
            call_ensures(MonadNameRecord::<ST>::decode, (buf,), r) && buf@ == written + rest
                ==> final(buf)@ == rest && (r matches Ok(other) && other.name_record@
                == record.name_record@ && other.signature == record.signature),
{
    signed_record_written::<ST>(record);
    let empty = Seq::<u8>::empty();
    let wire = record.name_record@.wire;
    let w = choose|w: Vec<u8>|
        #[trigger] call_ensures(ST::to_rlp, (&record.signature,), w) && written == empty
            + rlp::item(true, WireNameRecord::rlp(wire) + w@);
    assert(empty + rlp::item(true, WireNameRecord::rlp(wire) + w@) =~= rlp::item(
        true,
        WireNameRecord::rlp(wire) + w@,
    ));
    signed_record_read::<ST>(record.name_record@, record.signature, w@, rest);
}

/// What becomes of any input that is read as a signed record. It is refused if it begins with no
/// item, or with a string, or if no record stands behind the header of the list. Otherwise the
/// scheme is given all that follows the record and decides what is left; its error is given, or the
/// record with the signature, provided that the two end where the list does.
pub proof fn signed_record_outcomes<'a, 'b, ST: CertificateSignatureRecoverable>()
    ensures
        forall|buf: &'b mut &'a [u8], r: Result<MonadNameRecord<ST>, DecodeError>| #[trigger]
            call_ensures(MonadNameRecord::<ST>::decode, (buf,), r) ==> match rlp::item_at(buf@) {
                None => {
                    &&& r == Err::<MonadNameRecord<ST>, DecodeError>(
                        DecodeError::Rlp(codec::header_failure(buf@).0),
                    )
                    &&& final(buf)@ == codec::header_failure(buf@).1
                },
                Some((false, payload)) => {
                    &&& r == Err::<MonadNameRecord<ST>, DecodeError>(
                        DecodeError::Rlp(RlpError::UnexpectedString),
                    )
                    &&& final(buf)@ == buf@.skip(rlp::item(false, payload).len() - payload.len())
                },
                Some((true, payload)) => {
                    let s0 = buf@.skip(rlp::item(true, payload).len() - payload.len());
                    match NameRecord::decoded(s0) {
                        (Err(e), left) => {
                            &&& r == Err::<MonadNameRecord<ST>, DecodeError>(e)
                            &&& final(buf)@ == left
                        },
                        (Ok(v), left) => exists|
                            bytes: &'a [u8],
                            out: (Result<ST, RlpError>, &'a [u8]),
                        |
                            {
                                &&& bytes@ == left
                                &&& #[trigger] call_ensures(ST::from_rlp, (bytes,), out)
                                &&& final(buf)@ == out.1@
                                &&& match out.0 {
                                    Err(e) => r == Err::<MonadNameRecord<ST>, DecodeError>(
                                        DecodeError::Rlp(e),
                                    ),
                                    Ok(signature) => if s0.len() - out.1@.len() == payload.len() {
                                        r matches Ok(record) && record.name_record@ == v
                                            && record.signature == signature
                                    } else {
                                        r == Err::<MonadNameRecord<ST>, DecodeError>(
                                            DecodeError::Rlp(
                                                RlpError::ListLengthMismatch {
                                                    expected: payload.len() as usize,
                                                    got: (s0.len() - out.1@.len()) as usize,
                                                },
                                            ),
                                        )
                                    },
                                }
                            },
                    }
                },
            },
{
}

} // verus!
