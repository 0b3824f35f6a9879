//! The calls into `alloy_rlp`. Each function hands its arguments to one function of that crate;
//! its contract says, over the format in [`crate::rlp`], what the crate does with them.
//!
//! The readers take what they read off the front of the input. Where they refuse it, the spec
//! functions here say for which reason and what is left of it.
use crate::error::RlpError;
use crate::rlp;
use alloy_rlp::Error;
use vstd::prelude::*;

verus! {

/// Why an input does not begin with an item, and what is left of it. The bytes below `0x80` are
/// items by themselves; the others count the bytes of the payload or the digits of its length.
pub open spec fn header_failure(s: Seq<u8>) -> (RlpError, Seq<u8>) {
    let rest = s.skip(1);
    if s.len() == 0 {
        (RlpError::InputTooShort, s)
    } else if s[0] < 0xB8 || 0xC0 <= s[0] < 0xF8 {
        if s[0] == 0x81 && rest.len() > 0 && rest[0] < 0x80 {
            (RlpError::NonCanonicalSingleByte, rest)
        } else {
            (RlpError::InputTooShort, rest)
        }
    } else {
        let digits: int = if s[0] < 0xC0 { s[0] - 0xB7 } else { s[0] - 0xF7 };
        if rest.len() < digits {
            (RlpError::InputTooShort, rest)
        } else {
            (length_failure(rest.take(digits)), rest.skip(digits))
        }
    }
}

/// What is wrong with a length of these digits when the payload is not there.
pub open spec fn length_failure(digits: Seq<u8>) -> RlpError {
    if digits[0] == 0 {
        RlpError::LeadingZero
    } else if rlp::be_value(digits) > usize::MAX {
        RlpError::Custom("Input too big")
    } else if rlp::be_value(digits) < 56 {
        RlpError::NonCanonicalSize
    } else {
        RlpError::InputTooShort
    }
}

/// Why an input does not begin with a list, and what is left of it.
pub open spec fn list_failure(s: Seq<u8>) -> (RlpError, Seq<u8>) {
    match rlp::item_at(s) {
        None => header_failure(s),
        Some((list, payload)) => (
            RlpError::UnexpectedString,
            s.skip(rlp::item_header(list, payload).len() as int),
        ),
    }
}

/// Why an input does not begin with an unsigned integer of at most `width` bytes, and what is left
/// of it.
pub open spec fn uint_failure(s: Seq<u8>, width: nat) -> (RlpError, Seq<u8>) {
    match rlp::item_at(s) {
        None => if s.len() > 1 && s[0] == 0x81 && s[1] < 0x80 {
            (RlpError::NonCanonicalSingleByte, s)
        } else {
            header_failure(s)
        },
        Some((true, payload)) => (
            RlpError::UnexpectedList,
            s.skip(rlp::item_header(true, payload).len() as int),
        ),
        Some((false, payload)) => if payload.len() > width {
            (RlpError::Overflow, rlp::after_item(s, false, payload))
        } else {
            (RlpError::LeadingZero, s)
        },
    }
}

/// What is left of a refused input is the end of that input.
pub proof fn lemma_left_is_suffix(s: Seq<u8>, width: nat)
    ensures
        header_failure(s).1.is_suffix_of(s),
        list_failure(s).1.is_suffix_of(s),
        uint_failure(s, width).1.is_suffix_of(s),
{
    if let Some((list, payload)) = rlp::item_at(s) {
        rlp::lemma_item_at_front(s, list, payload);
    }
}

/// `alloy_rlp::Header::decode`: reads the header of the item at the front, string or list, and
/// gives the kind and the length of its payload, all of which is there. The payload stays in the
/// input. Without an item at the front it fails.
#[verifier::external_body]
pub(crate) fn decode_header(buf: &mut &[u8]) -> (r: Result<(bool, usize), RlpError>)
    ensures
        match rlp::item_at(old(buf)@) {
            Some((list, payload)) => {
                &&& r == Ok::<(bool, usize), RlpError>((list, payload.len() as usize))
                &&& final(buf)@ == old(buf)@.skip(rlp::item_header(list, payload).len() as int)
            },
            None => {
                let (e, left) = header_failure(old(buf)@);
                &&& r == Err::<(bool, usize), RlpError>(e)
                &&& final(buf)@ == left
            },
        },
{
    alloy_rlp::Header::decode(buf).map(|h| (h.list, h.payload_length)).map_err(|e| match e {
        Error::Overflow => RlpError::Overflow,
        Error::LeadingZero => RlpError::LeadingZero,
        Error::InputTooShort => RlpError::InputTooShort,
        Error::NonCanonicalSingleByte => RlpError::NonCanonicalSingleByte,
        Error::NonCanonicalSize => RlpError::NonCanonicalSize,
        Error::UnexpectedLength => RlpError::UnexpectedLength,
        Error::UnexpectedString => RlpError::UnexpectedString,
        Error::UnexpectedList => RlpError::UnexpectedList,
        Error::ListLengthMismatch { expected, got } => {
            RlpError::ListLengthMismatch { expected, got }
        },
        Error::Custom(message) => RlpError::Custom(message),
    })
}

/// `alloy_rlp::Header::decode_bytes`, asked for a list: takes the list at the front and gives its
/// payload. Without a list at the front it fails.
#[verifier::external_body]
pub(crate) fn decode_list<'a>(buf: &mut &'a [u8]) -> (r: Result<&'a [u8], RlpError>)
    ensures
        match rlp::list_at(old(buf)@) {
            Some((payload, rest)) => {
                &&& r matches Ok(bytes) && bytes@ == payload
                &&& final(buf)@ == rest
            },
            None => {
                let (e, left) = list_failure(old(buf)@);
                &&& r == Err::<&'a [u8], RlpError>(e)
                &&& final(buf)@ == left
            },
        },
{
    alloy_rlp::Header::decode_bytes(buf, true).map_err(|e| match e {
        Error::Overflow => RlpError::Overflow,
        Error::LeadingZero => RlpError::LeadingZero,
        Error::InputTooShort => RlpError::InputTooShort,
        Error::NonCanonicalSingleByte => RlpError::NonCanonicalSingleByte,
        Error::NonCanonicalSize => RlpError::NonCanonicalSize,
        Error::UnexpectedLength => RlpError::UnexpectedLength,
        Error::UnexpectedString => RlpError::UnexpectedString,
        Error::UnexpectedList => RlpError::UnexpectedList,
        Error::ListLengthMismatch { expected, got } => {
            RlpError::ListLengthMismatch { expected, got }
        },
        Error::Custom(message) => RlpError::Custom(message),
    })
}

/// `<[u8; 4] as alloy_rlp::Decodable>::decode`: takes the string of four bytes at the front.
/// Without one it fails, somewhere in the input; the error is dropped.
#[verifier::external_body]
pub(crate) fn decode_octets(buf: &mut &[u8]) -> (r: Option<[u8; 4]>)
    ensures
        match rlp::octets_at(old(buf)@) {
            Some((octets, rest)) => {
                &&& r matches Some(bytes) && bytes@ == octets
                &&& final(buf)@ == rest
            },
            None => r is None && final(buf)@.is_suffix_of(old(buf)@),
        },
{
    <[u8; 4] as alloy_rlp::Decodable>::decode(buf).ok()
}

/// `<u8 as alloy_rlp::Decodable>::decode`: takes the integer of at most 255 at the front. Without
/// one it fails.
#[verifier::external_body]
pub(crate) fn decode_u8(buf: &mut &[u8]) -> (r: Result<u8, RlpError>)
    ensures
        match rlp::uint_at(old(buf)@, u8::MAX as nat) {
            Some((n, rest)) => r == Ok::<u8, RlpError>(n as u8) && final(buf)@ == rest,
            None => {
                let (e, left) = uint_failure(old(buf)@, 1);
                &&& r == Err::<u8, RlpError>(e)
                &&& final(buf)@ == left
            },
        },
{
    <u8 as alloy_rlp::Decodable>::decode(buf).map_err(|e| match e {
        Error::Overflow => RlpError::Overflow,
        Error::LeadingZero => RlpError::LeadingZero,
        Error::InputTooShort => RlpError::InputTooShort,
        Error::NonCanonicalSingleByte => RlpError::NonCanonicalSingleByte,
        Error::NonCanonicalSize => RlpError::NonCanonicalSize,
        Error::UnexpectedLength => RlpError::UnexpectedLength,
        Error::UnexpectedString => RlpError::UnexpectedString,
        Error::UnexpectedList => RlpError::UnexpectedList,
        Error::ListLengthMismatch { expected, got } => {
            RlpError::ListLengthMismatch { expected, got }
        },
        Error::Custom(message) => RlpError::Custom(message),
    })
}

/// `<u16 as alloy_rlp::Decodable>::decode`: takes the integer below 2^16 at the front. Without one
/// it fails.
#[verifier::external_body]
pub(crate) fn decode_u16(buf: &mut &[u8]) -> (r: Result<u16, RlpError>)
    ensures
        match rlp::uint_at(old(buf)@, u16::MAX as nat) {
            Some((n, rest)) => r == Ok::<u16, RlpError>(n as u16) && final(buf)@ == rest,
            None => {
                let (e, left) = uint_failure(old(buf)@, 2);
                &&& r == Err::<u16, RlpError>(e)
                &&& final(buf)@ == left
            },
        },
{
    <u16 as alloy_rlp::Decodable>::decode(buf).map_err(|e| match e {
        Error::Overflow => RlpError::Overflow,
        Error::LeadingZero => RlpError::LeadingZero,
        Error::InputTooShort => RlpError::InputTooShort,
        Error::NonCanonicalSingleByte => RlpError::NonCanonicalSingleByte,
        Error::NonCanonicalSize => RlpError::NonCanonicalSize,
        Error::UnexpectedLength => RlpError::UnexpectedLength,
        Error::UnexpectedString => RlpError::UnexpectedString,
        Error::UnexpectedList => RlpError::UnexpectedList,
        Error::ListLengthMismatch { expected, got } => {
            RlpError::ListLengthMismatch { expected, got }
        },
        Error::Custom(message) => RlpError::Custom(message),
    })
}

/// `<u64 as alloy_rlp::Decodable>::decode`: takes the integer below 2^64 at the front. Without one
/// it fails.
#[verifier::external_body]
pub(crate) fn decode_u64(buf: &mut &[u8]) -> (r: Result<u64, RlpError>)
    ensures
        match rlp::uint_at(old(buf)@, u64::MAX as nat) {
            Some((n, rest)) => r == Ok::<u64, RlpError>(n as u64) && final(buf)@ == rest,
            None => {
                let (e, left) = uint_failure(old(buf)@, 8);
                &&& r == Err::<u64, RlpError>(e)
                &&& final(buf)@ == left
            },
        },
{
    <u64 as alloy_rlp::Decodable>::decode(buf).map_err(|e| match e {
        Error::Overflow => RlpError::Overflow,
        Error::LeadingZero => RlpError::LeadingZero,
        Error::InputTooShort => RlpError::InputTooShort,
        Error::NonCanonicalSingleByte => RlpError::NonCanonicalSingleByte,
        Error::NonCanonicalSize => RlpError::NonCanonicalSize,
        Error::UnexpectedLength => RlpError::UnexpectedLength,
        Error::UnexpectedString => RlpError::UnexpectedString,
        Error::UnexpectedList => RlpError::UnexpectedList,
        Error::ListLengthMismatch { expected, got } => {
            RlpError::ListLengthMismatch { expected, got }
        },
        Error::Custom(message) => RlpError::Custom(message),
    })
}

/// `alloy_rlp::Header::encode` for a list: appends the length prefix of a list.
#[verifier::external_body]
pub(crate) fn encode_list_header(payload_length: usize, out: &mut Vec<u8>)
    ensures
        final(out)@ == old(out)@ + rlp::length_prefix(true, payload_length as nat),
{
    alloy_rlp::Header { list: true, payload_length }.encode(out)
}

/// `<[u8; 4] as alloy_rlp::Encodable>::encode`: appends the string of the four bytes.
#[verifier::external_body]
pub(crate) fn encode_octets(octets: &[u8; 4], out: &mut Vec<u8>)
    ensures
        final(out)@ == old(out)@ + rlp::item(false, octets@),
{
    alloy_rlp::Encodable::encode(octets, out)
}

/// `<u8 as alloy_rlp::Encodable>::encode`: appends the encoding of the integer.
#[verifier::external_body]
pub(crate) fn encode_u8(n: u8, out: &mut Vec<u8>)
    ensures
        final(out)@ == old(out)@ + rlp::uint(n as nat),
{
    alloy_rlp::Encodable::encode(&n, out)
}

/// `<u16 as alloy_rlp::Encodable>::encode`: appends the encoding of the integer.
#[verifier::external_body]
pub(crate) fn encode_u16(n: u16, out: &mut Vec<u8>)
    ensures
        final(out)@ == old(out)@ + rlp::uint(n as nat),
{
    alloy_rlp::Encodable::encode(&n, out)
}

/// `<u64 as alloy_rlp::Encodable>::encode`: appends the encoding of the integer.
#[verifier::external_body]
pub(crate) fn encode_u64(n: u64, out: &mut Vec<u8>)
    ensures
        final(out)@ == old(out)@ + rlp::uint(n as nat),
{
    alloy_rlp::Encodable::encode(&n, out)
}

} // verus!
