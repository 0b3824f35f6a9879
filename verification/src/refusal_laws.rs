//! The reasons for which an input is refused, byte by byte: what the input looks like, which reason
//! is given for it, and what is left of it.
use crate::codec;
use crate::error::RlpError;
use crate::rlp;
use vstd::prelude::*;

verus! {

/// A header byte for a string (`0x80` and up) or a list (`0xC0` and up) of less than 56 bytes, with
/// fewer bytes behind it than it counts, is too short an input. The same holds of no input at all.
pub proof fn short_item_cut_off(list: bool, n: nat, rest: Seq<u8>)
    requires
        n < 56,
        rest.len() < n,
    ensures
        ({
            let s = seq![((if list { 0xC0int } else { 0x80int }) + n) as u8] + rest;
            &&& rlp::item_at(s) is None
            &&& codec::header_failure(s) == (RlpError::InputTooShort, rest)
        }),
        rlp::item_at(Seq::empty()) is None,
        codec::header_failure(Seq::empty()) == (RlpError::InputTooShort, Seq::<u8>::empty()),
{
    let s = seq![((if list { 0xC0int } else { 0x80int }) + n) as u8] + rest;
    assert(s.skip(1) =~= rest);
    if let Some((l, p)) = rlp::item_at(s) {
        rlp::lemma_item_at_front(s, l, p);
        lemma_shape(l, p);
        assert(rlp::item(l, p)[0] == s[0]);
    }
    if let Some((l, p)) = rlp::item_at(Seq::empty()) {
        rlp::lemma_item_at_front(Seq::empty(), l, p);
        lemma_shape(l, p);
    }
}

/// A single byte below `0x80` behind a header byte is refused: it stands for itself.
pub proof fn prefixed_single_byte(byte: u8, rest: Seq<u8>, width: nat)
    requires
        byte < 0x80,
    ensures
        ({
            let s = seq![0x81u8, byte] + rest;
            &&& rlp::item_at(s) is None
            &&& codec::header_failure(s) == (
                RlpError::NonCanonicalSingleByte,
                seq![byte] + rest,
            )
            &&& codec::uint_failure(s, width) == (RlpError::NonCanonicalSingleByte, s)
        }),
{
    let s = seq![0x81u8, byte] + rest;
    assert(s.skip(1) =~= seq![byte] + rest);
    if let Some((l, p)) = rlp::item_at(s) {
        rlp::lemma_item_at_front(s, l, p);
        lemma_shape(l, p);
        assert(rlp::item(l, p)[0] == s[0]);
        assert(rlp::item(l, p)[1] == s[1]);
    }
}

/// A header byte that counts the digits of a length, with fewer bytes behind it, is too short an
/// input.
pub proof fn length_cut_off(list: bool, count: nat, rest: Seq<u8>)
    requires
        1 <= count <= 8,
        rest.len() < count,
    ensures
        ({
            let s = seq![((if list { 0xF7int } else { 0xB7int }) + count) as u8] + rest;
            &&& rlp::item_at(s) is None
            &&& codec::header_failure(s) == (RlpError::InputTooShort, rest)
        }),
{
    let s = seq![((if list { 0xF7int } else { 0xB7int }) + count) as u8] + rest;
    assert(s.skip(1) =~= rest);
    if let Some((l, p)) = rlp::item_at(s) {
        rlp::lemma_item_at_front(s, l, p);
        lemma_shape(l, p);
        assert(rlp::item(l, p)[0] == s[0]);
    }
}

/// A length in digits is refused if its first digit is zero, if it is larger than what can be
/// addressed, if it is less than 56, or if fewer bytes follow than it says, in this order. What
/// follows the digits is left.
pub proof fn length_refused(list: bool, digits: Seq<u8>, rest: Seq<u8>)
    requires
        1 <= digits.len() <= 8,
        digits[0] == 0 || rlp::be_value(digits) < 56 || rest.len() < rlp::be_value(digits),
    ensures
        ({
            let s = seq![((if list { 0xF7int } else { 0xB7int }) + digits.len()) as u8] + digits
                + rest;
            let reason = if digits[0] == 0 {
                RlpError::LeadingZero
            } else if rlp::be_value(digits) > usize::MAX {
                RlpError::Custom("Input too big")
            } else if rlp::be_value(digits) < 56 {
                RlpError::NonCanonicalSize
            } else {
                RlpError::InputTooShort
            };
            &&& rlp::item_at(s) is None
            &&& codec::header_failure(s) == (reason, rest)
        }),
{
    let s = seq![((if list { 0xF7int } else { 0xB7int }) + digits.len()) as u8] + digits + rest;
    assert(s.skip(1) =~= digits + rest);
    assert((digits + rest).take(digits.len() as int) =~= digits);
    assert((digits + rest).skip(digits.len() as int) =~= rest);
    if let Some((l, p)) = rlp::item_at(s) {
        rlp::lemma_item_at_front(s, l, p);
        lemma_shape(l, p);
        let item = rlp::item(l, p);
        assert(item[0] == s[0]);
        let n = p.len();
        rlp::lemma_be_round_trip(n);
        rlp::lemma_be_first(n);
        let written = rlp::be_bytes(n);
        assert forall|i: int| 0 <= i < digits.len() implies written[i] == digits[i] by {
            assert(item[1 + i] == s[1 + i]);
        }
        assert(written =~= digits);
    }
}

/// The first bytes of an item: a byte below `0x80` by itself, a byte that counts less than 56
/// bytes, or a byte that counts the digits of the number of bytes, and these digits.
proof fn lemma_shape(list: bool, payload: Seq<u8>)
    requires
        payload.len() <= u64::MAX,
    ensures
        ({
            let item = rlp::item(list, payload);
            let n = payload.len();
            let digits = rlp::be_bytes(n);
            if !list && n == 1 && payload[0] < 0x80 {
                item == payload
            } else if n < 56 {
                item == seq![((if list { 0xC0int } else { 0x80int }) + n) as u8] + payload
            } else {
                &&& 1 <= digits.len() <= 8
                &&& item == seq![((if list { 0xF7int } else { 0xB7int }) + digits.len()) as u8]
                    + digits + payload
            }
        }),
{
    rlp::lemma_be_len(payload.len());
    assert(Seq::<u8>::empty() + payload =~= payload);
}

/// Where a list is expected, a string is refused; its payload and what follows it are left.
pub proof fn string_for_list(payload: Seq<u8>, rest: Seq<u8>)
    requires
        payload.len() <= u64::MAX,
    ensures
        rlp::list_at(rlp::item(false, payload) + rest) is None,
        codec::list_failure(rlp::item(false, payload) + rest) == (
            RlpError::UnexpectedString,
            payload + rest,
        ),
{
    let s = rlp::item(false, payload) + rest;
    rlp::lemma_item_then(false, payload, rest);
    assert(s.skip(rlp::item_header(false, payload).len() as int) =~= payload + rest);
}

/// Where a number is expected, a list is refused; its payload and what follows it are left.
pub proof fn list_for_number(payload: Seq<u8>, rest: Seq<u8>, max: nat, width: nat)
    requires
        payload.len() <= u64::MAX,
    ensures
        rlp::uint_at(rlp::item(true, payload) + rest, max) is None,
        codec::uint_failure(rlp::item(true, payload) + rest, width) == (
            RlpError::UnexpectedList,
            payload + rest,
        ),
{
    let s = rlp::item(true, payload) + rest;
    rlp::lemma_item_then(true, payload, rest);
    assert(s.skip(rlp::item_header(true, payload).len() as int) =~= payload + rest);
}

/// Where a number is expected, a string that is longer than the number may be is refused; what
/// follows it is left. A string that is short enough and begins with a zero is refused too; all of
/// the input is left.
pub proof fn string_for_number(payload: Seq<u8>, rest: Seq<u8>, width: nat)
    requires
        payload.len() <= u64::MAX,
        width == 1 || width == 2 || width == 8,
        payload.len() > width || (payload.len() > 0 && payload[0] == 0),
    ensures
        ({
            let s = rlp::item(false, payload) + rest;
            let max: nat = if width == 1 {
                0xFF
            } else if width == 2 {
                0xFFFF
            } else {
                u64::MAX as nat
            };
            &&& rlp::uint_at(s, max) is None
            &&& codec::uint_failure(s, width) == if payload.len() > width {
                (RlpError::Overflow, rest)
            } else {
                (RlpError::LeadingZero, s)
            }
        }),
{
    rlp::lemma_item_then(false, payload, rest);
    let n = rlp::be_value(payload);
    rlp::lemma_be_len(n);
    if n > 0 {
        rlp::lemma_be_first(n);
    }
}

/// Where a list or a number is expected and the input begins with no item, the reason and what is
/// left are those of the header, except that a number with a needless header byte is left whole.
pub proof fn no_item(s: Seq<u8>, width: nat)
    requires
        rlp::item_at(s) is None,
    ensures
        codec::list_failure(s) == codec::header_failure(s),
        codec::uint_failure(s, width) == if codec::header_failure(s).0
            == RlpError::NonCanonicalSingleByte {
            (RlpError::NonCanonicalSingleByte, s)
        } else {
            codec::header_failure(s)
        },
{
}

} // verus!
