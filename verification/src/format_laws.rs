//! The wire format, byte by byte: what numbers, strings, lists and the elements of lists look like,
//! and that an input is taken for one of them only if it begins with these bytes.
use crate::codec;
use crate::encoding;
use crate::encoding::{Decodable, Encodable};
use crate::error::DecodeError;
use crate::rlp;
use vstd::prelude::*;

verus! {

/// Digits are read from the left: one more digit multiplies the value by 256 and adds the digit. No
/// digits stand for zero.
pub proof fn digits_value(digits: Seq<u8>, digit: u8)
    ensures
        rlp::be_value(Seq::empty()) == 0,
        rlp::be_value(digits.push(digit)) == rlp::be_value(digits) * 256 + digit,
{
    assert(digits.push(digit).drop_last() =~= digits);
}

/// A number is written as its digits, most significant first and without leading zeros, behind a
/// byte that counts them. Numbers from 1 to 127 are written as themselves; zero has no digits.
pub proof fn number_bytes(n: nat)
    requires
        n <= u64::MAX,
    ensures
        n == 0 ==> rlp::uint(n) == seq![0x80u8],
        0 < n < 0x80 ==> rlp::uint(n) == seq![n as u8],
        0x80 <= n <= 0xFF ==> rlp::uint(n) == seq![0x81u8, n as u8],
        0x100 <= n <= 0xFFFF ==> rlp::uint(n) == seq![0x82u8, (n / 256) as u8, (n % 256) as u8],
        0x80 <= n ==> exists|digits: Seq<u8>|
            {
                &&& 1 <= digits.len() <= 8
                &&& digits[0] != 0
                &&& #[trigger] rlp::be_value(digits) == n
                &&& rlp::uint(n) == seq![(0x80 + digits.len()) as u8] + digits
            },
{
    let digits = rlp::be_bytes(n);
    rlp::lemma_be_len(n);
    rlp::lemma_be_round_trip(n);
    if n == 0 {
        assert(rlp::uint(n) =~= seq![0x80u8]);
    } else if n < 0x100 {
        reveal_with_fuel(rlp::be_bytes, 2);
        assert(digits =~= seq![n as u8]);
        if n < 0x80 {
            assert(rlp::uint(n) =~= seq![n as u8]);
        } else {
            assert(rlp::uint(n) =~= seq![0x81u8, n as u8]);
        }
    } else if n <= 0xFFFF {
        reveal_with_fuel(rlp::be_bytes, 3);
        assert(digits =~= seq![(n / 256) as u8, (n % 256) as u8]);
        assert(rlp::uint(n) =~= seq![0x82u8, (n / 256) as u8, (n % 256) as u8]);
    }
    if n >= 0x80 {
        rlp::lemma_be_first(n);
        assert(rlp::be_value(digits) == n);
        assert(digits.len() == 1 ==> digits[0] == n) by {
            if digits.len() == 1 {
                reveal_with_fuel(rlp::be_value, 2);
            }
        }
        assert(rlp::uint(n) =~= seq![(0x80 + digits.len()) as u8] + digits);
    }
}

/// A string of less than 56 bytes stands behind a byte that counts them, except that a single byte
/// below `0x80` stands for itself. A longer string stands behind the number of its bytes and a byte
/// that counts the digits of that number.
pub proof fn string_bytes(payload: Seq<u8>)
    requires
        payload.len() <= u64::MAX,
    ensures
        payload.len() == 1 && payload[0] < 0x80 ==> rlp::item(false, payload) == payload,
        payload.len() < 56 && !(payload.len() == 1 && payload[0] < 0x80) ==> rlp::item(
            false,
            payload,
        ) == seq![(0x80 + payload.len()) as u8] + payload,
        56 <= payload.len() ==> exists|digits: Seq<u8>|
            {
                &&& 1 <= digits.len() <= 8
                &&& digits[0] != 0
                &&& #[trigger] rlp::be_value(digits) == payload.len()
                &&& rlp::item(false, payload) == seq![(0xB7 + digits.len()) as u8] + digits
                    + payload
            },
{
    let n = payload.len();
    assert(Seq::<u8>::empty() + payload =~= payload);
    if n >= 56 {
        rlp::lemma_be_len(n);
        rlp::lemma_be_round_trip(n);
        rlp::lemma_be_first(n);
        assert(rlp::be_value(rlp::be_bytes(n)) == n);
    }
}

/// The elements of a list stand behind a byte that counts their bytes, if these are less than 56,
/// and otherwise behind the number of their bytes and a byte that counts the digits of that number.
pub proof fn list_bytes(payload: Seq<u8>)
    requires
        payload.len() <= u64::MAX,
    ensures
        payload.len() < 56 ==> rlp::item(true, payload) == seq![(0xC0 + payload.len()) as u8]
            + payload,
        56 <= payload.len() <= 0xFF ==> rlp::item(true, payload) == seq![
            0xF8u8,
            payload.len() as u8,
        ] + payload,
        56 <= payload.len() ==> exists|digits: Seq<u8>|
            {
                &&& 1 <= digits.len() <= 8
                &&& digits[0] != 0
                &&& #[trigger] rlp::be_value(digits) == payload.len()
                &&& rlp::item(true, payload) == seq![(0xF7 + digits.len()) as u8] + digits + payload
            },
{
    let n = payload.len();
    let digits = rlp::be_bytes(n);
    if n >= 56 {
        rlp::lemma_be_len(n);
        rlp::lemma_be_round_trip(n);
        rlp::lemma_be_first(n);
        assert(rlp::be_value(digits) == n);
        if n <= 0xFF {
            reveal_with_fuel(rlp::be_bytes, 2);
            assert(digits =~= seq![n as u8]);
            assert(rlp::item(true, payload) =~= seq![0xF8u8, n as u8] + payload);
        }
    }
}

/// An input is taken for an item if and only if it begins with the bytes of that item.
pub proof fn item_found(s: Seq<u8>, list: bool, payload: Seq<u8>)
    ensures
        rlp::item_at(s) == Some((list, payload)) <==> payload.len() <= u64::MAX && rlp::item(
            list,
            payload,
        ).is_prefix_of(s),
{
    if rlp::item_at(s) == Some((list, payload)) {
        rlp::lemma_item_at_front(s, list, payload);
    }
    if rlp::starts_with_item(s, list, payload) {
        rlp::lemma_item_at(s, list, payload);
    }
}

/// A list is read if and only if the input is that list and what follows it.
pub proof fn list_found(s: Seq<u8>, payload: Seq<u8>, rest: Seq<u8>)
    ensures
        rlp::list_at(s) == Some((payload, rest)) <==> payload.len() <= u64::MAX && s == rlp::item(
            true,
            payload,
        ) + rest,
{
    if rlp::list_at(s) == Some((payload, rest)) {
        rlp::lemma_item_at_front(s, true, payload);
    }
    if payload.len() <= u64::MAX && s == rlp::item(true, payload) + rest {
        rlp::lemma_item_then(true, payload, rest);
    }
}

/// Four bytes are read if and only if the input is `0x84`, these bytes and what follows them.
pub proof fn octets_found(s: Seq<u8>, octets: Seq<u8>, rest: Seq<u8>)
    ensures
        rlp::octets_at(s) == Some((octets, rest)) <==> octets.len() == 4 && s == seq![0x84u8]
            + octets + rest,
{
    if octets.len() == 4 {
        string_bytes(octets);
    }
    if rlp::octets_at(s) == Some((octets, rest)) {
        rlp::lemma_item_at_front(s, false, octets);
    }
    if octets.len() == 4 && s == seq![0x84u8] + octets + rest {
        rlp::lemma_item_then(false, octets, rest);
    }
}

/// A number is read if and only if it is not above the maximum and the input is its bytes and what
/// follows them.
pub proof fn number_found(s: Seq<u8>, max: nat, n: nat, rest: Seq<u8>)
    requires
        max <= u64::MAX,
    ensures
        rlp::uint_at(s, max) == Some((n, rest)) <==> n <= max && s == rlp::uint(n) + rest,
{
    if rlp::uint_at(s, max) == Some((n, rest)) {
        rlp::lemma_uint_at_front(s, max, n, rest);
    }
    if n <= max && s == rlp::uint(n) + rest {
        rlp::lemma_uint_then(n, max, rest);
    }
}

/// The elements of a list are written one after the other, in their order, with nothing between
/// them.
pub proof fn elements_in_order<T: Encodable>(vs: Seq<T::V>, v: T::V, ws: Seq<T::V>)
    ensures
        encoding::concat::<T>(Seq::empty()) == Seq::<u8>::empty(),
        encoding::concat::<T>(seq![v]) == T::rlp(v),
        encoding::concat::<T>(vs + ws) == encoding::concat::<T>(vs) + encoding::concat::<T>(ws),
    decreases ws.len(),
{
    let none = Seq::<T::V>::empty();
    encoding::lemma_concat_push::<T>(none, v);
    assert(none.push(v) =~= seq![v]);
    assert(encoding::concat::<T>(none) + T::rlp(v) =~= T::rlp(v));
    if ws.len() == 0 {
        assert(vs + ws =~= vs);
        assert(ws =~= none);
        assert(encoding::concat::<T>(vs) + encoding::concat::<T>(ws) =~= encoding::concat::<T>(vs));
    } else {
        let front = ws.drop_last();
        let last = ws.last();
        elements_in_order::<T>(vs, v, front);
        encoding::lemma_concat_push::<T>(vs + front, last);
        encoding::lemma_concat_push::<T>(front, last);
        assert((vs + front).push(last) =~= vs + ws);
        assert(front.push(last) =~= ws);
        assert(encoding::concat::<T>(vs + ws) =~= encoding::concat::<T>(vs)
            + encoding::concat::<T>(ws));
    }
}

/// The elements of a list are read from the front of what is left of it until nothing is left. An
/// element beyond the limit is refused before it is read; the first element that cannot be read
/// decides the error.
pub proof fn elements_read<T: Decodable>(payload: Seq<u8>, limit: nat)
    ensures
        payload.len() == 0 ==> encoding::items::<T>(payload, limit) == Ok::<
            Seq<T::V>,
            DecodeError,
        >(Seq::empty()),
        payload.len() > 0 && limit == 0 ==> encoding::items::<T>(payload, limit) == Err::<
            Seq<T::V>,
            DecodeError,
        >(DecodeError::TooManyItems),
        payload.len() > 0 && limit > 0 ==> match T::decoded(payload) {
            (Err(e), _) => encoding::items::<T>(payload, limit) == Err::<Seq<T::V>, DecodeError>(e),
            (Ok(v), rest) => match encoding::items::<T>(rest, (limit - 1) as nat) {
                Err(e) => encoding::items::<T>(payload, limit) == Err::<Seq<T::V>, DecodeError>(e),
                Ok(vs) => encoding::items::<T>(payload, limit) == Ok::<Seq<T::V>, DecodeError>(
                    seq![v] + vs,
                ),
            },
        },
{
}

/// Reading a list takes the whole list, whatever becomes of its elements. Without a list at the
/// front, the reason and what is left are those of the reader of lists.
pub proof fn list_taken_whole<T: Decodable>(input: Seq<u8>, limit: nat)
    ensures
        match rlp::list_at(input) {
            Some((payload, rest)) => encoding::list_with_limit::<T>(input, limit) == (
                encoding::items::<T>(payload, limit),
                rest,
            ),
            None => encoding::list_with_limit::<T>(input, limit) == (
                Err::<Seq<T::V>, DecodeError>(DecodeError::Rlp(codec::list_failure(input).0)),
                codec::list_failure(input).1,
            ),
        },
{
}

} // verus!
