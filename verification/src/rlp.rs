//! The RLP wire format, as far as name records use it: what the encoding of a string, of a list
//! and of an unsigned integer is, and what it means that an input begins with such an item.
use vstd::prelude::*;

verus! {

/// The big-endian digits of `n` in base 256, without leading zeros. Zero has no digits.
pub open spec fn be_bytes(n: nat) -> Seq<u8>
    decreases n,
{
    if n == 0 {
        Seq::empty()
    } else {
        be_bytes(n / 256).push((n % 256) as u8)
    }
}

/// The number that the big-endian digits `s` in base 256 stand for.
pub open spec fn be_value(s: Seq<u8>) -> nat
    decreases s.len(),
{
    if s.len() == 0 {
        0
    } else {
        be_value(s.drop_last()) * 256 + s.last() as nat
    }
}

/// The length prefix of an item: one byte for a payload of less than 56 bytes, otherwise a byte
/// that counts the digits of the length, followed by these digits.
pub open spec fn length_prefix(list: bool, n: nat) -> Seq<u8> {
    let base: int = if list { 0xC0 } else { 0x80 };
    if n < 56 {
        seq![(base + n) as u8]
    } else {
        seq![(base + 55 + be_bytes(n).len()) as u8] + be_bytes(n)
    }
}

/// What stands in front of the payload of an item: nothing for a string that is one byte below
/// `0x80`, the length prefix for everything else.
pub open spec fn item_header(list: bool, payload: Seq<u8>) -> Seq<u8> {
    if !list && payload.len() == 1 && payload[0] < 0x80 {
        Seq::empty()
    } else {
        length_prefix(list, payload.len())
    }
}

/// The encoding of the string `payload`, or of the list whose encoded elements are `payload`.
pub open spec fn item(list: bool, payload: Seq<u8>) -> Seq<u8> {
    item_header(list, payload) + payload
}

/// The encoding of the unsigned integer `n`: the string of its digits.
pub open spec fn uint(n: nat) -> Seq<u8> {
    item(false, be_bytes(n))
}

/// `s` begins with the encoding of the given string or list. The format ends at payloads of
/// 2^64 - 1 bytes.
pub open spec fn starts_with_item(s: Seq<u8>, list: bool, payload: Seq<u8>) -> bool {
    &&& payload.len() <= u64::MAX
    &&& item(list, payload).is_prefix_of(s)
}

/// The item that `s` begins with: whether it is a list, and its payload.
pub open spec fn item_at(s: Seq<u8>) -> Option<(bool, Seq<u8>)> {
    if exists|list: bool, payload: Seq<u8>| #[trigger] starts_with_item(s, list, payload) {
        Some(choose|it: (bool, Seq<u8>)| #[trigger] starts_with_item(s, it.0, it.1))
    } else {
        None
    }
}

/// What follows the encoding of the given string or list in `s`.
pub open spec fn after_item(s: Seq<u8>, list: bool, payload: Seq<u8>) -> Seq<u8> {
    s.skip(item(list, payload).len() as int)
}

/// The list that `s` begins with: its payload, and what follows the list.
pub open spec fn list_at(s: Seq<u8>) -> Option<(Seq<u8>, Seq<u8>)> {
    match item_at(s) {
        Some((true, payload)) => Some((payload, after_item(s, true, payload))),
        _ => None,
    }
}

/// The string of four bytes that `s` begins with, and what follows it.
pub open spec fn octets_at(s: Seq<u8>) -> Option<(Seq<u8>, Seq<u8>)> {
    match item_at(s) {
        Some((false, payload)) => if payload.len() == 4 {
            Some((payload, after_item(s, false, payload)))
        } else {
            None
        },
        _ => None,
    }
}

/// The unsigned integer of at most `max` that `s` begins with, and what follows it.
pub open spec fn uint_at(s: Seq<u8>, max: nat) -> Option<(nat, Seq<u8>)> {
    match item_at(s) {
        Some((false, payload)) => {
            let n = be_value(payload);
            if payload == be_bytes(n) && n <= max {
                Some((n, after_item(s, false, payload)))
            } else {
                None
            }
        },
        _ => None,
    }
}

/// The digits of a number stand for that number.
pub proof fn lemma_be_round_trip(n: nat)
    ensures
        be_value(be_bytes(n)) == n,
    decreases n,
{
    if n > 0 {
        lemma_be_round_trip(n / 256);
        assert(be_bytes(n).drop_last() =~= be_bytes(n / 256));
    }
}

proof fn lemma_be_len_pow(n: nat, k: nat)
    requires
        n < vstd::arithmetic::power::pow(256, k),
    ensures
        be_bytes(n).len() <= k,
    decreases k,
{
    reveal(vstd::arithmetic::power::pow);
    if n > 0 {
        lemma_be_len_pow(n / 256, (k - 1) as nat);
    }
}

/// A number below 256^2 has at most two digits, one below 2^64 at most eight.
pub proof fn lemma_be_len(n: nat)
    ensures
        n > 0 ==> be_bytes(n).len() > 0,
        n <= u8::MAX ==> be_bytes(n).len() <= 1,
        n <= u16::MAX ==> be_bytes(n).len() <= 2,
        n <= u64::MAX ==> be_bytes(n).len() <= 8,
{
    reveal_with_fuel(vstd::arithmetic::power::pow, 9);
    if n <= u8::MAX {
        lemma_be_len_pow(n, 1);
    }
    if n <= u16::MAX {
        lemma_be_len_pow(n, 2);
    }
    if n <= u64::MAX {
        assert(vstd::arithmetic::power::pow(256, 8) == 0x1_0000_0000_0000_0000);
        lemma_be_len_pow(n, 8);
    }
}

/// The digits of a number do not begin with a zero.
pub proof fn lemma_be_first(n: nat)
    requires
        n > 0,
    ensures
        be_bytes(n).len() > 0,
        be_bytes(n)[0] != 0,
    decreases n,
{
    if n >= 256 {
        lemma_be_first(n / 256);
    } else {
        reveal_with_fuel(be_bytes, 2);
    }
}

/// The first byte of an item tells its kind and, up to 55 bytes, its length.
proof fn lemma_first_byte(list: bool, payload: Seq<u8>)
    requires
        payload.len() <= u64::MAX,
    ensures
        item(list, payload).len() > 0,
        item_header(list, payload).len() == 0 ==> !list && payload.len() == 1 && item(
            list,
            payload,
        )[0] == payload[0] < 0x80,
        item_header(list, payload).len() > 0 && payload.len() < 56 ==> {
            &&& item_header(list, payload).len() == 1
            &&& item(list, payload)[0] == (if list { 0xC0int } else { 0x80int }) + payload.len()
        },
        payload.len() >= 56 ==> {
            &&& 1 <= be_bytes(payload.len()).len() <= 8
            &&& item_header(list, payload) == length_prefix(list, payload.len())
            &&& item_header(list, payload).len() == 1 + be_bytes(payload.len()).len()
            &&& item(list, payload)[0] == (if list { 0xF7int } else { 0xB7int }) + be_bytes(
                payload.len(),
            ).len()
        },
{
    lemma_be_len(payload.len());
}

/// No input begins with two different items.
pub proof fn lemma_item_unique(
    s: Seq<u8>,
    list: bool,
    payload: Seq<u8>,
    other_list: bool,
    other: Seq<u8>,
)
    requires
        starts_with_item(s, list, payload),
        starts_with_item(s, other_list, other),
    ensures
        list == other_list,
        payload == other,
{
    lemma_first_byte(list, payload);
    lemma_first_byte(other_list, other);
    let a = item(list, payload);
    let b = item(other_list, other);
    assert(a[0] == s[0]);
    assert(b[0] == s[0]);
    assert(list == other_list);
    if payload.len() >= 56 {
        assert(other.len() >= 56);
        let k: int = be_bytes(payload.len()).len() as int;
        assert(be_bytes(other.len()).len() == k);
        assert(be_bytes(payload.len()) =~= s.subrange(1, 1 + k)) by {
            assert forall|i: int| 0 <= i < k implies be_bytes(payload.len())[i] == s[1 + i] by {
                assert(a[1 + i] == s[1 + i]);
            }
        }
        assert(be_bytes(other.len()) =~= s.subrange(1, 1 + k)) by {
            assert forall|i: int| 0 <= i < k implies be_bytes(other.len())[i] == s[1 + i] by {
                assert(b[1 + i] == s[1 + i]);
            }
        }
        lemma_be_round_trip(payload.len());
        lemma_be_round_trip(other.len());
    }
    assert(payload.len() == other.len());
    let h = item_header(list, payload).len();
    assert(item_header(other_list, other).len() == h);
    assert forall|i: int| 0 <= i < payload.len() implies payload[i] == other[i] by {
        assert(a[h + i] == s[h + i]);
        assert(b[h + i] == s[h + i]);
    }
    assert(payload =~= other);
}

/// The item that an input begins with is the item at its front.
pub proof fn lemma_item_at(s: Seq<u8>, list: bool, payload: Seq<u8>)
    requires
        starts_with_item(s, list, payload),
    ensures
        item_at(s) == Some((list, payload)),
{
    let it = choose|it: (bool, Seq<u8>)| #[trigger] starts_with_item(s, it.0, it.1);
    assert(starts_with_item(s, (list, payload).0, (list, payload).1));
    lemma_item_unique(s, list, payload, it.0, it.1);
}

/// An item followed by anything is found at the front, with what follows it.
pub proof fn lemma_item_then(list: bool, payload: Seq<u8>, rest: Seq<u8>)
    requires
        payload.len() <= u64::MAX,
    ensures
        starts_with_item(item(list, payload) + rest, list, payload),
        item_at(item(list, payload) + rest) == Some((list, payload)),
        after_item(item(list, payload) + rest, list, payload) == rest,
{
    let s = item(list, payload) + rest;
    assert(item(list, payload) =~= s.subrange(0, item(list, payload).len() as int));
    lemma_item_at(s, list, payload);
    assert(after_item(s, list, payload) =~= rest);
}

/// The item at the front of an input stands there; what follows it, or its header, is the end of
/// the input.
pub proof fn lemma_item_at_front(s: Seq<u8>, list: bool, payload: Seq<u8>)
    requires
        item_at(s) == Some((list, payload)),
    ensures
        starts_with_item(s, list, payload),
        s == item(list, payload) + after_item(s, list, payload),
        after_item(s, list, payload).is_suffix_of(s),
        s.skip(item_header(list, payload).len() as int).is_suffix_of(s),
{
    let (l, p) = choose|l: bool, p: Seq<u8>| #[trigger] starts_with_item(s, l, p);
    lemma_item_at(s, l, p);
    assert(s =~= item(list, payload) + after_item(s, list, payload));
}

/// The beginning of an item, short of the whole, begins with no item.
pub proof fn lemma_truncated_item(list: bool, payload: Seq<u8>, n: int)
    requires
        payload.len() <= u64::MAX,
        0 <= n < item(list, payload).len(),
    ensures
        item_at(item(list, payload).take(n)) is None,
{
    let whole = item(list, payload);
    let s = whole.take(n);
    if item_at(s) is Some {
        let (l, p) = item_at(s)->0;
        lemma_item_at_front(s, l, p);
        assert(item(l, p) =~= whole.subrange(0, item(l, p).len() as int));
        assert(whole =~= whole.subrange(0, whole.len() as int));
        lemma_item_unique(whole, list, payload, l, p);
    }
}

/// The end of the end of an input is an end of the input.
pub proof fn lemma_suffix_of_suffix(a: Seq<u8>, b: Seq<u8>, c: Seq<u8>)
    requires
        a.is_suffix_of(b),
        b.is_suffix_of(c),
    ensures
        a.is_suffix_of(c),
{
    assert forall|i: int| 0 <= i < a.len() implies a[i] == c[c.len() - a.len() + i] by {
        assert(a[i] == b[b.len() - a.len() + i]);
    }
    assert(a =~= c.subrange(c.len() - a.len(), c.len() as int));
}

/// The encoding of an integer below `0x80` has one byte, that of a `u8` at most two, that of a
/// `u16` at most three, that of a `u64` at most nine.
pub proof fn lemma_uint_len(n: nat)
    requires
        n <= u64::MAX,
    ensures
        1 <= uint(n).len() <= 9,
        n < 0x80 ==> uint(n).len() == 1,
        n <= u8::MAX ==> uint(n).len() <= 2,
        n <= u16::MAX ==> uint(n).len() <= 3,
{
    lemma_be_len(n);
    lemma_first_byte(false, be_bytes(n));
    if 0 < n < 0x80 {
        reveal_with_fuel(be_bytes, 2);
        assert(be_bytes(n) =~= seq![n as u8]);
    }
}

/// A list has one byte in front of a payload of less than 56 bytes, two in front of one of less
/// than 256 bytes.
pub proof fn lemma_list_len(payload: Seq<u8>)
    requires
        payload.len() <= u64::MAX,
    ensures
        item(true, payload).len() > payload.len(),
        payload.len() < 56 ==> item(true, payload).len() == 1 + payload.len(),
        56 <= payload.len() < 256 ==> item(true, payload).len() == 2 + payload.len(),
{
    lemma_be_len(payload.len());
    lemma_first_byte(true, payload);
}

/// An integer followed by anything is read back, with what follows it.
pub proof fn lemma_uint_then(n: nat, max: nat, rest: Seq<u8>)
    requires
        n <= max <= u64::MAX,
    ensures
        uint_at(uint(n) + rest, max) == Some((n, rest)),
{
    lemma_be_len(n);
    lemma_be_round_trip(n);
    lemma_item_then(false, be_bytes(n), rest);
}

/// An integer that is read stands at the front of the input; what follows it is the end of the
/// input.
pub proof fn lemma_uint_at_front(s: Seq<u8>, max: nat, n: nat, rest: Seq<u8>)
    requires
        uint_at(s, max) == Some((n, rest)),
    ensures
        n <= max,
        s == uint(n) + rest,
        rest.is_suffix_of(s),
{
    let (list, payload) = item_at(s)->0;
    lemma_item_at_front(s, list, payload);
}

} // verus!
