//! Values that are written to and read from RLP.
use crate::codec;
use crate::error::{DecodeError, RlpError};
use crate::rlp;
use vstd::prelude::*;

verus! {

/// A value with an RLP encoding.
pub trait Encodable: View {
    /// The encoding of the value.
    spec fn rlp(v: Self::V) -> Seq<u8>;

    /// Appends the encoding to `out`.
    fn encode(&self, out: &mut Vec<u8>)
        ensures
            final(out)@ == old(out)@ + Self::rlp(self@),
    ;
}

/// A value that can be read from RLP.
pub trait Decodable: View + Sized {
    /// The value at the front of the input, or why there is none, and what is left of the input
    /// either way.
    spec fn decoded(input: Seq<u8>) -> (Result<Self::V, DecodeError>, Seq<u8>);

    /// Takes the value off the front of `buf`.
    fn decode(buf: &mut &[u8]) -> (r: Result<Self, DecodeError>)
        ensures
            match Self::decoded(old(buf)@).0 {
                Ok(v) => r matches Ok(x) && x@ == v,
                Err(e) => r == Err::<Self, DecodeError>(e),
            },
            final(buf)@ == Self::decoded(old(buf)@).1,
            final(buf)@.is_suffix_of(old(buf)@),
    ;
}

/// The outcome where `alloy_rlp` refuses the input.
pub open spec fn refused<T>(failure: (RlpError, Seq<u8>)) -> (
    Result<T, DecodeError>,
    Seq<u8>,
) {
    (Err(DecodeError::Rlp(failure.0)), failure.1)
}

/// The encodings of the values, one after the other.
pub open spec fn concat<T: Encodable>(vs: Seq<T::V>) -> Seq<u8>
    decreases vs.len(),
{
    if vs.len() == 0 {
        Seq::empty()
    } else {
        T::rlp(vs.first()) + concat::<T>(vs.drop_first())
    }
}

/// One more value adds its encoding at the end.
pub proof fn lemma_concat_push<T: Encodable>(vs: Seq<T::V>, v: T::V)
    ensures
        concat::<T>(vs.push(v)) == concat::<T>(vs) + T::rlp(v),
    decreases vs.len(),
{
    if vs.len() == 0 {
        reveal_with_fuel(concat, 2);
        assert(vs.push(v).drop_first() =~= vs);
        assert(concat::<T>(vs.push(v)) =~= concat::<T>(vs) + T::rlp(v));
    } else {
        assert(vs.push(v).drop_first() =~= vs.drop_first().push(v));
        lemma_concat_push::<T>(vs.drop_first(), v);
        assert(concat::<T>(vs.push(v)) =~= concat::<T>(vs) + T::rlp(v));
    }
}

/// Appends the list of the values to `out`.
pub fn encode_vec<T: Encodable>(values: &Vec<T>, out: &mut Vec<u8>)
    ensures
        final(out)@ == old(out)@ + rlp::item(true, concat::<T>(values@.map_values(|t: T| t@))),
{
    let ghost vs = values@.map_values(|t: T| t@);
    let ghost before = out@;
    let mut payload: Vec<u8> = Vec::new();
    let mut i: usize = 0;
    assert(vs.take(0) =~= Seq::empty());
    while i < values.len()
        invariant
            i <= values@.len(),
            vs == values@.map_values(|t: T| t@),
            payload@ == concat::<T>(vs.take(i as int)),
        decreases values@.len() - i,
    {
        values[i].encode(&mut payload);
        proof {
            lemma_concat_push::<T>(vs.take(i as int), vs[i as int]);
            assert(vs.take(i as int).push(vs[i as int]) =~= vs.take(i + 1));
        }
        i = i + 1;
    }
    assert(vs.take(i as int) =~= vs);
    codec::encode_list_header(payload.len(), out);
    out.append(&mut payload);
    assert(out@ =~= before + rlp::item(true, concat::<T>(vs)));
}

/// The elements that make up the payload of a list, if there are at most `limit` of them.
pub open spec fn items<T: Decodable>(payload: Seq<u8>, limit: nat) -> Result<Seq<T::V>, DecodeError>
    decreases limit,
{
    if payload.len() == 0 {
        Ok(Seq::empty())
    } else if limit == 0 {
        Err(DecodeError::TooManyItems)
    } else {
        let (outcome, rest) = T::decoded(payload);
        match outcome {
            Err(e) => Err(e),
            Ok(v) => match items::<T>(rest, (limit - 1) as nat) {
                Err(e) => Err(e),
                Ok(vs) => Ok(seq![v] + vs),
            },
        }
    }
}

/// There are never more elements than the limit allows.
pub proof fn lemma_items_len<T: Decodable>(payload: Seq<u8>, limit: nat)
    ensures
        items::<T>(payload, limit) matches Ok(vs) ==> vs.len() <= limit,
    decreases limit,
{
    if payload.len() > 0 && limit > 0 {
        let (outcome, rest) = T::decoded(payload);
        lemma_items_len::<T>(rest, (limit - 1) as nat);
    }
}

/// The elements of the list at the front of the input, if there are at most `limit` of them, and
/// what is left of the input. Where there is a list, that is what follows it, whatever is in it.
pub open spec fn list_with_limit<T: Decodable>(input: Seq<u8>, limit: nat) -> (
    Result<Seq<T::V>, DecodeError>,
    Seq<u8>,
) {
    match rlp::list_at(input) {
        None => refused(codec::list_failure(input)),
        Some((payload, rest)) => (items::<T>(payload, limit), rest),
    }
}

/// Takes a list of at most `limit` elements off the front of `buf`.
pub fn decode_vec_with_limit<T: Decodable>(buf: &mut &[u8], limit: usize) -> (r: Result<
    Vec<T>,
    DecodeError,
>)
    ensures
        match list_with_limit::<T>(old(buf)@, limit as nat).0 {
            Ok(vs) => r matches Ok(v) && v@.map_values(|t: T| t@) == vs,
            Err(e) => r == Err::<Vec<T>, DecodeError>(e),
        },
        final(buf)@ == list_with_limit::<T>(old(buf)@, limit as nat).1,
        final(buf)@.is_suffix_of(old(buf)@),
{
    proof {
        codec::lemma_left_is_suffix(buf@, 0);
    }
    let bytes = match codec::decode_list(buf) {
        Ok(bytes) => bytes,
        Err(e) => return Err(DecodeError::Rlp(e)),
    };
    let mut payload: &[u8] = bytes;
    let mut vec: Vec<T> = Vec::new();
    proof {
        rlp::lemma_item_at_front(old(buf)@, true, bytes@);
        assert(vec@.map_values(|t: T| t@) =~= Seq::<T::V>::empty());
        match items::<T>(bytes@, limit as nat) {
            Ok(vs) => assert(Seq::<T::V>::empty() + vs =~= vs),
            Err(e) => {},
        }
    }
    while !payload.is_empty()
        invariant
            rlp::list_at(old(buf)@) == Some((bytes@, buf@)),
            buf@.is_suffix_of(old(buf)@),
            vec@.len() <= limit,
            match items::<T>(payload@, (limit - vec@.len()) as nat) {
                Ok(vs) => items::<T>(bytes@, limit as nat) == Ok::<Seq<T::V>, DecodeError>(
                    vec@.map_values(|t: T| t@) + vs,
                ),
                Err(e) => items::<T>(bytes@, limit as nat) == Err::<Seq<T::V>, DecodeError>(e),
            },
        decreases limit - vec@.len(),
    {
        if vec.len() >= limit {
            return Err(DecodeError::TooManyItems);
        }
        let ghost before = vec@.map_values(|t: T| t@);
        let ghost left = (limit - vec@.len()) as nat;
        let ghost input = payload@;
        let t = match T::decode(&mut payload) {
            Ok(t) => t,
            Err(e) => return Err(e),
        };
        vec.push(t);
        proof {
            assert(vec@.map_values(|t: T| t@) =~= before + seq![t@]);
            match items::<T>(payload@, (left - 1) as nat) {
                Ok(vs) => assert(before + (seq![t@] + vs) =~= vec@.map_values(|t: T| t@) + vs),
                Err(e) => {},
            }
        }
    }
    assert(vec@.map_values(|t: T| t@) + Seq::<T::V>::empty() =~= vec@.map_values(|t: T| t@));
    Ok(vec)
}

} // verus!
