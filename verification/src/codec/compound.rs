//! Optional values, pairs and sequences of anything that has a wire format.

use vstd::prelude::*;
use crate::codec::{CodecError, Wire, has_at, lemma_has_at_join, lemma_has_at_split};
use crate::codec::compact::{compact_encoding, encode_compact, Compact};

verus! {

/// An optional value is a presence byte, 0 or 1, and the value where it is 1.
impl<T: Wire> Wire for Option<T> {
    type Model = Option<T::Model>;

    open spec fn model(&self) -> Option<T::Model> {
        match self {
            Some(v) => Some(v.model()),
            None => None,
        }
    }

    open spec fn encodable(m: Option<T::Model>) -> bool {
        m matches Some(v) ==> T::encodable(v)
    }

    open spec fn encoding(m: Option<T::Model>) -> Seq<u8> {
        match m {
            Some(v) => seq![1u8] + T::encoding(v),
            None => seq![0u8],
        }
    }

    open spec fn parse(bytes: Seq<u8>, pos: int) -> Result<(Option<T::Model>, int), CodecError> {
        if !(0 <= pos < bytes.len()) {
            Err(CodecError::Truncated)
        } else if bytes[pos] == 0 {
            Ok((None, pos + 1))
        } else if bytes[pos] == 1 {
            match T::parse(bytes, pos + 1) {
                Ok((v, next)) => Ok((Some(v), next)),
                Err(e) => Err(e),
            }
        } else {
            Err(CodecError::InvalidPrefix)
        }
    }

    proof fn lemma_round_trip(m: Option<T::Model>, bytes: Seq<u8>, pos: int) {
        let enc = Self::encoding(m);
        assert(bytes[pos] == bytes.subrange(pos, pos + enc.len())[0]);
        match m {
            Some(v) => {
                lemma_has_at_split(bytes, pos, seq![1u8], T::encoding(v));
                T::lemma_round_trip(v, bytes, pos + 1);
            },
            None => {},
        }
    }

    proof fn lemma_canonical(bytes: Seq<u8>, pos: int) {
        if 0 <= pos < bytes.len() {
            assert(bytes.subrange(pos, pos + 1) =~= seq![bytes[pos]]);
            if bytes[pos] == 1 {
                T::lemma_canonical(bytes, pos + 1);
                if let Ok((v, next)) = T::parse(bytes, pos + 1) {
                    lemma_has_at_join(bytes, pos, seq![1u8], T::encoding(v));
                }
            }
        }
    }

    fn can_encode(&self) -> (yes: bool) {
        match self {
            Some(v) => v.can_encode(),
            None => true,
        }
    }

    fn encode_to(&self, out: &mut Vec<u8>) {
        match self {
            Some(v) => {
                out.push(1);
                v.encode_to(out);
            },
            None => {
                out.push(0);
            },
        }
    }

    fn decode_at(bytes: &[u8], pos: usize) -> (r: Result<(Option<T>, usize), CodecError>) {
        if pos > bytes.len() || bytes.len() - pos < 1 {
            return Err(CodecError::Truncated);
        }
        let tag: u8 = bytes[pos];
        if tag == 0 {
            Ok((None, pos + 1))
        } else if tag == 1 {
            match T::decode_at(bytes, pos + 1) {
                Ok((v, next)) => Ok((Some(v), next)),
                Err(e) => Err(e),
            }
        } else {
            Err(CodecError::InvalidPrefix)
        }
    }
}

/// A pair is its first part followed by its second.
impl<A: Wire, B: Wire> Wire for (A, B) {
    type Model = (A::Model, B::Model);

    open spec fn model(&self) -> (A::Model, B::Model) {
        (self.0.model(), self.1.model())
    }

    open spec fn encodable(m: (A::Model, B::Model)) -> bool {
        A::encodable(m.0) && B::encodable(m.1)
    }

    open spec fn encoding(m: (A::Model, B::Model)) -> Seq<u8> {
        A::encoding(m.0) + B::encoding(m.1)
    }

    open spec fn parse(bytes: Seq<u8>, pos: int) -> Result<((A::Model, B::Model), int), CodecError> {
        match A::parse(bytes, pos) {
            Err(e) => Err(e),
            Ok((a, mid)) => match B::parse(bytes, mid) {
                Err(e) => Err(e),
                Ok((b, next)) => Ok(((a, b), next)),
            },
        }
    }

    proof fn lemma_round_trip(m: (A::Model, B::Model), bytes: Seq<u8>, pos: int) {
        lemma_has_at_split(bytes, pos, A::encoding(m.0), B::encoding(m.1));
        A::lemma_round_trip(m.0, bytes, pos);
        B::lemma_round_trip(m.1, bytes, pos + A::encoding(m.0).len());
    }

    proof fn lemma_canonical(bytes: Seq<u8>, pos: int) {
        A::lemma_canonical(bytes, pos);
        if let Ok((a, mid)) = A::parse(bytes, pos) {
            B::lemma_canonical(bytes, mid);
            if let Ok((b, next)) = B::parse(bytes, mid) {
                lemma_has_at_join(bytes, pos, A::encoding(a), B::encoding(b));
            }
        }
    }

    fn can_encode(&self) -> (yes: bool) {
        self.0.can_encode() && self.1.can_encode()
    }

    fn encode_to(&self, out: &mut Vec<u8>) {
        self.0.encode_to(out);
        self.1.encode_to(out);
    }

    fn decode_at(bytes: &[u8], pos: usize) -> (r: Result<((A, B), usize), CodecError>) {
        let (a, mid) = A::decode_at(bytes, pos)?;
        let (b, next) = B::decode_at(bytes, mid)?;
        Ok(((a, b), next))
    }
}

/// The items of a sequence written one after the other.
pub open spec fn encode_items<T: Wire>(items: Seq<T::Model>) -> Seq<u8>
    decreases items.len(),
{
    if items.len() == 0 {
        Seq::empty()
    } else {
        encode_items::<T>(items.drop_last()) + T::encoding(items.last())
    }
}

/// The first `count` items that stand from `pos` on, read in order; the error
/// of the first item that cannot be read.
pub open spec fn parse_items<T: Wire>(bytes: Seq<u8>, pos: int, count: nat) -> Result<
    (Seq<T::Model>, int),
    CodecError,
>
    decreases count,
{
    if count == 0 {
        Ok((Seq::empty(), pos))
    } else {
        match parse_items::<T>(bytes, pos, (count - 1) as nat) {
            Err(e) => Err(e),
            Ok((init, mid)) => match T::parse(bytes, mid) {
                Err(e) => Err(e),
                Ok((last, next)) => Ok((init.push(last), next)),
            },
        }
    }
}

pub open spec fn all_encodable<T: Wire>(items: Seq<T::Model>) -> bool {
    forall|i: int| 0 <= i < items.len() ==> T::encodable(#[trigger] items[i])
}

pub proof fn lemma_items_round_trip<T: Wire>(items: Seq<T::Model>, bytes: Seq<u8>, pos: int)
    requires
        all_encodable::<T>(items),
        has_at(bytes, pos, encode_items::<T>(items)),
    ensures
        parse_items::<T>(bytes, pos, items.len()) == Ok::<(Seq<T::Model>, int), CodecError>(
            (items, pos + encode_items::<T>(items).len()),
        ),
    decreases items.len(),
{
    if items.len() > 0 {
        let init = items.drop_last();
        lemma_has_at_split(bytes, pos, encode_items::<T>(init), T::encoding(items.last()));
        lemma_items_round_trip::<T>(init, bytes, pos);
        T::lemma_round_trip(items.last(), bytes, pos + encode_items::<T>(init).len());
        assert(init.push(items.last()) =~= items);
    } else {
        assert(items =~= Seq::empty());
    }
}

pub proof fn lemma_items_canonical<T: Wire>(bytes: Seq<u8>, pos: int, count: nat)
    requires
        0 <= pos <= bytes.len(),
    ensures
        parse_items::<T>(bytes, pos, count) matches Ok((items, next)) ==> {
            &&& items.len() == count
            &&& all_encodable::<T>(items)
            &&& has_at(bytes, pos, encode_items::<T>(items))
            &&& next == pos + encode_items::<T>(items).len()
            &&& next >= pos + count
        },
    decreases count,
{
    if count > 0 {
        lemma_items_canonical::<T>(bytes, pos, (count - 1) as nat);
        if let Ok((init, mid)) = parse_items::<T>(bytes, pos, (count - 1) as nat) {
            T::lemma_canonical(bytes, mid);
            if let Ok((last, next)) = T::parse(bytes, mid) {
                let items = init.push(last);
                assert(items.drop_last() =~= init);
                lemma_has_at_join(bytes, pos, encode_items::<T>(init), T::encoding(last));
            }
        }
    } else {
        assert(bytes.subrange(pos, pos) =~= Seq::<u8>::empty());
    }
}

/// Once an item fails, every longer read fails with the same error.
pub proof fn lemma_items_error_persists<T: Wire>(bytes: Seq<u8>, pos: int, short: nat, long: nat)
    requires
        short <= long,
        parse_items::<T>(bytes, pos, short) is Err,
    ensures
        parse_items::<T>(bytes, pos, long) == parse_items::<T>(bytes, pos, short),
    decreases long,
{
    if short < long {
        lemma_items_error_persists::<T>(bytes, pos, short, (long - 1) as nat);
    }
}

/// The encodings of the first `n + 1` items are those of the first `n`
/// followed by that of item `n`.
pub proof fn lemma_encode_items_step<T: Wire>(items: Seq<T::Model>, n: int)
    requires
        0 <= n < items.len(),
    ensures
        encode_items::<T>(items.take(n + 1)) == encode_items::<T>(items.take(n)) + T::encoding(
            items[n],
        ),
{
    assert(items.take(n + 1).drop_last() =~= items.take(n));
}

/// A sequence is its length as a compact 32-bit integer, followed by its items.
impl<T: Wire> Wire for Vec<T> {
    type Model = Seq<T::Model>;

    open spec fn model(&self) -> Seq<T::Model> {
        self@.map_values(|v: T| v.model())
    }

    open spec fn encodable(m: Seq<T::Model>) -> bool {
        m.len() <= u32::MAX && all_encodable::<T>(m)
    }

    open spec fn encoding(m: Seq<T::Model>) -> Seq<u8> {
        compact_encoding(m.len()) + encode_items::<T>(m)
    }

    open spec fn parse(bytes: Seq<u8>, pos: int) -> Result<(Seq<T::Model>, int), CodecError> {
        match Compact::<u32>::parse(bytes, pos) {
            Err(e) => Err(e),
            Ok((count, start)) => parse_items::<T>(bytes, start, count as nat),
        }
    }

    proof fn lemma_round_trip(m: Seq<T::Model>, bytes: Seq<u8>, pos: int) {
        lemma_has_at_split(bytes, pos, compact_encoding(m.len()), encode_items::<T>(m));
        Compact::<u32>::lemma_round_trip(m.len() as u32, bytes, pos);
        lemma_items_round_trip::<T>(m, bytes, pos + compact_encoding(m.len()).len());
    }

    proof fn lemma_canonical(bytes: Seq<u8>, pos: int) {
        Compact::<u32>::lemma_canonical(bytes, pos);
        if let Ok((count, start)) = Compact::<u32>::parse(bytes, pos) {
            lemma_items_canonical::<T>(bytes, start, count as nat);
            if let Ok((items, next)) = parse_items::<T>(bytes, start, count as nat) {
                lemma_has_at_join(
                    bytes,
                    pos,
                    compact_encoding(count as nat),
                    encode_items::<T>(items),
                );
            }
        }
    }

    fn can_encode(&self) -> (yes: bool) {
        let count: usize = self.len();
        if count > 0xffff_ffff {
            return false;
        }
        let ghost items = self.model();
        let mut i: usize = 0;
        while i < count
            invariant
                i <= count == self.len(),
                items == self.model(),
                forall|j: int| 0 <= j < i ==> T::encodable(#[trigger] items[j]),
            decreases count - i,
        {
            if !self[i].can_encode() {
                assert(!T::encodable(items[i as int]));
                return false;
            }
            i = i + 1;
        }
        true
    }

    fn encode_to(&self, out: &mut Vec<u8>) {
        let count: usize = self.len();
        encode_compact(out, count as u128);
        let ghost items = self.model();
        let ghost head = out@;
        let mut i: usize = 0;
        while i < count
            invariant
                i <= count == self.len(),
                items == self.model(),
                all_encodable::<T>(items),
                out@ == head + encode_items::<T>(items.take(i as int)),
            decreases count - i,
        {
            proof {
                lemma_encode_items_step::<T>(items, i as int);
            }
            self[i].encode_to(out);
            i = i + 1;
        }
        proof {
            assert(items.take(count as int) =~= items);
        }
    }

    fn decode_at(bytes: &[u8], pos: usize) -> (r: Result<(Vec<T>, usize), CodecError>) {
        let (count, start) = Compact::<u32>::decode_at(bytes, pos)?;
        let count: u32 = count.0;
        let mut items: Vec<T> = Vec::new();
        let mut at: usize = start;
        let mut i: u32 = 0;
        proof {
            assert(items.model() =~= Seq::empty());
        }
        while i < count
            invariant
                i <= count,
                pos < start <= at <= bytes.len(),
                Compact::<u32>::parse(bytes@, pos as int) == Ok::<(u32, int), CodecError>(
                    (count, start as int),
                ),
                parse_items::<T>(bytes@, start as int, i as nat) == Ok::<
                    (Seq<T::Model>, int),
                    CodecError,
                >((items.model(), at as int)),
            decreases count - i,
        {
            match T::decode_at(bytes, at) {
                Ok((item, next)) => {
                    let ghost before = items.model();
                    items.push(item);
                    proof {
                        assert(items.model() =~= before.push(item.model()));
                    }
                    at = next;
                },
                Err(e) => {
                    proof {
                        lemma_items_error_persists::<T>(
                            bytes@,
                            start as int,
                            (i + 1) as nat,
                            count as nat,
                        );
                    }
                    return Err(e);
                },
            }
            i = i + 1;
        }
        Ok((items, at))
    }
}

/// A length prefix that promises more items than bytes are left is refused,
/// since every item takes at least one byte.
pub proof fn lemma_overlong_count_refused<T: Wire>(bytes: Seq<u8>, pos: int)
    ensures
        Compact::<u32>::parse(bytes, pos) matches Ok((count, start)) ==> (count > bytes.len()
            - start ==> Vec::<T>::parse(bytes, pos) is Err),
{
    Compact::<u32>::lemma_canonical(bytes, pos);
    if let Ok((count, start)) = Compact::<u32>::parse(bytes, pos) {
        lemma_items_canonical::<T>(bytes, start, count as nat);
    }
}

} // verus!
