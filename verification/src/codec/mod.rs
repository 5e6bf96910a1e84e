//! The compact binary codec that every on-chain entity is written in.
//!
//! A type's wire format is given by two specification functions, `encoding`
//! and `parse`, over a mathematical model of its values. The executable
//! `encode_to` and `decode_at` are proved against them, and the two laws of
//! the trait say that the functions are inverse to each other.

pub mod le;
pub mod fixed;
pub mod compact;
pub mod compound;

use vstd::prelude::*;

verus! {

/// Why a byte string was not accepted.
#[derive(Clone, Copy, Debug, PartialEq, Eq, Structural)]
pub enum CodecError {
    /// The input ends before the value does.
    Truncated,
    /// A leading byte announces a form that the target type does not have:
    /// the long form of a compact integer for a 16-bit target, a long form
    /// of more bytes than a 64-bit or 128-bit target has, or a presence byte
    /// other than 0 and 1.
    InvalidPrefix,
    /// The bytes spell a value outside the target's range, a boolean other
    /// than 0 and 1 among them, or spell a compact integer in a wider form
    /// than it needs. A long form of more than four bytes for a 32-bit target
    /// counts as a value out of range, not as an unknown form.
    OutOfRange,
}

/// `part` stands in `bytes` at offset `pos`.
pub open spec fn has_at(bytes: Seq<u8>, pos: int, part: Seq<u8>) -> bool {
    &&& 0 <= pos
    &&& pos + part.len() <= bytes.len()
    &&& bytes.subrange(pos, pos + part.len()) == part
}

/// Where a concatenation stands, its two parts stand one after the other.
pub proof fn lemma_has_at_split(bytes: Seq<u8>, pos: int, first: Seq<u8>, second: Seq<u8>)
    requires
        has_at(bytes, pos, first + second),
    ensures
        has_at(bytes, pos, first),
        has_at(bytes, pos + first.len(), second),
{
    let whole = first + second;
    assert(bytes.subrange(pos, pos + first.len()) =~= whole.subrange(0, first.len() as int));
    assert(whole.subrange(0, first.len() as int) =~= first);
    assert(bytes.subrange(pos + first.len(), pos + first.len() + second.len())
        =~= whole.subrange(first.len() as int, whole.len() as int));
    assert(whole.subrange(first.len() as int, whole.len() as int) =~= second);
}

/// Two parts that stand one after the other stand there as their concatenation.
pub proof fn lemma_has_at_join(bytes: Seq<u8>, pos: int, first: Seq<u8>, second: Seq<u8>)
    requires
        has_at(bytes, pos, first),
        has_at(bytes, pos + first.len(), second),
    ensures
        has_at(bytes, pos, first + second),
{
    let whole = first + second;
    assert(bytes.subrange(pos, pos + whole.len()) =~= bytes.subrange(pos, pos + first.len())
        + bytes.subrange(pos + first.len(), pos + first.len() + second.len()));
}

/// Concatenation may be regrouped.
pub proof fn lemma_concat_assoc(a: Seq<u8>, b: Seq<u8>, c: Seq<u8>)
    ensures
        (a + b) + c == a + (b + c),
{
}

/// A byte string stands at the start of whatever it is followed by.
pub proof fn lemma_has_at_prefix(part: Seq<u8>, rest: Seq<u8>)
    ensures
        has_at(part + rest, 0, part),
{
    assert((part + rest).subrange(0, part.len() as int) =~= part);
}

/// The position after a parse, or `pos` where it failed.
pub open spec fn end_of<M>(parsed: Result<(M, int), CodecError>, pos: int) -> int {
    match parsed {
        Ok((_, next)) => next,
        Err(_) => pos,
    }
}

/// A type with a wire format.
pub trait Wire: Sized {
    /// The mathematical value that an executable value stands for.
    type Model;

    spec fn model(&self) -> Self::Model;

    /// The values that can be written: those whose sequences are short enough
    /// for their length prefix.
    spec fn encodable(m: Self::Model) -> bool;

    /// The bytes that a value is written as.
    spec fn encoding(m: Self::Model) -> Seq<u8>;

    /// The value that stands in `bytes` at `pos` and the position after it, or
    /// the first error met while reading it field by field.
    spec fn parse(bytes: Seq<u8>, pos: int) -> Result<(Self::Model, int), CodecError>;

    /// Parsing what was written gives the value back, whatever follows it.
    proof fn lemma_round_trip(m: Self::Model, bytes: Seq<u8>, pos: int)
        requires
            Self::encodable(m),
            has_at(bytes, pos, Self::encoding(m)),
        ensures
            Self::parse(bytes, pos) == Ok::<(Self::Model, int), CodecError>(
                (m, pos + Self::encoding(m).len()),
            ),
    ;

    /// The format is canonical: the bytes that a parse consumed are the
    /// encoding of the value it returned, and there is at least one of them.
    proof fn lemma_canonical(bytes: Seq<u8>, pos: int)
        ensures
            Self::parse(bytes, pos) matches Ok((m, next)) ==> {
                &&& Self::encodable(m)
                &&& has_at(bytes, pos, Self::encoding(m))
                &&& next == pos + Self::encoding(m).len()
                &&& pos < next
            },
    ;

    /// Whether `self` can be written.
    fn can_encode(&self) -> (yes: bool)
        ensures
            yes == Self::encodable(self.model()),
    ;

    /// Appends the encoding of `self` to `out`.
    fn encode_to(&self, out: &mut Vec<u8>)
        requires
            Self::encodable(self.model()),
        ensures
            final(out)@ == old(out)@ + Self::encoding(self.model()),
    ;

    /// Reads one value at `pos`; returns it with the position after it.
    fn decode_at(bytes: &[u8], pos: usize) -> (r: Result<(Self, usize), CodecError>)
        ensures
            match r {
                Ok((value, next)) => {
                    &&& Self::parse(bytes@, pos as int) == Ok::<(Self::Model, int), CodecError>(
                        (value.model(), next as int),
                    )
                    &&& pos < next <= bytes.len()
                },
                Err(e) => Self::parse(bytes@, pos as int) == Err::<(Self::Model, int), CodecError>(
                    e,
                ),
            },
    ;
}

/// What reading one value from the start of `bytes` gives; bytes after the
/// value are not looked at.
pub open spec fn decoded<T: Wire>(bytes: Seq<u8>) -> Result<T::Model, CodecError> {
    match T::parse(bytes, 0) {
        Ok((m, _)) => Ok(m),
        Err(e) => Err(e),
    }
}

/// Writes `value` out.
pub fn encode<T: Wire>(value: &T) -> (bytes: Vec<u8>)
    requires
        T::encodable(value.model()),
    ensures
        bytes@ == T::encoding(value.model()),
{
    let mut bytes: Vec<u8> = Vec::new();
    value.encode_to(&mut bytes);
    bytes
}

/// Writes `value` out if it can be written: `None` for a value that holds a
/// sequence too long for its length prefix.
pub fn try_encode<T: Wire>(value: &T) -> (bytes: Option<Vec<u8>>)
    ensures
        match bytes {
            Some(bytes) => T::encodable(value.model()) && bytes@ == T::encoding(value.model()),
            None => !T::encodable(value.model()),
        },
{
    if value.can_encode() {
        Some(encode(value))
    } else {
        None
    }
}

/// Reads one value from the start of `bytes`.
pub fn decode<T: Wire>(bytes: &[u8]) -> (r: Result<T, CodecError>)
    ensures
        match r {
            Ok(value) => decoded::<T>(bytes@) == Ok::<T::Model, CodecError>(value.model()),
            Err(e) => decoded::<T>(bytes@) == Err::<T::Model, CodecError>(e),
        },
{
    match T::decode_at(bytes, 0) {
        Ok((value, _)) => Ok(value),
        Err(e) => Err(e),
    }
}

/// Decoding the encoding of any value that can be written gives that value.
pub proof fn lemma_decode_encode<T: Wire>(m: T::Model)
    requires
        T::encodable(m),
    ensures
        decoded::<T>(T::encoding(m)) == Ok::<T::Model, CodecError>(m),
{
    lemma_decode_ignores_trailing::<T>(m, Seq::empty());
}

/// Bytes that follow an encoding do not change what is decoded from it.
pub proof fn lemma_decode_ignores_trailing<T: Wire>(m: T::Model, rest: Seq<u8>)
    requires
        T::encodable(m),
    ensures
        decoded::<T>(T::encoding(m) + rest) == Ok::<T::Model, CodecError>(m),
{
    lemma_has_at_prefix(T::encoding(m), rest);
    T::lemma_round_trip(m, T::encoding(m) + rest, 0);
}

/// Two values with the same encoding are the same value.
pub proof fn lemma_encoding_injective<T: Wire>(a: T::Model, b: T::Model)
    requires
        T::encodable(a),
        T::encodable(b),
        T::encoding(a) == T::encoding(b),
    ensures
        a == b,
{
    lemma_decode_encode::<T>(a);
    lemma_decode_encode::<T>(b);
}

/// Every accepted input starts with the encoding of the value decoded from
/// it: no value has a second spelling.
pub proof fn lemma_accepted_is_encoding<T: Wire>(bytes: Seq<u8>)
    ensures
        decoded::<T>(bytes) matches Ok(m) ==> T::encodable(m) && has_at(bytes, 0, T::encoding(m)),
{
    T::lemma_canonical(bytes, 0);
}

/// A parse looks at nothing beyond the bytes it consumes: an input that
/// agrees with an accepted one from `pos` up to the end of the parsed value
/// gives the same value.
pub proof fn lemma_parse_is_local<T: Wire>(bytes: Seq<u8>, other: Seq<u8>, pos: int)
    ensures
        T::parse(bytes, pos) matches Ok((m, next)) ==> (next <= other.len() && other.subrange(
            pos,
            next,
        ) == bytes.subrange(pos, next) ==> T::parse(other, pos) == T::parse(bytes, pos)),
{
    T::lemma_canonical(bytes, pos);
    if let Ok((m, next)) = T::parse(bytes, pos) {
        if next <= other.len() && other.subrange(pos, next) == bytes.subrange(pos, next) {
            T::lemma_round_trip(m, other, pos);
        }
    }
}

} // verus!
