//! Fixed-width integers and booleans.

use vstd::prelude::*;
use crate::codec::{CodecError, Wire, has_at};

use crate::codec::le::{
    le_bytes, le_value, pow256, read_le, write_le, lemma_le_bytes_len, lemma_le_bytes_of_value,
    lemma_le_value_bound, lemma_le_value_of_bytes, lemma_pow256_values,
};

verus! {

/// The number spelled by the `width` bytes at `pos`, where there are that many.
#[verifier::opaque]
pub open spec fn parse_fixed(bytes: Seq<u8>, pos: int, width: nat) -> Result<(nat, int), CodecError> {
    if 0 <= pos && pos + width <= bytes.len() {
        Ok((le_value(bytes.subrange(pos, pos + width)), pos + width))
    } else {
        Err(CodecError::Truncated)
    }
}

pub proof fn lemma_fixed_round_trip(x: nat, width: nat, bytes: Seq<u8>, pos: int)
    requires
        x < pow256(width),
        has_at(bytes, pos, le_bytes(x, width)),
    ensures
        parse_fixed(bytes, pos, width) == Ok::<(nat, int), CodecError>((x, pos + width)),
        le_bytes(x, width).len() == width,
{
    reveal(parse_fixed);
    lemma_le_bytes_len(x, width);
    lemma_le_value_of_bytes(x, width);
}

pub proof fn lemma_fixed_canonical(bytes: Seq<u8>, pos: int, width: nat)
    ensures
        parse_fixed(bytes, pos, width) matches Ok((x, next)) ==> {
            &&& x < pow256(width)
            &&& has_at(bytes, pos, le_bytes(x, width))
            &&& next == pos + width
            &&& le_bytes(x, width).len() == width
        },
{
    reveal(parse_fixed);
    if 0 <= pos && pos + width <= bytes.len() {
        let part = bytes.subrange(pos, pos + width);
        lemma_le_value_bound(part);
        lemma_le_bytes_of_value(part);
    }
}

impl Wire for u8 {
    type Model = u8;

    open spec fn model(&self) -> u8 {
        *self
    }

    open spec fn encodable(m: u8) -> bool {
        true
    }

    open spec fn encoding(m: u8) -> Seq<u8> {
        le_bytes(m as nat, 1)
    }

    open spec fn parse(bytes: Seq<u8>, pos: int) -> Result<(u8, int), CodecError> {
        match parse_fixed(bytes, pos, 1) {
            Ok((x, next)) => Ok((x as u8, next)),
            Err(e) => Err(e),
        }
    }

    proof fn lemma_round_trip(m: u8, bytes: Seq<u8>, pos: int) {
        lemma_pow256_values();
        lemma_fixed_round_trip(m as nat, 1, bytes, pos);
    }

    proof fn lemma_canonical(bytes: Seq<u8>, pos: int) {
        lemma_pow256_values();
        lemma_fixed_canonical(bytes, pos, 1);
    }

    fn can_encode(&self) -> (yes: bool) {
        true
    }

    fn encode_to(&self, out: &mut Vec<u8>) {
        write_le(out, *self as u128, 1);
    }

    fn decode_at(bytes: &[u8], pos: usize) -> (r: Result<(u8, usize), CodecError>) {
        proof {
            reveal(parse_fixed);
        }
        if pos > bytes.len() || bytes.len() - pos < 1 {
            return Err(CodecError::Truncated);
        }
        proof {
            lemma_pow256_values();
            lemma_fixed_canonical(bytes@, pos as int, 1);
        }
        Ok((read_le(bytes, pos, 1) as u8, pos + 1))
    }
}

impl Wire for u16 {
    type Model = u16;

    open spec fn model(&self) -> u16 {
        *self
    }

    open spec fn encodable(m: u16) -> bool {
        true
    }

    open spec fn encoding(m: u16) -> Seq<u8> {
        le_bytes(m as nat, 2)
    }

    open spec fn parse(bytes: Seq<u8>, pos: int) -> Result<(u16, int), CodecError> {
        match parse_fixed(bytes, pos, 2) {
            Ok((x, next)) => Ok((x as u16, next)),
            Err(e) => Err(e),
        }
    }

    proof fn lemma_round_trip(m: u16, bytes: Seq<u8>, pos: int) {
        lemma_pow256_values();
        lemma_fixed_round_trip(m as nat, 2, bytes, pos);
    }

    proof fn lemma_canonical(bytes: Seq<u8>, pos: int) {
        lemma_pow256_values();
        lemma_fixed_canonical(bytes, pos, 2);
    }

    fn can_encode(&self) -> (yes: bool) {
        true
    }

    fn encode_to(&self, out: &mut Vec<u8>) {
        write_le(out, *self as u128, 2);
    }

    fn decode_at(bytes: &[u8], pos: usize) -> (r: Result<(u16, usize), CodecError>) {
        proof {
            reveal(parse_fixed);
        }
        if pos > bytes.len() || bytes.len() - pos < 2 {
            return Err(CodecError::Truncated);
        }
        proof {
            lemma_pow256_values();
            lemma_fixed_canonical(bytes@, pos as int, 2);
        }
        Ok((read_le(bytes, pos, 2) as u16, pos + 2))
    }
}

impl Wire for u32 {
    type Model = u32;

    open spec fn model(&self) -> u32 {
        *self
    }

    open spec fn encodable(m: u32) -> bool {
        true
    }

    open spec fn encoding(m: u32) -> Seq<u8> {
        le_bytes(m as nat, 4)
    }

    open spec fn parse(bytes: Seq<u8>, pos: int) -> Result<(u32, int), CodecError> {
        match parse_fixed(bytes, pos, 4) {
            Ok((x, next)) => Ok((x as u32, next)),
            Err(e) => Err(e),
        }
    }

    proof fn lemma_round_trip(m: u32, bytes: Seq<u8>, pos: int) {
        lemma_pow256_values();
        lemma_fixed_round_trip(m as nat, 4, bytes, pos);
    }

    proof fn lemma_canonical(bytes: Seq<u8>, pos: int) {
        lemma_pow256_values();
        lemma_fixed_canonical(bytes, pos, 4);
    }

    fn can_encode(&self) -> (yes: bool) {
        true
    }

    fn encode_to(&self, out: &mut Vec<u8>) {
        write_le(out, *self as u128, 4);
    }

    fn decode_at(bytes: &[u8], pos: usize) -> (r: Result<(u32, usize), CodecError>) {
        proof {
            reveal(parse_fixed);
        }
        if pos > bytes.len() || bytes.len() - pos < 4 {
            return Err(CodecError::Truncated);
        }
        proof {
            lemma_pow256_values();
            lemma_fixed_canonical(bytes@, pos as int, 2);
        }
        Ok((read_le(bytes, pos, 4) as u32, pos + 4))
    }
}

impl Wire for u64 {
    type Model = u64;

    open spec fn model(&self) -> u64 {
        *self
    }

    open spec fn encodable(m: u64) -> bool {
        true
    }

    open spec fn encoding(m: u64) -> Seq<u8> {
        le_bytes(m as nat, 8)
    }

    open spec fn parse(bytes: Seq<u8>, pos: int) -> Result<(u64, int), CodecError> {
        match parse_fixed(bytes, pos, 8) {
            Ok((x, next)) => Ok((x as u64, next)),
            Err(e) => Err(e),
        }
    }

    proof fn lemma_round_trip(m: u64, bytes: Seq<u8>, pos: int) {
        lemma_pow256_values();
        lemma_fixed_round_trip(m as nat, 8, bytes, pos);
    }

    proof fn lemma_canonical(bytes: Seq<u8>, pos: int) {
        lemma_pow256_values();
        lemma_fixed_canonical(bytes, pos, 8);
    }

    fn can_encode(&self) -> (yes: bool) {
        true
    }

    fn encode_to(&self, out: &mut Vec<u8>) {
        write_le(out, *self as u128, 8);
    }

    fn decode_at(bytes: &[u8], pos: usize) -> (r: Result<(u64, usize), CodecError>) {
        proof {
            reveal(parse_fixed);
        }
        if pos > bytes.len() || bytes.len() - pos < 8 {
            return Err(CodecError::Truncated);
        }
        proof {
            lemma_pow256_values();
            lemma_fixed_canonical(bytes@, pos as int, 2);
        }
        Ok((read_le(bytes, pos, 8) as u64, pos + 8))
    }
}

impl Wire for u128 {
    type Model = u128;

    open spec fn model(&self) -> u128 {
        *self
    }

    open spec fn encodable(m: u128) -> bool {
        true
    }

    open spec fn encoding(m: u128) -> Seq<u8> {
        le_bytes(m as nat, 16)
    }

    open spec fn parse(bytes: Seq<u8>, pos: int) -> Result<(u128, int), CodecError> {
        match parse_fixed(bytes, pos, 16) {
            Ok((x, next)) => Ok((x as u128, next)),
            Err(e) => Err(e),
        }
    }

    proof fn lemma_round_trip(m: u128, bytes: Seq<u8>, pos: int) {
        lemma_pow256_values();
        lemma_fixed_round_trip(m as nat, 16, bytes, pos);
    }

    proof fn lemma_canonical(bytes: Seq<u8>, pos: int) {
        lemma_pow256_values();
        lemma_fixed_canonical(bytes, pos, 16);
    }

    fn can_encode(&self) -> (yes: bool) {
        true
    }

    fn encode_to(&self, out: &mut Vec<u8>) {
        write_le(out, *self as u128, 16);
    }

    fn decode_at(bytes: &[u8], pos: usize) -> (r: Result<(u128, usize), CodecError>) {
        proof {
            reveal(parse_fixed);
        }
        if pos > bytes.len() || bytes.len() - pos < 16 {
            return Err(CodecError::Truncated);
        }
        proof {
            lemma_pow256_values();
            lemma_fixed_canonical(bytes@, pos as int, 2);
        }
        Ok((read_le(bytes, pos, 16) as u128, pos + 16))
    }
}

/// A boolean is one byte, 0 or 1.
impl Wire for bool {
    type Model = bool;

    open spec fn model(&self) -> bool {
        *self
    }

    open spec fn encodable(m: bool) -> bool {
        true
    }

    open spec fn encoding(m: bool) -> Seq<u8> {
        seq![if m { 1u8 } else { 0u8 }]
    }

    open spec fn parse(bytes: Seq<u8>, pos: int) -> Result<(bool, int), CodecError> {
        if 0 <= pos < bytes.len() {
            if bytes[pos] == 0 {
                Ok((false, pos + 1))
            } else if bytes[pos] == 1 {
                Ok((true, pos + 1))
            } else {
                Err(CodecError::OutOfRange)
            }
        } else {
            Err(CodecError::Truncated)
        }
    }

    proof fn lemma_round_trip(m: bool, bytes: Seq<u8>, pos: int) {
        assert(bytes.subrange(pos, pos + 1)[0] == bytes[pos]);
    }

    proof fn lemma_canonical(bytes: Seq<u8>, pos: int) {
        if 0 <= pos < bytes.len() {
            assert(bytes.subrange(pos, pos + 1) =~= seq![bytes[pos]]);
        }
    }

    fn can_encode(&self) -> (yes: bool) {
        true
    }

    fn encode_to(&self, out: &mut Vec<u8>) {
        let byte: u8 = if *self { 1 } else { 0 };
        out.push(byte);
    }

    fn decode_at(bytes: &[u8], pos: usize) -> (r: Result<(bool, usize), CodecError>) {
        if pos > bytes.len() || bytes.len() - pos < 1 {
            return Err(CodecError::Truncated);
        }
        let byte: u8 = bytes[pos];
        if byte == 0 {
            Ok((false, pos + 1))
        } else if byte == 1 {
            Ok((true, pos + 1))
        } else {
            Err(CodecError::OutOfRange)
        }
    }
}

/// A pair of 16-bit integers held in an array travels as one after the other.
impl Wire for [u16; 2] {
    type Model = (u16, u16);

    open spec fn model(&self) -> (u16, u16) {
        (self@[0], self@[1])
    }

    open spec fn encodable(m: (u16, u16)) -> bool {
        true
    }

    open spec fn encoding(m: (u16, u16)) -> Seq<u8> {
        <(u16, u16)>::encoding(m)
    }

    open spec fn parse(bytes: Seq<u8>, pos: int) -> Result<((u16, u16), int), CodecError> {
        <(u16, u16)>::parse(bytes, pos)
    }

    proof fn lemma_round_trip(m: (u16, u16), bytes: Seq<u8>, pos: int) {
        <(u16, u16)>::lemma_round_trip(m, bytes, pos);
    }

    proof fn lemma_canonical(bytes: Seq<u8>, pos: int) {
        <(u16, u16)>::lemma_canonical(bytes, pos);
    }

    fn can_encode(&self) -> (yes: bool) {
        true
    }

    fn encode_to(&self, out: &mut Vec<u8>) {
        let pair: (u16, u16) = (self[0], self[1]);
        pair.encode_to(out);
    }

    fn decode_at(bytes: &[u8], pos: usize) -> (r: Result<([u16; 2], usize), CodecError>) {
        let (pair, next) = <(u16, u16)>::decode_at(bytes, pos)?;
        Ok(([pair.0, pair.1], next))
    }
}

} // verus!
