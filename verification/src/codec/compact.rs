//! Compact integers: a variable-length form that spends fewer bytes on small
//! values. The two low bits of the first byte select the form.
//!
//! | low bits | form                                  | holds        |
//! |----------|---------------------------------------|--------------|
//! | `00`     | one byte, value in the upper six bits | below 2^6    |
//! | `01`     | two bytes, value above the low bits   | below 2^14   |
//! | `10`     | four bytes, value above the low bits  | below 2^30   |
//! | `11`     | `k` bytes follow, `k - 4` in the tag  | below 256^k  |
//!
//! A value is always written in the first form that holds it, and a reader
//! refuses any other spelling as out of range. A form that the target does
//! not have at all is an invalid prefix: the long form for a 16-bit target,
//! and more bytes than the target has for a 64-bit or 128-bit one. A 32-bit
//! target differs: it takes a long form of more than four bytes for a value
//! out of range.

use vstd::prelude::*;
use crate::codec::{
    decoded, lemma_decode_encode, CodecError, Wire, has_at, lemma_has_at_join, lemma_has_at_split,
};
use crate::codec::fixed::{lemma_fixed_canonical, lemma_fixed_round_trip, parse_fixed};
use crate::codec::le::{
    byte_width, le_bytes, pow256, read_le, write_le, lemma_byte_width_at_most,
    lemma_byte_width_range, lemma_byte_width_unique, lemma_le_bytes_first, lemma_le_bytes_len,
    lemma_le_bytes_one, lemma_pow256_monotonic, lemma_pow256_values,
};

verus! {

/// An integer that travels in the compact form.
#[derive(Clone, Copy, Debug, PartialEq, Eq)]
pub struct Compact<T>(pub T);

/// The compact form of `x`.
#[verifier::opaque]
pub open spec fn compact_encoding(x: nat) -> Seq<u8> {
    if x < 0x40 {
        le_bytes(4 * x, 1)
    } else if x < 0x4000 {
        le_bytes(4 * x + 1, 2)
    } else if x < 0x4000_0000 {
        le_bytes(4 * x + 2, 4)
    } else {
        seq![(3 + 4 * (byte_width(x) - 4)) as u8] + le_bytes(x, byte_width(x))
    }
}

/// The values that a target type takes in compact form: those up to `max`
/// whose long form, if they need it, has at most `wide` bytes.
pub open spec fn compact_fits(x: nat, max: nat, wide: nat) -> bool {
    x <= max && (x >= 0x4000_0000 ==> byte_width(x) <= wide <= 16)
}

/// Reads a compact integer for a target that holds values up to `max` and
/// whose long form has at most `wide` bytes; a longer one is refused with
/// `beyond`.
#[verifier::opaque]
pub open spec fn parse_compact(bytes: Seq<u8>, pos: int, max: nat, wide: nat, beyond: CodecError)
    -> Result<(nat, int), CodecError> {
    if !(0 <= pos < bytes.len()) {
        Err(CodecError::Truncated)
    } else if bytes[pos] % 4 == 0 {
        if bytes[pos] as nat / 4 <= max {
            Ok(((bytes[pos] / 4) as nat, pos + 1))
        } else {
            Err(CodecError::OutOfRange)
        }
    } else if bytes[pos] % 4 == 1 {
        match parse_fixed(bytes, pos, 2) {
            Err(e) => Err(e),
            Ok((v, next)) => if 0x3f < v / 4 <= max {
                Ok((v / 4, next))
            } else {
                Err(CodecError::OutOfRange)
            },
        }
    } else if bytes[pos] % 4 == 2 {
        match parse_fixed(bytes, pos, 4) {
            Err(e) => Err(e),
            Ok((v, next)) => if 0x3fff < v / 4 <= max {
                Ok((v / 4, next))
            } else {
                Err(CodecError::OutOfRange)
            },
        }
    } else if bytes[pos] as nat / 4 + 4 > wide || wide > 16 {
        Err(beyond)
    } else {
        match parse_fixed(bytes, pos + 1, bytes[pos] as nat / 4 + 4) {
            Err(e) => Err(e),
            Ok((x, next)) => if 0x3fff_ffff < x <= max && pow256(
                (bytes[pos] as nat / 4 + 3) as nat,
            ) <= x {
                Ok((x, next))
            } else {
                Err(CodecError::OutOfRange)
            },
        }
    }
}

/// The lengths that the format offers, and what a form of that length holds.
pub open spec fn form_holds(len: nat, x: nat) -> bool {
    ||| len == 1 && x < 0x40
    ||| len == 2 && x < 0x4000
    ||| len == 4 && x < 0x4000_0000
    ||| len >= 5 && x < pow256((len - 1) as nat)
}

/// The length of the compact form of `x`.
pub proof fn lemma_compact_len(x: nat)
    ensures
        compact_encoding(x).len() == if x < 0x40 {
            1nat
        } else if x < 0x4000 {
            2nat
        } else if x < 0x4000_0000 {
            4nat
        } else {
            byte_width(x) + 1
        },
        x >= 0x4000_0000 ==> byte_width(x) >= 4,
{
    reveal(compact_encoding);
    lemma_le_bytes_len(4 * x, 1);
    lemma_le_bytes_len(4 * x + 1, 2);
    lemma_le_bytes_len(4 * x + 2, 4);
    lemma_le_bytes_len(x, byte_width(x));
    if x >= 0x4000_0000 {
        lemma_byte_width_range(x);
        lemma_pow256_values();
        if byte_width(x) < 4 {
            lemma_pow256_monotonic(byte_width(x), 3);
        }
    }
}

/// A value is written in the shortest form that holds it.
pub proof fn lemma_compact_is_shortest(x: nat)
    ensures
        form_holds(compact_encoding(x).len(), x),
        forall|len: nat| form_holds(len, x) ==> compact_encoding(x).len() <= len,
{
    lemma_compact_len(x);
    lemma_byte_width_range(x);
    lemma_pow256_values();
    assert forall|len: nat| form_holds(len, x) implies compact_encoding(x).len() <= len by {
        if x >= 0x4000_0000 {
            if len < byte_width(x) + 1 {
                if len >= 5 {
                    lemma_pow256_monotonic((len - 1) as nat, (byte_width(x) - 1) as nat);
                }
            }
        }
    }
}

/// A value that is written with `mode` in the two low bits of its first
/// byte is found again by dropping those bits.
proof fn lemma_mode_bits(x: nat, mode: nat)
    requires
        mode < 4,
    ensures
        ((4 * x + mode) % 256) % 4 == mode,
        (4 * x + mode) / 4 == x,
{
}

/// What stands above the two low bits of a number is determined by the
/// number's first byte and those bits.
proof fn lemma_mode_of_first_byte(v: nat, first: u8)
    requires
        v % 256 == first,
    ensures
        4 * (v / 4) + first % 4 == v,
        4 * (first / 4) + first % 4 == first,
{
}

/// Parsing the compact form of a value that fits the target gives it back.
#[verifier::spinoff_prover]
pub proof fn lemma_compact_round_trip(
    x: nat,
    bytes: Seq<u8>,
    pos: int,
    max: nat,
    wide: nat,
    beyond: CodecError,
)
    requires
        compact_fits(x, max, wide),
        has_at(bytes, pos, compact_encoding(x)),
    ensures
        parse_compact(bytes, pos, max, wide, beyond) == Ok::<(nat, int), CodecError>(
            (x, pos + compact_encoding(x).len()),
        ),
{
    reveal(compact_encoding);
    reveal(parse_compact);
    lemma_compact_len(x);
    lemma_pow256_values();
    let enc = compact_encoding(x);
    if x < 0x40 {
        lemma_le_bytes_first(4 * x, 1);
        lemma_mode_bits(x, 0);
    } else if x < 0x4000 {
        lemma_le_bytes_first(4 * x + 1, 2);
        lemma_mode_bits(x, 1);
        lemma_fixed_round_trip(4 * x + 1, 2, bytes, pos);
    } else if x < 0x4000_0000 {
        lemma_le_bytes_first(4 * x + 2, 4);
        lemma_mode_bits(x, 2);
        lemma_fixed_round_trip(4 * x + 2, 4, bytes, pos);
    } else {
        let k = byte_width(x);
        lemma_byte_width_range(x);
        let tag = seq![(3 + 4 * (k - 4)) as u8];
        assert(enc[0] == tag[0]);
        lemma_mode_bits((k - 4) as nat, 3);
        lemma_has_at_split(bytes, pos, tag, le_bytes(x, k));
        lemma_fixed_round_trip(x, k, bytes, pos + 1);
    }
}

/// What a compact parse accepts is the compact form of the value it returns.
#[verifier::spinoff_prover]
pub proof fn lemma_compact_canonical(
    bytes: Seq<u8>,
    pos: int,
    max: nat,
    wide: nat,
    beyond: CodecError,
)
    ensures
        parse_compact(bytes, pos, max, wide, beyond) matches Ok((x, next)) ==> {
            &&& compact_fits(x, max, wide)
            &&& has_at(bytes, pos, compact_encoding(x))
            &&& next == pos + compact_encoding(x).len()
            &&& pos < next
        },
{
    reveal(compact_encoding);
    reveal(parse_compact);
    if let Ok((x, next)) = parse_compact(bytes, pos, max, wide, beyond) {
        lemma_compact_len(x);
        lemma_pow256_values();
        let tag = bytes[pos];
        if tag % 4 == 0 {
            lemma_mode_of_first_byte(tag as nat, tag);
            lemma_le_bytes_one(tag as nat);
            assert(bytes.subrange(pos, pos + 1) =~= seq![tag]);
        } else if tag % 4 == 3 {
            let k = tag as nat / 4 + 4;
            lemma_fixed_canonical(bytes, pos + 1, k);
            lemma_byte_width_unique(x, k);
            lemma_mode_of_first_byte(tag as nat, tag);
            let head = seq![(3 + 4 * (k - 4)) as u8];
            assert(bytes.subrange(pos, pos + 1) =~= head);
            lemma_has_at_join(bytes, pos, head, le_bytes(x, k));
        } else {
            let width: nat = if tag % 4 == 1 {
                2
            } else {
                4
            };
            lemma_fixed_canonical(bytes, pos, width);
            let v = parse_fixed(bytes, pos, width)->Ok_0.0;
            lemma_le_bytes_first(v, width);
            lemma_mode_of_first_byte(v, tag);
        }
    }
}

/// Computes `byte_width`.
fn width_of(x: u128) -> (k: usize)
    ensures
        k == byte_width(x as nat),
        1 <= k <= 16,
{
    let mut k: usize = 1;
    let mut rest: u128 = x;
    proof {
        lemma_pow256_values();
        assert(rest * pow256(0) == rest) by (nonlinear_arith)
            requires
                pow256(0) == 1,
        ;
    }
    while rest >= 256
        invariant
            1 <= k <= 16,
            byte_width(x as nat) == (k - 1) + byte_width(rest as nat),
            rest * pow256((k - 1) as nat) <= x,
        decreases rest,
    {
        proof {
            reveal_with_fuel(pow256, 2);
            let p = pow256((k - 1) as nat);
            if k == 16 {
                lemma_pow256_values();
                assert(rest * p >= 256 * p) by (nonlinear_arith)
                    requires
                        rest >= 256,
                        p >= 0,
                ;
            }
            assert((rest / 256) * (256 * p) <= rest * p) by (nonlinear_arith)
                requires
                    p >= 0,
                    rest >= 0,
            ;
        }
        rest = rest / 256;
        k = k + 1;
    }
    k
}

/// Appends the compact form of `x`.
pub fn encode_compact(out: &mut Vec<u8>, x: u128)
    ensures
        final(out)@ == old(out)@ + compact_encoding(x as nat),
{
    proof {
        reveal(compact_encoding);
    }
    if x < 0x40 {
        write_le(out, 4 * x, 1);
    } else if x < 0x4000 {
        write_le(out, 4 * x + 1, 2);
    } else if x < 0x4000_0000 {
        write_le(out, 4 * x + 2, 4);
    } else {
        let k: usize = width_of(x);
        proof {
            lemma_compact_len(x as nat);
        }
        let tag: u8 = (3 + 4 * (k - 4)) as u8;
        out.push(tag);
        write_le(out, x, k);
    }
}

/// Reads a compact integer; see [`parse_compact`].
#[verifier::spinoff_prover]
pub fn decode_compact(bytes: &[u8], pos: usize, max: u128, wide: usize, beyond: CodecError) -> (r:
    Result<(u128, usize), CodecError>)
    ensures
        match r {
            Ok((x, next)) => {
                &&& parse_compact(bytes@, pos as int, max as nat, wide as nat, beyond) == Ok::<
                    (nat, int),
                    CodecError,
                >((x as nat, next as int))
                &&& x <= max
                &&& pos < next <= bytes.len()
            },
            Err(e) => parse_compact(bytes@, pos as int, max as nat, wide as nat, beyond) == Err::<
                (nat, int),
                CodecError,
            >(e),
        },
{
    if pos > bytes.len() || bytes.len() - pos < 1 {
        proof {
            reveal(parse_compact);
        }
        return Err(CodecError::Truncated);
    }
    let tag: u8 = bytes[pos];
    let mode: u8 = tag % 4;
    proof {
        reveal(parse_compact);
        reveal(parse_fixed);
        lemma_pow256_values();
        lemma_compact_canonical(bytes@, pos as int, max as nat, wide as nat, beyond);
    }
    if mode == 0 {
        let x: u128 = (tag / 4) as u128;
        if x <= max {
            Ok((x, pos + 1))
        } else {
            Err(CodecError::OutOfRange)
        }
    } else if mode == 1 {
        if bytes.len() - pos < 2 {
            return Err(CodecError::Truncated);
        }
        proof {
            lemma_fixed_canonical(bytes@, pos as int, 2);
        }
        let x: u128 = read_le(bytes, pos, 2) / 4;
        if 0x3f < x && x <= max {
            Ok((x, pos + 2))
        } else {
            Err(CodecError::OutOfRange)
        }
    } else if mode == 2 {
        if bytes.len() - pos < 4 {
            return Err(CodecError::Truncated);
        }
        proof {
            lemma_fixed_canonical(bytes@, pos as int, 4);
        }
        let x: u128 = read_le(bytes, pos, 4) / 4;
        if 0x3fff < x && x <= max {
            Ok((x, pos + 4))
        } else {
            Err(CodecError::OutOfRange)
        }
    } else {
        let k: usize = (tag / 4) as usize + 4;
        if k > wide || wide > 16 {
            return Err(beyond);
        }
        if bytes.len() - pos - 1 < k {
            return Err(CodecError::Truncated);
        }
        proof {
            lemma_fixed_canonical(bytes@, pos + 1, k as nat);
        }
        let x: u128 = read_le(bytes, pos + 1, k);
        if 0x3fff_ffff < x && x <= max && width_of(x) == k {
            proof {
                lemma_byte_width_range(x as nat);
            }
            Ok((x, pos + 1 + k))
        } else {
            proof {
                if 0x3fff_ffff < x && pow256((k - 1) as nat) <= x {
                    lemma_byte_width_unique(x as nat, k as nat);
                }
            }
            Err(CodecError::OutOfRange)
        }
    }
}

impl Wire for Compact<u16> {
    type Model = u16;

    open spec fn model(&self) -> u16 {
        self.0
    }

    open spec fn encodable(m: u16) -> bool {
        true
    }

    open spec fn encoding(m: u16) -> Seq<u8> {
        compact_encoding(m as nat)
    }

    open spec fn parse(bytes: Seq<u8>, pos: int) -> Result<(u16, int), CodecError> {
        match parse_compact(bytes, pos, 0xffff, 0, CodecError::InvalidPrefix) {
            Ok((x, next)) => Ok((x as u16, next)),
            Err(e) => Err(e),
        }
    }

    proof fn lemma_round_trip(m: u16, bytes: Seq<u8>, pos: int) {
        lemma_pow256_values();
        lemma_byte_width_at_most(m as nat, 2);
        lemma_compact_round_trip(m as nat, bytes, pos, 0xffff, 0, CodecError::InvalidPrefix);
    }

    proof fn lemma_canonical(bytes: Seq<u8>, pos: int) {
        lemma_compact_canonical(bytes, pos, 0xffff, 0, CodecError::InvalidPrefix);
    }

    fn can_encode(&self) -> (yes: bool) {
        true
    }

    fn encode_to(&self, out: &mut Vec<u8>) {
        encode_compact(out, self.0 as u128);
    }

    fn decode_at(bytes: &[u8], pos: usize) -> (r: Result<(Compact<u16>, usize), CodecError>) {
        match decode_compact(bytes, pos, 0xffff, 0, CodecError::InvalidPrefix) {
            Ok((x, next)) => Ok((Compact(x as u16), next)),
            Err(e) => Err(e),
        }
    }
}

impl Wire for Compact<u32> {
    type Model = u32;

    open spec fn model(&self) -> u32 {
        self.0
    }

    open spec fn encodable(m: u32) -> bool {
        true
    }

    open spec fn encoding(m: u32) -> Seq<u8> {
        compact_encoding(m as nat)
    }

    open spec fn parse(bytes: Seq<u8>, pos: int) -> Result<(u32, int), CodecError> {
        match parse_compact(bytes, pos, 0xffff_ffff, 4, CodecError::OutOfRange) {
            Ok((x, next)) => Ok((x as u32, next)),
            Err(e) => Err(e),
        }
    }

    proof fn lemma_round_trip(m: u32, bytes: Seq<u8>, pos: int) {
        lemma_pow256_values();
        lemma_byte_width_at_most(m as nat, 4);
        lemma_compact_round_trip(m as nat, bytes, pos, 0xffff_ffff, 4, CodecError::OutOfRange);
    }

    proof fn lemma_canonical(bytes: Seq<u8>, pos: int) {
        lemma_compact_canonical(bytes, pos, 0xffff_ffff, 4, CodecError::OutOfRange);
    }

    fn can_encode(&self) -> (yes: bool) {
        true
    }

    fn encode_to(&self, out: &mut Vec<u8>) {
        encode_compact(out, self.0 as u128);
    }

    fn decode_at(bytes: &[u8], pos: usize) -> (r: Result<(Compact<u32>, usize), CodecError>) {
        match decode_compact(bytes, pos, 0xffff_ffff, 4, CodecError::OutOfRange) {
            Ok((x, next)) => Ok((Compact(x as u32), next)),
            Err(e) => Err(e),
        }
    }
}

impl Wire for Compact<u64> {
    type Model = u64;

    open spec fn model(&self) -> u64 {
        self.0
    }

    open spec fn encodable(m: u64) -> bool {
        true
    }

    open spec fn encoding(m: u64) -> Seq<u8> {
        compact_encoding(m as nat)
    }

    open spec fn parse(bytes: Seq<u8>, pos: int) -> Result<(u64, int), CodecError> {
        match parse_compact(bytes, pos, 0xffff_ffff_ffff_ffff, 8, CodecError::InvalidPrefix) {
            Ok((x, next)) => Ok((x as u64, next)),
            Err(e) => Err(e),
        }
    }

    proof fn lemma_round_trip(m: u64, bytes: Seq<u8>, pos: int) {
        lemma_pow256_values();
        lemma_byte_width_at_most(m as nat, 8);
        lemma_compact_round_trip(m as nat, bytes, pos, 0xffff_ffff_ffff_ffff, 8, CodecError::InvalidPrefix);
    }

    proof fn lemma_canonical(bytes: Seq<u8>, pos: int) {
        lemma_compact_canonical(bytes, pos, 0xffff_ffff_ffff_ffff, 8, CodecError::InvalidPrefix);
    }

    fn can_encode(&self) -> (yes: bool) {
        true
    }

    fn encode_to(&self, out: &mut Vec<u8>) {
        encode_compact(out, self.0 as u128);
    }

    fn decode_at(bytes: &[u8], pos: usize) -> (r: Result<(Compact<u64>, usize), CodecError>) {
        match decode_compact(bytes, pos, 0xffff_ffff_ffff_ffff, 8, CodecError::InvalidPrefix) {
            Ok((x, next)) => Ok((Compact(x as u64), next)),
            Err(e) => Err(e),
        }
    }
}

impl Wire for Compact<u128> {
    type Model = u128;

    open spec fn model(&self) -> u128 {
        self.0
    }

    open spec fn encodable(m: u128) -> bool {
        true
    }

    open spec fn encoding(m: u128) -> Seq<u8> {
        compact_encoding(m as nat)
    }

    open spec fn parse(bytes: Seq<u8>, pos: int) -> Result<(u128, int), CodecError> {
        match parse_compact(bytes, pos, 0xffff_ffff_ffff_ffff_ffff_ffff_ffff_ffff, 16, CodecError::InvalidPrefix) {
            Ok((x, next)) => Ok((x as u128, next)),
            Err(e) => Err(e),
        }
    }

    proof fn lemma_round_trip(m: u128, bytes: Seq<u8>, pos: int) {
        lemma_pow256_values();
        lemma_byte_width_at_most(m as nat, 16);
        lemma_compact_round_trip(m as nat, bytes, pos, 0xffff_ffff_ffff_ffff_ffff_ffff_ffff_ffff, 16, CodecError::InvalidPrefix);
    }

    proof fn lemma_canonical(bytes: Seq<u8>, pos: int) {
        lemma_compact_canonical(bytes, pos, 0xffff_ffff_ffff_ffff_ffff_ffff_ffff_ffff, 16, CodecError::InvalidPrefix);
    }

    fn can_encode(&self) -> (yes: bool) {
        true
    }

    fn encode_to(&self, out: &mut Vec<u8>) {
        encode_compact(out, self.0 as u128);
    }

    fn decode_at(bytes: &[u8], pos: usize) -> (r: Result<(Compact<u128>, usize), CodecError>) {
        match decode_compact(bytes, pos, 0xffff_ffff_ffff_ffff_ffff_ffff_ffff_ffff, 16, CodecError::InvalidPrefix) {
            Ok((x, next)) => Ok((Compact(x as u128), next)),
            Err(e) => Err(e),
        }
    }
}

/// Every 64-bit value is written in the shortest form that holds it, and
/// reading that form back gives the value.
pub proof fn lemma_compact_u64_shortest_and_exact(x: u64)
    ensures
        form_holds(Compact::<u64>::encoding(x).len(), x as nat),
        forall|len: nat| form_holds(len, x as nat) ==> Compact::<u64>::encoding(x).len() <= len,
        decoded::<Compact<u64>>(Compact::<u64>::encoding(x)) == Ok::<u64, CodecError>(x),
{
    lemma_compact_is_shortest(x as nat);
    lemma_decode_encode::<Compact<u64>>(x);
}

} // verus!
