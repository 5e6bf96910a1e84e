//! Little-endian fixed-width integers, the base layer of the wire format.

use vstd::prelude::*;

verus! {

/// `256^k`: the number of values that `k` bytes can hold.
pub open spec fn pow256(k: nat) -> nat
    decreases k,
{
    if k == 0 {
        1
    } else {
        256 * pow256((k - 1) as nat)
    }
}

/// The `width` low-order bytes of `x`, least significant first.
pub open spec fn le_bytes(x: nat, width: nat) -> Seq<u8>
    decreases width,
{
    if width == 0 {
        Seq::empty()
    } else {
        seq![(x % 256) as u8] + le_bytes(x / 256, (width - 1) as nat)
    }
}

/// The number that `bytes` spell, least significant byte first.
pub open spec fn le_value(bytes: Seq<u8>) -> nat
    decreases bytes.len(),
{
    if bytes.len() == 0 {
        0
    } else {
        bytes[0] as nat + 256 * le_value(bytes.skip(1))
    }
}

/// The least number of bytes, at least one, that can hold `x`.
pub open spec fn byte_width(x: nat) -> nat
    decreases x,
{
    if x < 256 {
        1
    } else {
        1 + byte_width(x / 256)
    }
}

pub proof fn lemma_pow256_positive(k: nat)
    ensures
        pow256(k) > 0,
    decreases k,
{
    if k > 0 {
        lemma_pow256_positive((k - 1) as nat);
    }
}

pub proof fn lemma_pow256_monotonic(j: nat, k: nat)
    requires
        j <= k,
    ensures
        pow256(j) <= pow256(k),
    decreases k,
{
    if j < k {
        lemma_pow256_monotonic(j, (k - 1) as nat);
        lemma_pow256_positive((k - 1) as nat);
    }
}

/// The powers of 256 at the widths of the machine integers.
pub proof fn lemma_pow256_values()
    ensures
        pow256(0) == 1,
        pow256(1) == 0x100,
        pow256(2) == 0x1_0000,
        pow256(3) == 0x100_0000,
        pow256(4) == 0x1_0000_0000,
        pow256(5) == 0x100_0000_0000,
        pow256(6) == 0x1_0000_0000_0000,
        pow256(7) == 0x100_0000_0000_0000,
        pow256(8) == 0x1_0000_0000_0000_0000,
        pow256(16) == 0x1_0000_0000_0000_0000_0000_0000_0000_0000,
{
    reveal_with_fuel(pow256, 17);
}

pub proof fn lemma_le_bytes_len(x: nat, width: nat)
    ensures
        le_bytes(x, width).len() == width,
    decreases width,
{
    if width > 0 {
        lemma_le_bytes_len(x / 256, (width - 1) as nat);
    }
}

/// A byte string spells a number below `256^len`.
pub proof fn lemma_le_value_bound(bytes: Seq<u8>)
    ensures
        le_value(bytes) < pow256(bytes.len()),
    decreases bytes.len(),
{
    if bytes.len() > 0 {
        lemma_le_value_bound(bytes.skip(1));
    }
}

/// Reading back the bytes of `x` gives `x`, when `x` fits in `width` bytes.
pub proof fn lemma_le_value_of_bytes(x: nat, width: nat)
    requires
        x < pow256(width),
    ensures
        le_value(le_bytes(x, width)) == x,
    decreases width,
{
    lemma_le_bytes_len(x, width);
    if width > 0 {
        let rest = le_bytes(x / 256, (width - 1) as nat);
        assert(le_bytes(x, width).skip(1) =~= rest);
        lemma_le_value_of_bytes(x / 256, (width - 1) as nat);
    }
}

/// Writing out the number that a byte string spells gives the string back.
pub proof fn lemma_le_bytes_of_value(bytes: Seq<u8>)
    ensures
        le_bytes(le_value(bytes), bytes.len()) == bytes,
    decreases bytes.len(),
{
    if bytes.len() > 0 {
        lemma_le_bytes_of_value(bytes.skip(1));
    }
}

/// The first of the bytes of `x` is its remainder by 256.
pub proof fn lemma_le_bytes_first(x: nat, width: nat)
    requires
        width >= 1,
    ensures
        le_bytes(x, width).len() == width,
        le_bytes(x, width)[0] == (x % 256) as u8,
{
    lemma_le_bytes_len(x, width);
}

/// One byte spells itself.
pub proof fn lemma_le_bytes_one(x: nat)
    requires
        x < 256,
    ensures
        le_bytes(x, 1) == seq![x as u8],
{
    reveal_with_fuel(le_bytes, 2);
}

/// `byte_width` is the one width whose range holds `x`.
pub proof fn lemma_byte_width_range(x: nat)
    ensures
        byte_width(x) >= 1,
        x < pow256(byte_width(x)),
        x >= 256 ==> pow256((byte_width(x) - 1) as nat) <= x,
    decreases x,
{
    reveal_with_fuel(pow256, 2);
    if x >= 256 {
        lemma_byte_width_range(x / 256);
    }
}

/// A number at or above `256^(k-1)` and below `256^k` needs exactly `k` bytes.
pub proof fn lemma_byte_width_unique(x: nat, k: nat)
    requires
        k >= 1,
        x < pow256(k),
        k >= 2 ==> pow256((k - 1) as nat) <= x,
    ensures
        byte_width(x) == k,
    decreases k,
{
    reveal_with_fuel(pow256, 2);
    if k >= 2 {
        if k >= 3 {
            lemma_pow256_positive((k - 2) as nat);
        }
        lemma_byte_width_unique(x / 256, (k - 1) as nat);
    }
}

/// A number below `256^k` needs at most `k` bytes.
pub proof fn lemma_byte_width_at_most(x: nat, k: nat)
    requires
        k >= 1,
        x < pow256(k),
    ensures
        byte_width(x) <= k,
{
    lemma_byte_width_range(x);
    if byte_width(x) > k {
        lemma_pow256_monotonic(k, (byte_width(x) - 1) as nat);
    }
}

/// Reads the `width` bytes at `pos` as a little-endian number.
pub(crate) fn read_le(bytes: &[u8], pos: usize, width: usize) -> (value: u128)
    requires
        width <= 16,
        pos + width <= bytes.len(),
    ensures
        value == le_value(bytes@.subrange(pos as int, pos + width)),
{
    let mut value: u128 = 0;
    let mut i: usize = width;
    while i > 0
        invariant
            i <= width <= 16,
            pos + width <= bytes.len(),
            value == le_value(bytes@.subrange(pos + i, pos + width)),
        decreases i,
    {
        i = i - 1;
        proof {
            let wider = bytes@.subrange(pos + i, pos + width);
            let narrower = bytes@.subrange(pos + i + 1, pos + width);
            assert(wider.skip(1) =~= narrower);
            lemma_le_value_bound(narrower);
            lemma_le_value_bound(wider);
            lemma_pow256_monotonic(wider.len(), 16);
            lemma_pow256_values();
        }
        value = value * 256 + bytes[pos + i] as u128;
    }
    value
}

/// Appends the `width` low-order bytes of `value`, least significant first.
pub fn write_le(out: &mut Vec<u8>, value: u128, width: usize)
    ensures
        final(out)@ == old(out)@ + le_bytes(value as nat, width as nat),
{
    let mut rest: u128 = value;
    let mut i: usize = 0;
    while i < width
        invariant
            i <= width,
            out@ + le_bytes(rest as nat, (width - i) as nat) == old(out)@ + le_bytes(
                value as nat,
                width as nat,
            ),
        decreases width - i,
    {
        out.push((rest % 256) as u8);
        rest = rest / 256;
        i = i + 1;
    }
}

} // verus!
