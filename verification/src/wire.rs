//! Little-endian integers as they appear inside an event record.
//!
//! A field of a record is a short byte string. Its meaning is given by
//! [`le_value`], the number the bytes denote, and for signed fields by
//! [`from_twos_complement`]. Everything else in this module is proved against
//! those two definitions.

use vstd::prelude::*;

verus! {

/// `256^n`, the number of values that `n` bytes can hold.
pub open spec fn radix_pow(n: nat) -> nat
    decreases n,
{
    if n == 0 {
        1
    } else {
        256 * radix_pow((n - 1) as nat)
    }
}

/// The number that a little-endian byte string denotes: byte `i` weighs `256^i`.
pub open spec fn le_value(bytes: Seq<u8>) -> nat
    decreases bytes.len(),
{
    if bytes.len() == 0 {
        0
    } else {
        bytes[0] as nat + 256 * le_value(bytes.drop_first())
    }
}

/// The `width` bytes that denote `value` (its low `width` bytes, where it is
/// too large to fit).
pub open spec fn le_bytes(value: nat, width: nat) -> Seq<u8>
    decreases width,
{
    if width == 0 {
        Seq::empty()
    } else {
        seq![(value % 256) as u8] + le_bytes(value / 256, (width - 1) as nat)
    }
}

/// The signed number that the unsigned `value` of a `width`-byte field stands for.
pub open spec fn from_twos_complement(value: nat, width: nat) -> int {
    if 2 * value < radix_pow(width) {
        value as int
    } else {
        value - radix_pow(width)
    }
}

/// The unsigned number that stands for the signed `value` in a `width`-byte field.
pub open spec fn to_twos_complement(value: int, width: nat) -> nat {
    if value >= 0 {
        value as nat
    } else {
        (value + radix_pow(width)) as nat
    }
}

/// The powers of 256 that the record layout uses.
pub proof fn lemma_radix_pow_values()
    ensures
        radix_pow(0) == 1,
        radix_pow(1) == 0x100,
        radix_pow(2) == 0x1_0000,
        radix_pow(3) == 0x100_0000,
        radix_pow(4) == 0x1_0000_0000,
        radix_pow(5) == 0x100_0000_0000,
        radix_pow(6) == 0x1_0000_0000_0000,
        radix_pow(7) == 0x100_0000_0000_0000,
        radix_pow(8) == 0x1_0000_0000_0000_0000,
{
    reveal_with_fuel(radix_pow, 9);
}

/// A byte string of length `n` denotes a number below `256^n`.
pub proof fn lemma_le_value_bound(bytes: Seq<u8>)
    ensures
        le_value(bytes) < radix_pow(bytes.len()),
    decreases bytes.len(),
{
    if bytes.len() > 0 {
        lemma_le_value_bound(bytes.drop_first());
    }
}

/// `le_bytes` yields exactly `width` bytes.
pub proof fn lemma_le_bytes_len(value: nat, width: nat)
    ensures
        le_bytes(value, width).len() == width,
    decreases width,
{
    if width > 0 {
        lemma_le_bytes_len(value / 256, (width - 1) as nat);
    }
}

/// Writing down the number that a byte string denotes gives the string back.
pub proof fn lemma_le_bytes_of_value(bytes: Seq<u8>)
    ensures
        le_bytes(le_value(bytes), bytes.len()) == bytes,
    decreases bytes.len(),
{
    if bytes.len() > 0 {
        lemma_le_bytes_of_value(bytes.drop_first());
    }
}

/// Reading back the bytes of a number that fits gives the number.
pub proof fn lemma_le_value_of_bytes(value: nat, width: nat)
    requires
        value < radix_pow(width),
    ensures
        le_value(le_bytes(value, width)) == value,
    decreases width,
{
    if width > 0 {
        let tail = le_bytes(value / 256, (width - 1) as nat);
        lemma_le_value_of_bytes(value / 256, (width - 1) as nat);
        assert(le_bytes(value, width).drop_first() =~= tail);
    }
}

/// Two's complement loses nothing in either direction.
pub proof fn lemma_twos_complement_inverse(width: nat)
    ensures
        forall|v: nat|
            v < radix_pow(width) ==> to_twos_complement(
                #[trigger] from_twos_complement(v, width),
                width,
            ) == v,
        forall|x: int|
            -(radix_pow(width) as int) <= 2 * x < radix_pow(width) ==> from_twos_complement(
                #[trigger] to_twos_complement(x, width),
                width,
            ) == x,
{
}

/// Reads the `width`-byte little-endian field that starts at `start`.
pub fn read_le(bytes: &[u8], start: usize, width: usize) -> (value: u64)
    requires
        width <= 8,
        start + width <= bytes.len(),
    ensures
        value == le_value(bytes@.subrange(start as int, start + width)),
{
    let ghost end = start + width;
    let mut value: u64 = 0;
    let mut i: usize = width;
    while i > 0
        invariant
            i <= width <= 8,
            end == start + width,
            end <= bytes.len(),
            value == le_value(bytes@.subrange(start + i, end)),
        decreases i,
    {
        proof {
            let field = bytes@.subrange(start + i, end);
            lemma_le_value_bound(field);
            lemma_radix_pow_values();
            assert(radix_pow(field.len()) <= radix_pow(7)) by {
                reveal_with_fuel(radix_pow, 9);
            }
            assert(bytes@.subrange(start + i - 1, end).drop_first() =~= field);
        }
        i -= 1;
        value = value * 256 + bytes[start + i] as u64;
    }
    value
}

/// Appends the `width` low bytes of `value`, least significant first.
pub fn write_le(out: &mut Vec<u8>, value: u64, width: usize)
    requires
        width <= 8,
    ensures
        final(out)@ == old(out)@ + le_bytes(value as nat, width as nat),
{
    let mut rest: u64 = value;
    let mut i: usize = 0;
    let ghost written: Seq<u8> = Seq::empty();
    while i < width
        invariant
            i <= width,
            out@ == old(out)@ + written,
            written + le_bytes(rest as nat, (width - i) as nat) == le_bytes(
                value as nat,
                width as nat,
            ),
        decreases width - i,
    {
        let byte: u8 = (rest % 256) as u8;
        proof {
            written = written.push(byte);
        }
        out.push(byte);
        rest = rest / 256;
        i += 1;
    }
}

/// The signed reading of an eight-byte field.
pub fn signed_64(value: u64) -> (signed: i64)
    ensures
        signed == from_twos_complement(value as nat, 8),
{
    proof {
        lemma_radix_pow_values();
    }
    if value <= 0x7fff_ffff_ffff_ffff {
        value as i64
    } else {
        (value - 0x8000_0000_0000_0000) as i64 + i64::MIN
    }
}

/// The eight-byte field value of a signed number.
pub fn unsigned_64(value: i64) -> (unsigned: u64)
    ensures
        unsigned == to_twos_complement(value as int, 8),
{
    proof {
        lemma_radix_pow_values();
    }
    if value >= 0 {
        value as u64
    } else {
        (value - i64::MIN) as u64 + 0x8000_0000_0000_0000
    }
}

/// The signed reading of a four-byte field.
pub fn signed_32(value: u32) -> (signed: i32)
    ensures
        signed == from_twos_complement(value as nat, 4),
{
    proof {
        lemma_radix_pow_values();
    }
    if value <= 0x7fff_ffff {
        value as i32
    } else {
        (value - 0x8000_0000) as i32 + i32::MIN
    }
}

/// The four-byte field value of a signed number.
pub fn unsigned_32(value: i32) -> (unsigned: u32)
    ensures
        unsigned == to_twos_complement(value as int, 4),
{
    proof {
        lemma_radix_pow_values();
    }
    if value >= 0 {
        value as u32
    } else {
        (value - i32::MIN) as u32 + 0x8000_0000
    }
}

} // verus!
