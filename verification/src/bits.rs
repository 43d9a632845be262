//! Single bits of a plane byte.
//!
//! Bit 7 is the most significant bit. A bit is written by clearing it and
//! then or-ing the new value in, so that the seven neighbours keep theirs.

use vstd::prelude::*;

verus! {

/// Bit `bit` of `byte`, as 0 or 1.
pub open spec fn get_bit(byte: u8, bit: u8) -> u8 {
    (byte >> bit) & 1
}

/// `byte` with bit `bit` cleared and `value` or-ed in at its place.
pub open spec fn put_bit(byte: u8, bit: u8, value: u8) -> u8 {
    (byte & !(1u8 << bit)) | (value << bit)
}

/// Reads one bit of a byte.
pub fn read_bit(byte: u8, bit: u8) -> (value: u8)
    requires
        bit < 8,
    ensures
        value == get_bit(byte, bit),
        value <= 1,
{
    assert((byte >> bit) & 1 <= 1) by (bit_vector);
    (byte >> bit) & 1
}

/// Writes one bit of a byte and leaves the other seven alone.
pub fn write_bit(byte: u8, bit: u8, value: u8) -> (updated: u8)
    requires
        bit < 8,
    ensures
        updated == put_bit(byte, bit, value),
{
    let cleared: u8 = byte & !(1u8 << bit);
    cleared | (value << bit)
}

/// A bit that was written reads back as written.
pub proof fn lemma_put_then_get(byte: u8, bit: u8, value: u8)
    requires
        bit < 8,
        value <= 1,
    ensures
        get_bit(put_bit(byte, bit, value), bit) == value,
{
    assert(bit < 8 && value <= 1 ==> (((byte & !(1u8 << bit)) | (value << bit)) >> bit) & 1
        == value) by (bit_vector);
}

/// Writing one bit changes no other bit of the byte.
pub proof fn lemma_put_keeps_other_bits(byte: u8, bit: u8, value: u8, other: u8)
    requires
        bit < 8,
        other < 8,
        other != bit,
        value <= 1,
    ensures
        get_bit(put_bit(byte, bit, value), other) == get_bit(byte, other),
{
    assert(bit < 8 && other < 8 && other != bit && value <= 1 ==> (((byte & !(1u8 << bit)) | (
    value << bit)) >> other) & 1 == (byte >> other) & 1) by (bit_vector);
}

/// Where in two bytes every position holds a one in at least one of them,
/// writing a pair of bits that are not both zero keeps it so.
pub proof fn lemma_put_keeps_cover(first: u8, second: u8, bit: u8, a: u8, b: u8)
    requires
        bit < 8,
        a <= 1,
        b <= 1,
        a + b >= 1,
        first | second == 0xff,
    ensures
        put_bit(first, bit, a) | put_bit(second, bit, b) == 0xff,
{
    assert(bit < 8 && a <= 1 && b <= 1 && (a == 1 || b == 1) && first | second == 0xff ==> ((first
        & !(1u8 << bit)) | (a << bit)) | ((second & !(1u8 << bit)) | (b << bit)) == 0xff)
        by (bit_vector);
}

/// Where in two bytes every position holds a one in at least one of them,
/// setting a bit of either keeps it so.
pub proof fn lemma_put_one_keeps_cover(first: u8, second: u8, bit: u8)
    requires
        bit < 8,
        first | second == 0xff,
    ensures
        put_bit(first, bit, 1) | second == 0xff,
        first | put_bit(second, bit, 1) == 0xff,
{
    assert(bit < 8 && first | second == 0xff ==> ((first & !(1u8 << bit)) | (1u8 << bit)) | second
        == 0xff) by (bit_vector);
    assert(bit < 8 && first | second == 0xff ==> first | ((second & !(1u8 << bit)) | (1u8 << bit))
        == 0xff) by (bit_vector);
}

/// Where in two bytes every position holds a one in at least one of them, no
/// position reads zero in both.
pub proof fn lemma_cover_has_no_zero_pair(first: u8, second: u8, bit: u8)
    requires
        bit < 8,
        first | second == 0xff,
    ensures
        get_bit(first, bit) == 1 || get_bit(second, bit) == 1,
        get_bit(first, bit) <= 1,
        get_bit(second, bit) <= 1,
{
    assert(bit < 8 && first | second == 0xff ==> ((first >> bit) & 1 == 1 || (second >> bit) & 1
        == 1)) by (bit_vector);
    assert((first >> bit) & 1 <= 1) by (bit_vector);
    assert((second >> bit) & 1 <= 1) by (bit_vector);
}

/// A byte is its eight bits: two bytes that agree in every bit are equal.
pub proof fn lemma_bits_determine_byte(first: u8, second: u8)
    requires
        forall|bit: u8| bit < 8 ==> get_bit(first, bit) == get_bit(second, bit),
    ensures
        first == second,
{
    assert(get_bit(first, 0) == get_bit(second, 0));
    assert(get_bit(first, 1) == get_bit(second, 1));
    assert(get_bit(first, 2) == get_bit(second, 2));
    assert(get_bit(first, 3) == get_bit(second, 3));
    assert(get_bit(first, 4) == get_bit(second, 4));
    assert(get_bit(first, 5) == get_bit(second, 5));
    assert(get_bit(first, 6) == get_bit(second, 6));
    assert(get_bit(first, 7) == get_bit(second, 7));
    assert(((first >> 0u8) & 1 == (second >> 0u8) & 1 && (first >> 1u8) & 1 == (second >> 1u8) & 1
        && (first >> 2u8) & 1 == (second >> 2u8) & 1 && (first >> 3u8) & 1 == (second >> 3u8) & 1
        && (first >> 4u8) & 1 == (second >> 4u8) & 1 && (first >> 5u8) & 1 == (second >> 5u8) & 1
        && (first >> 6u8) & 1 == (second >> 6u8) & 1 && (first >> 7u8) & 1 == (second >> 7u8) & 1)
        ==> first == second) by (bit_vector);
}

/// In a byte of all ones every bit reads one, in a byte of all zeros zero.
pub proof fn lemma_uniform_byte(bit: u8)
    requires
        bit < 8,
    ensures
        get_bit(0xff, bit) == 1,
        get_bit(0x00, bit) == 0,
{
    assert(bit < 8 ==> (0xffu8 >> bit) & 1 == 1) by (bit_vector);
    assert((0x00u8 >> bit) & 1 == 0) by (bit_vector);
}

} // verus!
