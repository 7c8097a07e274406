//! Integers as bytes, least significant byte first.

use vstd::prelude::*;

verus! {

/// The `count` low bytes of `value`, the lowest first. A negative value gives the bytes
/// of its two's complement.
pub open spec fn le_bytes(value: int, count: nat) -> Seq<u8>
    decreases count,
{
    if count == 0 {
        Seq::empty()
    } else {
        seq![(value % 256) as u8] + le_bytes(value / 256, (count - 1) as nat)
    }
}

/// The number that `bytes` stand for, read without a sign.
pub open spec fn unsigned_value(bytes: Seq<u8>) -> int
    decreases bytes.len(),
{
    if bytes.len() == 0 {
        0
    } else {
        bytes[0] + 256 * unsigned_value(bytes.drop_first())
    }
}

/// The number that `bytes` stand for, read as two's complement of their own width:
/// the top bit of the last byte carries the sign.
pub open spec fn signed_value(bytes: Seq<u8>) -> int
    decreases bytes.len(),
{
    if bytes.len() == 0 {
        0
    } else if bytes.len() == 1 {
        if bytes[0] < 128 {
            bytes[0] as int
        } else {
            bytes[0] - 256
        }
    } else {
        bytes[0] + 256 * signed_value(bytes.drop_first())
    }
}

/// The bytes of a number have the number of places asked for.
pub proof fn lemma_le_bytes_len(value: int, count: nat)
    ensures
        le_bytes(value, count).len() == count,
    decreases count,
{
    if count > 0 {
        lemma_le_bytes_len(value / 256, (count - 1) as nat);
    }
}

/// Reading bytes as a number and writing the number out gives the bytes back.
pub proof fn lemma_bytes_of_value(bytes: Seq<u8>)
    ensures
        le_bytes(unsigned_value(bytes), bytes.len()) == bytes,
        le_bytes(signed_value(bytes), bytes.len()) == bytes,
    decreases bytes.len(),
{
    if bytes.len() > 0 {
        let rest = bytes.drop_first();
        lemma_bytes_of_value(rest);
        assert(seq![bytes[0]] + rest =~= bytes);
        if bytes.len() == 1 {
            reveal_with_fuel(le_bytes, 2);
            assert(rest =~= Seq::<u8>::empty());
        }
    } else {
        assert(bytes =~= Seq::<u8>::empty());
    }
}

/// Writing a number out and reading the bytes gives the number back, where it fits:
/// without a sign up to `256^count`, and with one from minus half of that up to half.
pub proof fn lemma_value_of_bytes(value: int, count: nat)
    ensures
        0 <= value < width_limit(count) ==> unsigned_value(le_bytes(value, count)) == value,
        count > 0 && -width_limit(count) <= 2 * value < width_limit(count) ==> signed_value(
            le_bytes(value, count),
        ) == value,
    decreases count,
{
    if count > 0 {
        let rest = (count - 1) as nat;
        let bytes = le_bytes(value, count);
        lemma_value_of_bytes(value / 256, rest);
        lemma_le_bytes_len(value / 256, rest);
        assert(bytes.drop_first() =~= le_bytes(value / 256, rest));
        if count == 1 {
            assert(width_limit(1) == 256) by {
                reveal_with_fuel(width_limit, 2);
            }
        }
    }
}

/// How many different values `count` bytes can hold.
pub open spec fn width_limit(count: nat) -> int
    decreases count,
{
    if count == 0 {
        1
    } else {
        256 * width_limit((count - 1) as nat)
    }
}

/// The byte of an 8-bit signed number.
pub fn i8_to_byte(value: i8) -> (byte: u8)
    ensures
        seq![byte] == le_bytes(value as int, 1),
{
    proof {
        reveal_with_fuel(le_bytes, 2);
        assert(value < 0 ==> (value as u8) as int == value + 0x100) by (bit_vector);
        assert(seq![value as u8] =~= le_bytes(value as int, 1));
    }
    value as u8
}

/// The two bytes of a 16-bit number.
pub fn u16_to_le(value: u16) -> (bytes: [u8; 2])
    ensures
        bytes@ == le_bytes(value as int, 2),
{
    proof {
        reveal_with_fuel(le_bytes, 3);
    }
    let bytes: [u8; 2] = [(value % 256) as u8, (value / 256) as u8];
    assert(bytes@ =~= le_bytes(value as int, 2));
    bytes
}

/// The two bytes of a 16-bit signed number.
pub fn i16_to_le(value: i16) -> (bytes: [u8; 2])
    ensures
        bytes@ == le_bytes(value as int, 2),
{
    proof {
        reveal_with_fuel(le_bytes, 3);
        assert(value < 0 ==> (value as u16) as int == value + 0x1_0000) by (bit_vector);
    }
    let bytes: [u8; 2] = u16_to_le(value as u16);
    assert(bytes@ =~= le_bytes(value as int, 2));
    bytes
}

/// The four bytes of a 32-bit number.
pub fn u32_to_le(value: u32) -> (bytes: [u8; 4])
    ensures
        bytes@ == le_bytes(value as int, 4),
{
    proof {
        reveal_with_fuel(le_bytes, 5);
    }
    let bytes: [u8; 4] = [
        (value % 256) as u8,
        (value / 256 % 256) as u8,
        (value / 256 / 256 % 256) as u8,
        (value / 256 / 256 / 256) as u8,
    ];
    assert(bytes@ =~= le_bytes(value as int, 4));
    bytes
}

/// The four bytes of a 32-bit signed number.
pub fn i32_to_le(value: i32) -> (bytes: [u8; 4])
    ensures
        bytes@ == le_bytes(value as int, 4),
{
    proof {
        reveal_with_fuel(le_bytes, 5);
        assert(value < 0 ==> (value as u32) as int == value + 0x1_0000_0000) by (bit_vector);
    }
    let bytes: [u8; 4] = u32_to_le(value as u32);
    assert(bytes@ =~= le_bytes(value as int, 4));
    bytes
}

/// The 8-bit signed number of one byte.
pub fn i8_from_byte(byte: u8) -> (value: i8)
    ensures
        value == signed_value(seq![byte]),
{
    assert((byte as i8) as int == if byte < 128 {
        byte as int
    } else {
        byte - 0x100
    }) by (bit_vector);
    byte as i8
}

/// The 16-bit number of two bytes.
pub fn u16_from_le(bytes: [u8; 2]) -> (value: u16)
    ensures
        value == unsigned_value(bytes@),
{
    proof {
        reveal_with_fuel(unsigned_value, 3);
    }
    bytes[0] as u16 + 256 * (bytes[1] as u16)
}

/// The 16-bit signed number of two bytes.
pub fn i16_from_le(bytes: [u8; 2]) -> (value: i16)
    ensures
        value == signed_value(bytes@),
{
    proof {
        reveal_with_fuel(unsigned_value, 3);
        reveal_with_fuel(signed_value, 3);
    }
    let word: u16 = u16_from_le(bytes);
    assert((word as i16) as int == if word < 0x8000 {
        word as int
    } else {
        word - 0x1_0000
    }) by (bit_vector);
    word as i16
}

/// The 32-bit number of four bytes.
pub fn u32_from_le(bytes: [u8; 4]) -> (value: u32)
    ensures
        value == unsigned_value(bytes@),
{
    proof {
        reveal_with_fuel(unsigned_value, 5);
    }
    bytes[0] as u32 + 256 * (bytes[1] as u32 + 256 * (bytes[2] as u32 + 256 * (bytes[3] as u32)))
}

/// The 32-bit signed number of four bytes.
pub fn i32_from_le(bytes: [u8; 4]) -> (value: i32)
    ensures
        value == signed_value(bytes@),
{
    proof {
        reveal_with_fuel(unsigned_value, 5);
        reveal_with_fuel(signed_value, 5);
    }
    let word: u32 = u32_from_le(bytes);
    assert((word as i32) as int == if word < 0x8000_0000 {
        word as int
    } else {
        word - 0x1_0000_0000
    }) by (bit_vector);
    word as i32
}

} // verus!
