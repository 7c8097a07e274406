//! Single bits of 16-bit words: the controlword and the statusword are read and
//! written bit by bit.

use vstd::prelude::*;

verus! {

/// Bit `index` of `word`, counted from the least significant one.
pub open spec fn bit(word: u16, index: usize) -> bool {
    word & (1u16 << index) != 0
}

/// `word` with bit `position` made equal to `value` and the others left alone.
pub open spec fn with_bit(word: u16, position: usize, value: bool) -> u16 {
    if value {
        word | (1u16 << position)
    } else {
        word & !(1u16 << position)
    }
}

/// `word` after the assignments of `bits`, made from the first to the last.
pub open spec fn with_bits(word: u16, bits: Seq<(usize, bool)>) -> u16
    decreases bits.len(),
{
    if bits.len() == 0 {
        word
    } else {
        with_bit(with_bits(word, bits.drop_last()), bits.last().0, bits.last().1)
    }
}

/// What the assignments of `bits` leave in bit `index`: the last value that one of
/// them gives it, or `None` where none of them speaks of it.
pub open spec fn assigned(bits: Seq<(usize, bool)>, index: usize) -> Option<bool>
    decreases bits.len(),
{
    if bits.len() == 0 {
        None
    } else if bits.last().0 == index {
        Some(bits.last().1)
    } else {
        assigned(bits.drop_last(), index)
    }
}

/// Every assignment of `bits` names a bit that a 16-bit word has.
pub open spec fn positions_in_word(bits: Seq<(usize, bool)>) -> bool {
    forall|k: int| 0 <= k < bits.len() ==> (#[trigger] bits[k]).0 < 16
}

/// A bit that was set reads back as it was set; the other bits read as before.
pub proof fn lemma_bit_of_with_bit(word: u16, position: usize, value: bool, index: usize)
    requires
        position < 16,
        index < 16,
    ensures
        bit(with_bit(word, position, value), index) == (if index == position {
            value
        } else {
            bit(word, index)
        }),
{
    assert((word | (1u16 << position)) & (1u16 << position) != 0) by (bit_vector)
        requires
            position < 16,
    ;
    assert((word & !(1u16 << position)) & (1u16 << position) == 0) by (bit_vector)
        requires
            position < 16,
    ;
    if index != position {
        assert((word | (1u16 << position)) & (1u16 << index) == word & (1u16 << index)) by (bit_vector)
            requires
                position < 16,
                index < 16,
                index != position,
        ;
        assert((word & !(1u16 << position)) & (1u16 << index) == word & (1u16 << index)) by (bit_vector)
            requires
                position < 16,
                index < 16,
                index != position,
        ;
    }
}

/// Every bit of a word after a series of assignments is what the last assignment to
/// it says, and as before where there is none.
pub proof fn lemma_bit_of_with_bits(word: u16, bits: Seq<(usize, bool)>, index: usize)
    requires
        positions_in_word(bits),
        index < 16,
    ensures
        bit(with_bits(word, bits), index) == (match assigned(bits, index) {
            Some(value) => value,
            None => bit(word, index),
        }),
    decreases bits.len(),
{
    if bits.len() > 0 {
        let rest = bits.drop_last();
        assert(positions_in_word(rest)) by {
            assert forall|k: int| 0 <= k < rest.len() implies (#[trigger] rest[k]).0 < 16 by {
                assert(rest[k] == bits[k]);
            }
        }
        assert(bits.last() == bits[bits.len() - 1]);
        lemma_bit_of_with_bits(word, rest, index);
        lemma_bit_of_with_bit(with_bits(word, rest), bits.last().0, bits.last().1, index);
    }
}

/// A word is known when its sixteen bits are: two words that agree on each are equal.
pub proof fn lemma_word_from_bits(a: u16, b: u16)
    requires
        forall|index: usize| index < 16 ==> #[trigger] bit(a, index) == bit(b, index),
    ensures
        a == b,
{
    assert(bit(a, 0) == bit(b, 0) && bit(a, 1) == bit(b, 1) && bit(a, 2) == bit(b, 2)
        && bit(a, 3) == bit(b, 3) && bit(a, 4) == bit(b, 4) && bit(a, 5) == bit(b, 5)
        && bit(a, 6) == bit(b, 6) && bit(a, 7) == bit(b, 7) && bit(a, 8) == bit(b, 8)
        && bit(a, 9) == bit(b, 9) && bit(a, 10) == bit(b, 10) && bit(a, 11) == bit(b, 11)
        && bit(a, 12) == bit(b, 12) && bit(a, 13) == bit(b, 13) && bit(a, 14) == bit(b, 14)
        && bit(a, 15) == bit(b, 15));
    assert(a == b) by (bit_vector)
        requires
            (a & (1u16 << 0usize) != 0) == (b & (1u16 << 0usize) != 0),
            (a & (1u16 << 1usize) != 0) == (b & (1u16 << 1usize) != 0),
            (a & (1u16 << 2usize) != 0) == (b & (1u16 << 2usize) != 0),
            (a & (1u16 << 3usize) != 0) == (b & (1u16 << 3usize) != 0),
            (a & (1u16 << 4usize) != 0) == (b & (1u16 << 4usize) != 0),
            (a & (1u16 << 5usize) != 0) == (b & (1u16 << 5usize) != 0),
            (a & (1u16 << 6usize) != 0) == (b & (1u16 << 6usize) != 0),
            (a & (1u16 << 7usize) != 0) == (b & (1u16 << 7usize) != 0),
            (a & (1u16 << 8usize) != 0) == (b & (1u16 << 8usize) != 0),
            (a & (1u16 << 9usize) != 0) == (b & (1u16 << 9usize) != 0),
            (a & (1u16 << 10usize) != 0) == (b & (1u16 << 10usize) != 0),
            (a & (1u16 << 11usize) != 0) == (b & (1u16 << 11usize) != 0),
            (a & (1u16 << 12usize) != 0) == (b & (1u16 << 12usize) != 0),
            (a & (1u16 << 13usize) != 0) == (b & (1u16 << 13usize) != 0),
            (a & (1u16 << 14usize) != 0) == (b & (1u16 << 14usize) != 0),
            (a & (1u16 << 15usize) != 0) == (b & (1u16 << 15usize) != 0),
    ;
}

/// Reads one bit of a word.
pub fn get_bit_16(u16_value: &u16, index: usize) -> (value: bool)
    requires
        index < 16,
    ensures
        value == bit(*u16_value, index),
{
    let mask: u16 = 1u16 << index;
    (*u16_value & mask) != 0
}

/// The word with one bit set to `value`.
pub fn set_bit_16(u16_value: &u16, bit_position: usize, value: bool) -> (word: u16)
    requires
        bit_position < 16,
    ensures
        word == with_bit(*u16_value, bit_position, value),
        forall|index: usize|
            index < 16 ==> #[trigger] bit(word, index) == (if index == bit_position {
                value
            } else {
                bit(*u16_value, index)
            }),
{
    proof {
        assert forall|index: usize| index < 16 implies #[trigger] bit(
            with_bit(*u16_value, bit_position, value),
            index,
        ) == (if index == bit_position {
            value
        } else {
            bit(*u16_value, index)
        }) by {
            lemma_bit_of_with_bit(*u16_value, bit_position, value, index);
        }
    }
    let mask: u16 = 1u16 << bit_position;
    if value {
        *u16_value | mask
    } else {
        *u16_value & !mask
    }
}

/// Makes a series of bit assignments, in their order.
pub fn set_bits(statusword: &mut u16, bits: &[(usize, bool)])
    requires
        positions_in_word(bits@),
    ensures
        *final(statusword) == with_bits(*old(statusword), bits@),
        forall|index: usize|
            index < 16 ==> #[trigger] bit(*final(statusword), index) == (match assigned(
                bits@,
                index,
            ) {
                Some(value) => value,
                None => bit(*old(statusword), index),
            }),
{
    let ghost before = *statusword;
    let mut k: usize = 0;
    while k < bits.len()
        invariant
            k <= bits.len(),
            positions_in_word(bits@),
            *statusword == with_bits(before, bits@.take(k as int)),
        decreases bits.len() - k,
    {
        let (position, value): (usize, bool) = bits[k];
        *statusword = set_bit_16(statusword, position, value);
        proof {
            assert(bits@.take(k + 1).drop_last() =~= bits@.take(k as int));
        }
        k = k + 1;
    }
    proof {
        assert(bits@.take(k as int) =~= bits@);
        assert forall|index: usize| index < 16 implies #[trigger] bit(
            with_bits(before, bits@),
            index,
        ) == (match assigned(bits@, index) {
            Some(value) => value,
            None => bit(before, index),
        }) by {
            lemma_bit_of_with_bits(before, bits@, index);
        }
    }
}

} // verus!
