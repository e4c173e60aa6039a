//! Single bits and contiguous bit ranges of a byte.
use core::ops::RangeInclusive;
use vstd::prelude::*;

verus! {

/// Whether bit `index` of `byte` is set; bit 0 is the least significant.
pub open spec fn bit_of(byte: u8, index: usize) -> bool {
    byte & (1u8 << index) != 0
}

/// `byte` with bit `index` set to `value` and every other bit kept.
pub open spec fn with_bit(byte: u8, index: usize, value: bool) -> u8 {
    if value {
        byte | (1u8 << index)
    } else {
        byte & !(1u8 << index)
    }
}

/// Bits `start..=end` of `byte`, moved down so that bit `start` becomes bit 0.
pub open spec fn bit_range(byte: u8, start: usize, end: usize) -> u8 {
    (byte >> start) & (0xFFu8 >> (7 - (end - start)) as usize)
}

/// `RangeInclusive::start` of std: hands out the lower bound of a range that
/// has not been iterated to exhaustion.
pub assume_specification<Idx>[ RangeInclusive::<Idx>::start ](r: &RangeInclusive<Idx>) -> (ret:
    &Idx)
    ensures
        !r@.exhausted ==> *ret == r@.start,
;

/// `RangeInclusive::end` of std: hands out the upper bound of a range that
/// has not been iterated to exhaustion.
pub assume_specification<Idx>[ RangeInclusive::<Idx>::end ](r: &RangeInclusive<Idx>) -> (ret:
    &Idx)
    ensures
        !r@.exhausted ==> *ret == r@.end,
;

/// Set the bit at index `index` of `byte` to `set`.
pub fn set_bit(byte: &mut u8, index: usize, set: bool)
    requires
        index < 8,
    ensures
        *final(byte) == with_bit(*old(byte), index, set),
        forall|j: usize|
            j < 8 ==> #[trigger] bit_of(*final(byte), j) == (if j == index {
                set
            } else {
                bit_of(*old(byte), j)
            }),
{
    let ghost before = *byte;
    if set {
        *byte |= 1u8 << index
    } else {
        *byte &= !(1u8 << index)
    }
    proof {
        assert forall|j: usize| j < 8 implies #[trigger] bit_of(*byte, j) == (if j == index {
            set
        } else {
            bit_of(before, j)
        }) by {
            lemma_with_bit(before, index, set, j);
        }
    }
}

/// Get the bit at index `index` of `byte`.
pub fn get_bit(byte: u8, index: usize) -> (bit: bool)
    requires
        index < 8,
    ensures
        bit == bit_of(byte, index),
{
    (byte & (1u8 << index)) != 0
}

/// Get the range of bits defined by `range` as `u8`.
pub fn get_bit_range(byte: u8, range: RangeInclusive<usize>) -> (bits: u8)
    requires
        !range@.exhausted,
        range@.start <= range@.end <= 7,
    ensures
        bits == bit_range(byte, range@.start, range@.end),
{
    let start: usize = *range.start();
    let end: usize = *range.end();
    let mut mask: u8 = 0;
    let mut i: usize = start;
    while i <= end
        invariant
            start <= i <= end + 1,
            end <= 7,
            mask as int == covered(start, i),
        decreases end + 1 - i,
    {
        proof {
            lemma_covered_step(start, i);
        }
        mask += 1u8 << i;
        i += 1;
    }
    proof {
        lemma_mask_extracts(byte, mask, start, end);
    }
    (byte & mask) >> start
}

/// The number whose set bits are exactly those at `start..upto`.
spec fn covered(start: usize, upto: usize) -> int {
    (1u16 << upto) - (1u16 << start)
}

proof fn lemma_covered_step(start: usize, i: usize)
    requires
        start <= i <= 7,
    ensures
        covered(start, (i + 1) as usize) == covered(start, i) + (1u8 << i),
        0 <= covered(start, i),
        covered(start, (i + 1) as usize) <= 255,
{
    assert(start <= i <= 7 ==> covered(start, (i + 1) as usize) == covered(start, i) + (1u8 << i))
        by (bit_vector);
    assert(start <= i <= 7 ==> 0 <= covered(start, i)) by (bit_vector);
    assert(start <= i <= 7 ==> covered(start, (i + 1) as usize) <= 255) by (bit_vector);
}

proof fn lemma_mask_extracts(byte: u8, mask: u8, start: usize, end: usize)
    requires
        start <= end <= 7,
        mask as int == covered(start, (end + 1) as usize),
    ensures
        (byte & mask) >> start == bit_range(byte, start, end),
{
    assert(start <= end <= 7 && mask as int == covered(start, (end + 1) as usize) ==> (byte & mask)
        >> start == bit_range(byte, start, end)) by (bit_vector);
}

/// Setting a bit and reading any bit back: the bit that was set reads as
/// `value`, every other bit reads as before.
pub proof fn lemma_with_bit(byte: u8, index: usize, value: bool, j: usize)
    requires
        index < 8,
        j < 8,
    ensures
        bit_of(with_bit(byte, index, value), j) == (if j == index {
            value
        } else {
            bit_of(byte, j)
        }),
{
    assert(index < 8 && j < 8 ==> bit_of(with_bit(byte, index, value), j) == (if j == index {
        value
    } else {
        bit_of(byte, j)
    })) by (bit_vector);
}

/// The extracted range is right-aligned and holds nothing else: bit `j` of
/// the result is bit `start + j` of the byte while `start + j` is within the
/// range, and clear above it.
pub proof fn lemma_bit_range_bits(byte: u8, start: usize, end: usize, j: usize)
    requires
        start <= end <= 7,
        j < 8,
    ensures
        bit_of(bit_range(byte, start, end), j) == (j <= end - start && bit_of(
            byte,
            (start + j) as usize,
        )),
{
    assert(start <= end <= 7 && j < 8 ==> bit_of(bit_range(byte, start, end), j) == (j <= end
        - start && bit_of(byte, (start + j) as usize))) by (bit_vector);
}

} // verus!
