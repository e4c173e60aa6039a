use contec_protocol::bit_ops::{get_bit, get_bit_range, set_bit};

#[test]
fn test_set_bit() {
    let mut byte = 0b11001100u8;
    set_bit(&mut byte, 0, true);
    assert_eq!(byte, 0b11001101u8);
    set_bit(&mut byte, 7, false);
    assert_eq!(byte, 0b01001101u8);
    set_bit(&mut byte, 3, false);
    set_bit(&mut byte, 4, true);
    assert_eq!(byte, 0b01010101u8);
}

#[test]
fn test_get_bit() {
    assert_eq!(get_bit(0b11001100u8, 0), false);
    assert_eq!(get_bit(0b11001100u8, 3), true);
    assert_eq!(get_bit(0b11001100u8, 7), true);
}

#[test]
fn test_bit_range() {
    assert_eq!(get_bit_range(0b11001100u8, 1..=2), 0b10);
    assert_eq!(get_bit_range(0b11001100u8, 1..=4), 0b0110);
    assert_eq!(get_bit_range(0b11001100u8, 3..=3), 1);
    assert_eq!(get_bit_range(0b11001100u8, 4..=4), 0);
    assert_eq!(get_bit_range(0b11001100u8, 0..=7), 0b11001100u8);
}

#[test]
fn set_then_get_reads_the_value_and_keeps_the_rest() {
    for byte in 0..=255u8 {
        for index in 0..8usize {
            for value in [false, true] {
                let mut changed = byte;
                set_bit(&mut changed, index, value);
                for other in 0..8usize {
                    let expected = if other == index { value } else { get_bit(byte, other) };
                    assert_eq!(get_bit(changed, other), expected);
                }
            }
        }
    }
}

#[test]
fn bit_range_is_right_aligned_for_every_range() {
    for byte in [0u8, 0xFF, 0b1010_0101, 0b1100_1100, 0x80, 0x01] {
        for start in 0..8usize {
            for end in start..8usize {
                let bits = get_bit_range(byte, start..=end);
                for j in 0..8usize {
                    let expected = j <= end - start && get_bit(byte, start + j);
                    assert_eq!(get_bit(bits, j), expected);
                }
            }
        }
    }
}

#[test]
fn bit_range_of_single_top_bit() {
    assert_eq!(get_bit_range(0x80, 7..=7), 1);
    assert_eq!(get_bit_range(0x7F, 7..=7), 0);
    assert_eq!(get_bit_range(0xFF, 4..=7), 0x0F);
}
