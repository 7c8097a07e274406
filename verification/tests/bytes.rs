use cia402_node::le::{
    i16_from_le, i16_to_le, i32_from_le, i32_to_le, i8_from_byte, i8_to_byte, u16_from_le,
    u16_to_le, u32_from_le, u32_to_le,
};

#[test]
fn numbers_have_the_bytes_of_their_type() {
    assert_eq!(i8_to_byte(-2), 0xFE);
    assert_eq!(u16_to_le(0x1234), [0x34, 0x12]);
    assert_eq!(i16_to_le(-2), [0xFE, 0xFF]);
    assert_eq!(u32_to_le(0x1234_5678), [0x78, 0x56, 0x34, 0x12]);
    assert_eq!(i32_to_le(-2), [0xFE, 0xFF, 0xFF, 0xFF]);
}

#[test]
fn bytes_read_as_numbers() {
    assert_eq!(i8_from_byte(0x80), -128);
    assert_eq!(u16_from_le([0x34, 0x12]), 0x1234);
    assert_eq!(i16_from_le([0x00, 0x80]), -32768);
    assert_eq!(u32_from_le([0x78, 0x56, 0x34, 0x12]), 0x1234_5678);
    assert_eq!(i32_from_le([0x00, 0x00, 0x00, 0x80]), i32::MIN);
}

#[test]
fn numbers_survive_the_way_through_bytes() {
    for value in [i32::MIN, -70_000, -1, 0, 1, 255, 256, 65_536, i32::MAX] {
        assert_eq!(i32_to_le(value), value.to_le_bytes());
        assert_eq!(i32_from_le(i32_to_le(value)), value);
        let word = value as u32;
        assert_eq!(u32_to_le(word), word.to_le_bytes());
        assert_eq!(u32_from_le(u32_to_le(word)), word);
    }
    for value in i16::MIN..=i16::MAX {
        assert_eq!(i16_to_le(value), value.to_le_bytes());
        assert_eq!(i16_from_le(i16_to_le(value)), value);
        let word = value as u16;
        assert_eq!(u16_to_le(word), word.to_le_bytes());
        assert_eq!(u16_from_le(u16_to_le(word)), word);
    }
    for value in i8::MIN..=i8::MAX {
        assert_eq!(i8_to_byte(value), value as u8);
        assert_eq!(i8_from_byte(i8_to_byte(value)), value);
    }
}
