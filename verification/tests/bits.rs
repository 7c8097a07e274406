use cia402_node::bits::{get_bit_16, set_bit_16, set_bits};

#[test]
fn a_set_bit_reads_back_and_leaves_the_others_alone() {
    let word: u16 = 0b1010_0000_0000_0101;
    assert!(get_bit_16(&word, 0));
    assert!(!get_bit_16(&word, 1));
    assert!(get_bit_16(&word, 15));
    assert_eq!(set_bit_16(&word, 1, true), 0b1010_0000_0000_0111);
    assert_eq!(set_bit_16(&word, 0, false), 0b1010_0000_0000_0100);
    assert_eq!(set_bit_16(&word, 15, false), 0b0010_0000_0000_0101);
    assert_eq!(set_bit_16(&word, 2, true), word);
}

#[test]
fn the_last_assignment_to_a_bit_counts() {
    let mut word: u16 = 0xFFFF;
    set_bits(&mut word, &[(0, false), (4, false), (0, true), (15, false)]);
    assert_eq!(word, 0x7FEF);
    set_bits(&mut word, &[]);
    assert_eq!(word, 0x7FEF);
}
