use f3usb::stat::{to_disabled, to_nak, to_valid, STAT_DISABLED, STAT_NAK, STAT_VALID};
use f3usb::word::{split_sram_word, swap_bytes};

#[test]
fn to_valid_table() {
    assert_eq!(to_valid(0b00), 0b11);
    assert_eq!(to_valid(0b01), 0b10);
    assert_eq!(to_valid(0b10), 0b01);
    assert_eq!(to_valid(0b11), 0b00);
}

#[test]
fn to_nak_table() {
    assert_eq!(to_nak(0b00), 0b10);
    assert_eq!(to_nak(0b01), 0b11);
    assert_eq!(to_nak(0b10), 0b00);
    assert_eq!(to_nak(0b11), 0b01);
}

#[test]
fn to_disabled_is_identity() {
    for s in 0u8..4 {
        assert_eq!(to_disabled(s), s);
    }
}

#[test]
fn toggled_stat_reaches_target() {
    for s in 0u8..4 {
        assert_eq!(s ^ to_valid(s), STAT_VALID);
        assert_eq!(s ^ to_nak(s), STAT_NAK);
        assert_eq!(s ^ to_disabled(s), STAT_DISABLED);
    }
}

#[test]
fn swap_bytes_values() {
    assert_eq!(swap_bytes(0xDEAD), 0xADDE);
    assert_eq!(swap_bytes(0x1201), 0x0112);
    assert_eq!(swap_bytes(0x0000), 0x0000);
    assert_eq!(swap_bytes(0xFF00), 0x00FF);
    for w in [0u16, 1, 0x1234, 0xBEEF, 0xFFFF] {
        assert_eq!(swap_bytes(swap_bytes(w)), w);
        assert_eq!(swap_bytes(w), w.swap_bytes());
    }
}

#[test]
fn split_sram_word_is_little_endian() {
    assert_eq!(split_sram_word(0x0680), (0x80, 0x06));
    assert_eq!(split_sram_word(0xABCD), (0xCD, 0xAB));
    assert_eq!(split_sram_word(0x00EF), (0xEF, 0x00));
}

#[test]
fn swapped_word_leaves_in_written_order() {
    let (first, second) = split_sram_word(swap_bytes(0x1201));
    assert_eq!((first, second), (0x12, 0x01));
}
