use sc_scan_01::limits::{check_lengths, read_var_u32};
use sc_scan_01::parser::{read_wasm, scan_module};

#[test]
fn one_byte_numbers_are_their_byte() {
    assert_eq!(read_var_u32(&[0x00], 0), Some((0, 1)));
    assert_eq!(read_var_u32(&[0x7f], 0), Some((127, 1)));
    assert_eq!(read_var_u32(&[0xff, 0x05, 0x80], 1), Some((5, 1)));
}

#[test]
fn longer_numbers_add_seven_bits_a_byte() {
    assert_eq!(read_var_u32(&[0x80, 0x01], 0), Some((128, 2)));
    assert_eq!(read_var_u32(&[0xe5, 0x8e, 0x26], 0), Some((624485, 3)));
    assert_eq!(read_var_u32(&[0xff, 0xff, 0xff, 0x7f], 0), Some((268435455, 4)));
    assert_eq!(read_var_u32(&[0x80, 0x80, 0x80, 0x80, 0x01], 0), Some((268435456, 5)));
    assert_eq!(read_var_u32(&[0xff, 0xff, 0xff, 0xff, 0x0f], 0), Some((u32::MAX, 5)));
    assert_eq!(read_var_u32(&[0x00, 0xff, 0xff, 0xff, 0xff, 0x0f, 0x00], 1), Some((u32::MAX, 5)));
}

#[test]
fn padded_numbers_keep_their_value() {
    assert_eq!(read_var_u32(&[0x80, 0x00], 0), Some((0, 2)));
    assert_eq!(read_var_u32(&[0x83, 0x80, 0x80, 0x80, 0x00], 0), Some((3, 5)));
}

#[test]
fn fifth_byte_holds_four_bits_and_ends_the_number() {
    assert_eq!(read_var_u32(&[0xff, 0xff, 0xff, 0xff, 0x10], 0), None);
    assert_eq!(read_var_u32(&[0xff, 0xff, 0xff, 0xff, 0x7f], 0), None);
    assert_eq!(read_var_u32(&[0x80, 0x80, 0x80, 0x80, 0x80, 0x00], 0), None);
}

#[test]
fn number_cut_off_by_the_end_is_none() {
    assert_eq!(read_var_u32(&[], 0), None);
    assert_eq!(read_var_u32(&[0x01], 1), None);
    assert_eq!(read_var_u32(&[0x01], 7), None);
    assert_eq!(read_var_u32(&[0x80], 0), None);
    assert_eq!(read_var_u32(&[0x80, 0x80], 0), None);
    assert_eq!(read_var_u32(&[0x80, 0x80, 0x80], 0), None);
    assert_eq!(read_var_u32(&[0x80, 0x80, 0x80, 0x80], 0), None);
}

#[test]
fn lengths_fit_where_words_are_wide() {
    if usize::BITS >= 64 {
        assert!(check_lengths(&[]));
        assert!(check_lengths(&[0xff, 0xff, 0xff, 0xff, 0x0f]));
        assert!(check_lengths(&[0x00, 0x61, 0x73, 0x6d, 0x01, 0x00, 0x00, 0x00]));
    }
}

#[test]
fn small_lengths_fit_any_machine() {
    assert!(check_lengths(&[]));
    assert!(check_lengths(&[0x00, 0x61, 0x73, 0x6d, 0x01, 0x00, 0x00, 0x00, 0x01, 0x7f]));
    assert!(check_lengths(&[0xff, 0xff, 0xff, 0xff, 0x07]));
}

#[test]
fn section_longer_than_a_narrow_word_yields_the_empty_array() {
    let bytes = [
        0x00, 0x61, 0x73, 0x6d, 0x01, 0x00, 0x00, 0x00, 0x01, 0xff, 0xff, 0xff, 0xff, 0x0f,
    ];
    assert_eq!(scan_module(&bytes), None);
    assert_eq!(read_wasm(&bytes), "[]");
}

#[test]
fn function_body_longer_than_a_narrow_word_yields_the_empty_array() {
    let bytes = [
        0x00, 0x61, 0x73, 0x6d, 0x01, 0x00, 0x00, 0x00, 0x0a, 0x06, 0x01, 0xff, 0xff, 0xff, 0xff,
        0x0f,
    ];
    assert_eq!(scan_module(&bytes), None);
    assert_eq!(read_wasm(&bytes), "[]");
}
