use renamer::naming::format_ordinal;
use renamer::naming::new_filename;

#[test]
fn ordinal_one_is_zero_padded() {
    assert_eq!(format_ordinal(1), "01");
}

#[test]
fn ordinal_nine_is_zero_padded() {
    assert_eq!(format_ordinal(9), "09");
}

#[test]
fn ordinal_ten_needs_no_padding() {
    assert_eq!(format_ordinal(10), "10");
}

#[test]
fn ordinal_ninety_nine_needs_no_padding() {
    assert_eq!(format_ordinal(99), "99");
}

#[test]
fn ordinal_one_hundred_keeps_all_digits() {
    assert_eq!(format_ordinal(100), "100");
}

#[test]
fn ordinal_zero_is_zero_padded() {
    assert_eq!(format_ordinal(0), "00");
}

#[test]
fn new_filename_joins_ordinal_prefix_and_name() {
    assert_eq!(new_filename(1, "-", "a.txt"), "01-a.txt");
}

#[test]
fn new_filename_with_underscore_prefix() {
    assert_eq!(new_filename(3, "_", "c.txt"), "03_c.txt");
}

#[test]
fn new_filename_with_empty_prefix() {
    assert_eq!(new_filename(12, "", "notes.md"), "12notes.md");
}

#[test]
fn new_filename_beyond_two_digits() {
    assert_eq!(new_filename(100, "-", "z"), "100-z");
}
