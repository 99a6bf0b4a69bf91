use rps_cli::input::{parse_selector, read_selector, select_move, Selection};
use rps_cli::moves::Moves;

#[test]
fn input_loop_discards_invalid_lines() {
    let lines = vec!["abc".to_string(), "9".to_string(), "2".to_string()];
    assert_eq!(select_move(&lines), Some((2, Moves::Paper)));
}

#[test]
fn input_loop_takes_the_first_valid_line() {
    let lines = vec!["3".to_string(), "1".to_string()];
    assert_eq!(select_move(&lines), Some((0, Moves::Scissors)));
}

#[test]
fn input_loop_finds_no_move_in_bad_lines() {
    let lines = vec!["x".to_string(), "0".to_string(), "".to_string()];
    assert_eq!(select_move(&lines), None);
}

#[test]
fn plain_selectors_choose_the_moves() {
    assert_eq!(parse_selector("1"), Some(Moves::Rock));
    assert_eq!(parse_selector("2"), Some(Moves::Paper));
    assert_eq!(parse_selector("3"), Some(Moves::Scissors));
}

#[test]
fn whitespace_around_a_selector_is_ignored() {
    assert_eq!(parse_selector(" 2 \n"), Some(Moves::Paper));
    assert_eq!(parse_selector("\t3\r\n"), Some(Moves::Scissors));
}

#[test]
fn leading_zeroes_and_plus_are_part_of_a_number() {
    assert_eq!(parse_selector("02"), Some(Moves::Paper));
    assert_eq!(parse_selector("+3"), Some(Moves::Scissors));
    assert_eq!(parse_selector("0001"), Some(Moves::Rock));
}

#[test]
fn numbers_out_of_range_choose_nothing() {
    assert_eq!(parse_selector("0"), None);
    assert_eq!(parse_selector("4"), None);
    assert_eq!(parse_selector("10"), None);
    assert_eq!(parse_selector("-2"), None);
}

#[test]
fn lines_that_name_no_number_choose_nothing() {
    assert_eq!(parse_selector(""), None);
    assert_eq!(parse_selector("   "), None);
    assert_eq!(parse_selector("abc"), None);
    assert_eq!(parse_selector("2x"), None);
    assert_eq!(parse_selector("+"), None);
    assert_eq!(parse_selector("-"), None);
    assert_eq!(parse_selector("+-2"), None);
    assert_eq!(parse_selector("1 2"), None);
    assert_eq!(parse_selector("999999999999999999999"), None);
}

#[test]
fn reading_tells_out_of_range_from_invalid() {
    assert_eq!(read_selector("1"), Selection::Chosen(Moves::Rock));
    assert_eq!(read_selector("9"), Selection::OutOfRange);
    assert_eq!(read_selector("0"), Selection::OutOfRange);
    assert_eq!(read_selector("abc"), Selection::Invalid);
    assert_eq!(read_selector(""), Selection::Invalid);
}

#[test]
fn signed_numbers_are_out_of_range_not_invalid() {
    assert_eq!(read_selector("-5"), Selection::OutOfRange);
    assert_eq!(read_selector("-0"), Selection::OutOfRange);
    assert_eq!(read_selector("-2147483648"), Selection::OutOfRange);
}

#[test]
fn numbers_beyond_32_bits_are_invalid_not_out_of_range() {
    assert_eq!(read_selector("2147483647"), Selection::OutOfRange);
    assert_eq!(read_selector("2147483648"), Selection::Invalid);
    assert_eq!(read_selector("-2147483649"), Selection::Invalid);
    assert_eq!(read_selector("999999999999999999999"), Selection::Invalid);
}
