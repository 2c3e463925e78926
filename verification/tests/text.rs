use gerust::text::{
    chars_of, eq_ignoring_case, find_blank_from, find_char_from, is_blank_char, read_digits,
    same_text, skip_blanks_from, slice_of, to_lower, trim_end_at,
};

fn chars(text: &str) -> Vec<char> {
    text.chars().collect()
}

#[test]
fn letters_are_folded_to_lower_case() {
    assert_eq!(to_lower('A'), 'a');
    assert_eq!(to_lower('Z'), 'z');
    assert_eq!(to_lower('m'), 'm');
    assert_eq!(to_lower('@'), '@');
    assert_eq!(to_lower('['), '[');
    assert_eq!(to_lower('-'), '-');
    assert_eq!(to_lower('É'), 'É');
    assert!(eq_ignoring_case("Content-Type", "content-type"));
    assert!(eq_ignoring_case("", ""));
    assert!(!eq_ignoring_case("Content-Type", "Content-Typ"));
    assert!(!eq_ignoring_case("a", "b"));
}

#[test]
fn blanks_are_spaces_and_tabs() {
    assert!(is_blank_char(' '));
    assert!(is_blank_char('\t'));
    assert!(!is_blank_char('\n'));
    assert!(!is_blank_char('a'));
}

#[test]
fn scanning_stops_where_it_should() {
    let s = chars("  ab, c \t");
    assert_eq!(chars_of("  ab, c \t"), s);
    assert_eq!(skip_blanks_from(&s, 0), 2);
    assert_eq!(skip_blanks_from(&s, 2), 2);
    assert_eq!(skip_blanks_from(&s, 7), 9);
    assert_eq!(skip_blanks_from(&s, 9), 9);
    assert_eq!(find_char_from(&s, ',', 0), 4);
    assert_eq!(find_char_from(&s, ',', 5), 9);
    assert_eq!(find_blank_from(&s, 2), 5);
    assert_eq!(find_blank_from(&s, 6), 7);
    assert_eq!(trim_end_at(&s, 0, 9), 7);
    assert_eq!(trim_end_at(&s, 7, 9), 7);
    assert_eq!(trim_end_at(&s, 0, 4), 4);
    assert_eq!(slice_of(&s, 2, 4), chars("ab"));
    assert_eq!(slice_of(&s, 3, 3), chars(""));
}

#[test]
fn digits_are_read_as_numbers() {
    let s = chars("a0123456789b");
    assert_eq!(read_digits(&s, 1, 1), Some(0));
    assert_eq!(read_digits(&s, 1, 2), Some(0));
    assert_eq!(read_digits(&s, 1, 5), Some(123));
    assert_eq!(read_digits(&s, 2, 11), Some(123456789));
    assert_eq!(read_digits(&s, 0, 3), None);
    assert_eq!(read_digits(&s, 9, 12), None);
    // any number of digits is read, as long as the number fits
    let long = chars("00000000000018446744073709551615");
    assert_eq!(read_digits(&long, 0, long.len()), Some(u64::MAX));
    let too_much = chars("18446744073709551616");
    assert_eq!(read_digits(&too_much, 0, too_much.len()), None);
    assert_eq!(read_digits(&too_much, 0, 19), Some(1844674407370955161));
}

#[test]
fn texts_are_the_same_letter_for_letter() {
    assert!(same_text("", ""));
    assert!(same_text("POST", "POST"));
    assert!(!same_text("POST", "post"));
    assert!(!same_text("POST", "POS"));
    assert!(!same_text("POS", "POST"));
    assert!(!same_text("POST", "PUTS"));
}
