use red::text::{basename, chars_eq, find_in_line, parse_u16, split_lines, to_lower, trim};
use red::viewport::{gutter_width, viewport_offset};

fn cv(s: &str) -> Vec<char> {
    s.chars().collect()
}

fn s(v: &Vec<char>) -> String {
    v.iter().collect()
}

#[test]
fn split_treats_final_terminator_as_separator() {
    assert_eq!(split_lines(&cv("")).len(), 0);
    assert_eq!(split_lines(&cv("\n")), vec![cv("")]);
    assert_eq!(split_lines(&cv("a\nb")), vec![cv("a"), cv("b")]);
    assert_eq!(split_lines(&cv("a\nb\n")), vec![cv("a"), cv("b")]);
    assert_eq!(split_lines(&cv("\n\na\n")), vec![cv(""), cv(""), cv("a")]);
}

#[test]
fn trim_strips_leading_and_trailing_blanks() {
    assert_eq!(s(&trim(&cv("  hello \n"))), "hello");
    assert_eq!(s(&trim(&cv("\t a b \r\n"))), "a b");
    assert_eq!(s(&trim(&cv(""))), "");
    assert_eq!(s(&trim(&cv("   "))), "");
}

#[test]
fn parse_u16_reads_plain_decimals() {
    assert_eq!(parse_u16(&cv("0")), Some(0));
    assert_eq!(parse_u16(&cv("42")), Some(42));
    assert_eq!(parse_u16(&cv("+7")), Some(7));
    assert_eq!(parse_u16(&cv("65535")), Some(65535));
}

#[test]
fn parse_u16_rejects_bad_or_overflowing_input() {
    assert_eq!(parse_u16(&cv("")), None);
    assert_eq!(parse_u16(&cv("+")), None);
    assert_eq!(parse_u16(&cv("65536")), None);
    assert_eq!(parse_u16(&cv("4x2")), None);
    assert_eq!(parse_u16(&cv("-3")), None);
}

#[test]
fn basename_takes_what_follows_the_last_separator() {
    assert_eq!(s(&basename(&cv("a/b/c.txt"))), "c.txt");
    assert_eq!(s(&basename(&cv("plain"))), "plain");
    assert_eq!(s(&basename(&cv("dir/"))), "");
}

#[test]
fn to_lower_maps_capitals_only() {
    assert_eq!(s(&to_lower(&cv("YeS 9!"))), "yes 9!");
}

#[test]
fn chars_eq_compares_contents() {
    assert!(chars_eq(&cv("abc"), &cv("abc")));
    assert!(!chars_eq(&cv("abc"), &cv("abd")));
    assert!(!chars_eq(&cv("abc"), &cv("ab")));
}

#[test]
fn find_in_line_gives_first_index() {
    assert_eq!(find_in_line(&cv("abcabc"), &cv("bc")), Some(1));
    assert_eq!(find_in_line(&cv("abc"), &cv("")), Some(0));
    assert_eq!(find_in_line(&cv("abc"), &cv("cd")), None);
    assert_eq!(find_in_line(&cv("ab"), &cv("abc")), None);
}

#[test]
fn viewport_snaps_a_whole_page_at_a_time() {
    // Ten terminal rows give nine usable ones; row nine starts
    // the second page.
    assert_eq!(viewport_offset(9, 10), 9);
    assert_eq!(viewport_offset(8, 10), 0);
    assert_eq!(viewport_offset(0, 10), 0);
    assert_eq!(viewport_offset(17, 10), 9);
    assert_eq!(viewport_offset(18, 10), 18);
}

#[test]
fn gutter_width_grows_with_the_digit_count() {
    assert_eq!(gutter_width(1), 2);
    assert_eq!(gutter_width(2), 2);
    assert_eq!(gutter_width(10), 2);
    assert_eq!(gutter_width(11), 3);
    assert_eq!(gutter_width(100), 3);
    assert_eq!(gutter_width(101), 4);
}
