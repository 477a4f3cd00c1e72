use red::buffer::{Buffer, Direction};
use red::position::Position;
use red::text::{join_lines, split_lines};

fn cv(s: &str) -> Vec<char> {
    s.chars().collect()
}

fn buf(lines: &[&str]) -> Buffer {
    Buffer { name: cv("t"), lines: lines.iter().map(|l| cv(l)).collect(), read_only: false }
}

fn lines_of(b: &Buffer) -> Vec<String> {
    b.lines.iter().map(|l| l.iter().collect()).collect()
}

fn pos(r: usize, c: usize) -> Position {
    Position { r, c }
}

#[test]
fn default_is_empty_scratch() {
    let b = Buffer::default();
    assert_eq!(b.len(), 0);
    assert_eq!(b.name.iter().collect::<String>(), "scratch");
    assert!(!b.read_only);
}

#[test]
fn insert_chars_then_newline_builds_two_lines() {
    // An empty buffer, after typing "hi", a newline, then "there".
    let mut b = Buffer::default();
    b.insert(pos(0, 0), 'h');
    b.insert(pos(0, 1), 'i');
    b.insert(pos(0, 2), '\n');
    b.insert(pos(1, 0), 't');
    b.insert(pos(1, 1), 'h');
    b.insert(pos(1, 2), 'e');
    b.insert(pos(1, 3), 'r');
    b.insert(pos(1, 4), 'e');
    assert_eq!(lines_of(&b), vec!["hi".to_string(), "there".to_string()]);
}

#[test]
fn forward_remove_at_end_of_last_line_changes_nothing() {
    // There is no next line to merge.
    let mut b = buf(&["hello"]);
    b.remove(pos(0, 5), Direction::Forward, 1);
    assert_eq!(lines_of(&b), vec!["hello".to_string()]);
}

#[test]
fn open_result_of_missing_file_is_empty_and_writable() {
    let (b, existed) = Buffer::open_result(&cv("missing.txt"), None);
    assert_eq!(b.len(), 0);
    assert!(!existed);
    assert!(!b.read_only);
    assert_eq!(b.name.iter().collect::<String>(), "missing.txt");
}

#[test]
fn open_result_splits_content_and_keeps_flags() {
    let (b, existed) = Buffer::open_result(&cv("dir/notes.txt"), Some((cv("a\nb\n"), true)));
    assert!(existed);
    assert!(b.read_only);
    assert_eq!(b.name.iter().collect::<String>(), "notes.txt");
    assert_eq!(lines_of(&b), vec!["a".to_string(), "b".to_string()]);
}

#[test]
fn render_content_terminates_every_line() {
    // A buffer of "a" and "b" writes "a\nb\n".
    let b = buf(&["a", "b"]);
    let content: String = b.render_content().iter().collect();
    assert_eq!(content, "a\nb\n");
}

#[test]
fn render_then_split_round_trips() {
    let b = buf(&["first", "", "third"]);
    let content = b.render_content();
    let again = split_lines(&content);
    let again_strings: Vec<String> = again.iter().map(|l| l.iter().collect()).collect();
    assert_eq!(again_strings, vec!["first".to_string(), "".to_string(), "third".to_string()]);
}

#[test]
fn join_then_split_round_trips() {
    let lines: Vec<Vec<char>> = vec![cv("x"), cv("yz")];
    let joined = join_lines(&lines);
    assert_eq!(joined.iter().collect::<String>(), "x\nyz\n");
    assert_eq!(split_lines(&joined), lines);
}

#[test]
fn newline_split_then_forward_remove_restores_line() {
    // The split/merge inverse on a concrete line "ab" split after "a".
    let mut b = buf(&["ab"]);
    b.insert(pos(0, 1), '\n');
    assert_eq!(lines_of(&b), vec!["a".to_string(), "b".to_string()]);
    b.remove(pos(0, 1), Direction::Forward, 1);
    assert_eq!(lines_of(&b), vec!["ab".to_string()]);
}

#[test]
fn newline_split_at_start_then_forward_remove_restores_line() {
    let mut b = buf(&["ab"]);
    b.insert(pos(0, 0), '\n');
    assert_eq!(lines_of(&b), vec!["".to_string(), "ab".to_string()]);
    b.remove(pos(0, 0), Direction::Forward, 1);
    assert_eq!(lines_of(&b), vec!["ab".to_string()]);
}

#[test]
fn tab_expands_to_four_spaces() {
    let mut b = buf(&["ab"]);
    b.insert(pos(0, 1), '\t');
    assert_eq!(lines_of(&b), vec!["a    b".to_string()]);
    assert_eq!(b.get(0).unwrap().len(), 6);
}

#[test]
fn tab_on_empty_buffer_seeds_a_line_of_spaces() {
    let mut b = Buffer::default();
    b.insert(pos(0, 0), '\t');
    assert_eq!(lines_of(&b), vec!["    ".to_string()]);
}

#[test]
fn read_only_buffer_refuses_insert_and_remove() {
    let mut b = buf(&["keep"]);
    b.read_only = true;
    b.insert(pos(0, 2), 'x');
    b.insert(pos(0, 0), '\n');
    b.insert(pos(0, 4), '\t');
    b.remove(pos(0, 0), Direction::Forward, 1);
    b.remove(pos(0, 4), Direction::Backward, 1);
    assert_eq!(lines_of(&b), vec!["keep".to_string()]);
    assert!(b.read_only);
}

#[test]
fn forward_remove_before_end_takes_character_at_column() {
    let mut b = buf(&["abc"]);
    b.remove(pos(0, 1), Direction::Forward, 1);
    assert_eq!(lines_of(&b), vec!["ac".to_string()]);
}

#[test]
fn forward_remove_at_end_merges_next_line() {
    let mut b = buf(&["ab", "cd"]);
    b.remove(pos(0, 2), Direction::Forward, 1);
    assert_eq!(lines_of(&b), vec!["abcd".to_string()]);
}

#[test]
fn forward_remove_of_empty_line_drops_it() {
    let mut b = buf(&["", "next"]);
    b.remove(pos(0, 0), Direction::Forward, 1);
    assert_eq!(lines_of(&b), vec!["next".to_string()]);
}

#[test]
fn backward_remove_at_end_pops_last_character() {
    let mut b = buf(&["abc"]);
    b.remove(pos(0, 3), Direction::Backward, 1);
    assert_eq!(lines_of(&b), vec!["ab".to_string()]);
}

#[test]
fn backward_remove_mid_line_takes_character_at_column() {
    let mut b = buf(&["abc"]);
    b.remove(pos(0, 1), Direction::Backward, 1);
    assert_eq!(lines_of(&b), vec!["ac".to_string()]);
}

#[test]
fn backward_remove_at_column_zero_is_a_defined_no_op() {
    let mut b = buf(&["abc"]);
    b.remove(pos(0, 0), Direction::Backward, 1);
    assert_eq!(lines_of(&b), vec!["abc".to_string()]);
}

#[test]
fn backward_remove_of_only_empty_line_empties_the_buffer() {
    let mut b = buf(&[""]);
    b.remove(pos(0, 0), Direction::Backward, 1);
    assert_eq!(b.len(), 0);
}

#[test]
fn remove_past_last_row_changes_nothing() {
    let mut b = buf(&["a"]);
    b.remove(pos(1, 0), Direction::Forward, 1);
    b.remove(pos(1, 0), Direction::Backward, 1);
    assert_eq!(lines_of(&b), vec!["a".to_string()]);
}

#[test]
fn find_returns_first_matching_row() {
    let b = buf(&["abc", "bcd", "cde"]);
    assert_eq!(b.find(&cv("cd")), Ok(1));
    assert_eq!(b.find(&cv("a")), Ok(0));
    assert_eq!(b.find(&cv("")), Ok(0));
}

#[test]
fn find_misses_with_the_error_value() {
    let b = buf(&["abc"]);
    assert_eq!(b.find(&cv("zz")), Err(()));
}

#[test]
fn get_and_len_report_rows() {
    let b = buf(&["one", "two"]);
    assert_eq!(b.len(), 2);
    assert_eq!(b.get(1).map(|l| l.iter().collect::<String>()), Some("two".to_string()));
    assert!(b.get(2).is_none());
}

#[test]
fn finish_write_takes_base_name_and_counts_lines() {
    let mut b = buf(&["a", "b", "c"]);
    let count = b.finish_write(&cv("some/dir/x.txt"));
    assert_eq!(count, 3);
    assert_eq!(b.name.iter().collect::<String>(), "x.txt");
    assert_eq!(lines_of(&b), vec!["a".to_string(), "b".to_string(), "c".to_string()]);
}

#[test]
fn is_scratch_only_for_the_scratch_name() {
    let b = Buffer::default();
    assert!(b.is_scratch());
    let named = buf(&["x"]);
    assert!(!named.is_scratch());
}
