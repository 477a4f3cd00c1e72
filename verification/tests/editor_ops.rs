use red::buffer::Buffer;
use red::editor::{
    dispatch, wants_save, Action, Answer, CloseStep, Editor, FileStatus, Key, KeyPress,
    PromptRequest,
};
use red::position::Position;

fn cv(s: &str) -> Vec<char> {
    s.chars().collect()
}

fn buf(lines: &[&str]) -> Buffer {
    Buffer { name: cv("t"), lines: lines.iter().map(|l| cv(l)).collect(), read_only: false }
}

fn ed(lines: &[&str], r: usize, c: usize) -> Editor {
    let mut e = Editor::default();
    e.buffer = buf(lines);
    e.cursor_pos = Position { r, c };
    e
}

fn lines_of(e: &Editor) -> Vec<String> {
    e.buffer.lines.iter().map(|l| l.iter().collect()).collect()
}

fn key(k: Key) -> KeyPress {
    KeyPress { key: k, control: false }
}

fn ctrl(c: char) -> KeyPress {
    KeyPress { key: Key::Char(c), control: true }
}

#[test]
fn keymap_binds_the_control_keys() {
    assert_eq!(dispatch(ctrl('q')), Action::RequestClose);
    assert_eq!(dispatch(ctrl('w')), Action::Save);
    assert_eq!(dispatch(ctrl('o')), Action::OpenPrompt);
    assert_eq!(dispatch(ctrl('n')), Action::NewBuffer);
    assert_eq!(dispatch(ctrl('j')), Action::JumpPrompt);
    assert_eq!(dispatch(ctrl('f')), Action::FindPrompt);
}

#[test]
fn keymap_maps_function_and_edit_keys() {
    assert_eq!(dispatch(key(Key::Function(2))), Action::OpenLicense);
    assert_eq!(dispatch(key(Key::Function(4))), Action::ToggleGutter);
    assert_eq!(dispatch(key(Key::Function(3))), Action::Idle);
    assert_eq!(dispatch(key(Key::Delete)), Action::DeleteForward);
    assert_eq!(dispatch(key(Key::Backspace)), Action::DeleteBackward);
    assert_eq!(dispatch(key(Key::Enter)), Action::InsertNewline);
    assert_eq!(dispatch(key(Key::Tab)), Action::InsertTab);
    assert_eq!(dispatch(key(Key::Up)), Action::Move(Key::Up));
    assert_eq!(dispatch(key(Key::Char('x'))), Action::Insert('x'));
    // An unbound control combination falls through to insertion.
    assert_eq!(dispatch(ctrl('z')), Action::Insert('z'));
}

#[test]
fn typing_builds_hi_there() {
    // Typing "h", "i", a newline, then "t","h","e","r","e".
    let mut e = Editor::default();
    for k in ['h', 'i'] {
        e.process_keypress(key(Key::Char(k)));
    }
    e.process_keypress(key(Key::Enter));
    for k in ['t', 'h', 'e', 'r', 'e'] {
        e.process_keypress(key(Key::Char(k)));
    }
    assert_eq!(lines_of(&e), vec!["hi".to_string(), "there".to_string()]);
    assert!(!e.write_status);
}

#[test]
fn movement_clamps_row_and_column() {
    let mut e = ed(&["ab", "c"], 0, 2);
    e.process_keypress(key(Key::Down));
    assert_eq!((e.cursor_pos.r, e.cursor_pos.c), (1, 1));
    e.process_keypress(key(Key::Down));
    assert_eq!((e.cursor_pos.r, e.cursor_pos.c), (1, 1));
    e.process_keypress(key(Key::Up));
    assert_eq!((e.cursor_pos.r, e.cursor_pos.c), (0, 2));
    e.process_keypress(key(Key::Up));
    assert_eq!((e.cursor_pos.r, e.cursor_pos.c), (0, 2));
}

#[test]
fn left_and_right_stay_within_the_line() {
    let mut e = ed(&["ab"], 0, 0);
    e.move_cursor(Key::Left);
    assert_eq!(e.cursor_pos.c, 0);
    e.move_cursor(Key::Right);
    assert_eq!(e.cursor_pos.c, 1);
    e.move_cursor(Key::Right);
    assert_eq!(e.cursor_pos.c, 2);
    e.move_cursor(Key::Right);
    assert_eq!(e.cursor_pos.c, 2);
    e.move_cursor(Key::Home);
    assert_eq!(e.cursor_pos.c, 0);
    e.move_cursor(Key::End);
    assert_eq!(e.cursor_pos.c, 2);
}

#[test]
fn movement_on_an_empty_buffer_is_a_no_op() {
    let mut e = Editor::default();
    for k in [Key::Up, Key::Down, Key::Left, Key::Right, Key::Home, Key::End] {
        e.move_cursor(k);
        assert_eq!((e.cursor_pos.r, e.cursor_pos.c), (0, 0));
    }
}

#[test]
fn up_and_down_snap_column_to_destination_line_end() {
    let mut e = ed(&["long line", "ab"], 0, 9);
    e.move_cursor(Key::Down);
    assert_eq!((e.cursor_pos.r, e.cursor_pos.c), (1, 2));
    e.move_cursor(Key::Up);
    assert_eq!((e.cursor_pos.r, e.cursor_pos.c), (0, 9));
}

#[test]
fn enter_splits_and_moves_down() {
    let mut e = ed(&["ab"], 0, 1);
    e.process_keypress(key(Key::Enter));
    assert_eq!(lines_of(&e), vec!["a".to_string(), "b".to_string()]);
    assert_eq!((e.cursor_pos.r, e.cursor_pos.c), (1, 1));
    assert!(!e.write_status);
}

#[test]
fn tab_expands_and_moves_to_line_end() {
    let mut e = ed(&["ab"], 0, 1);
    e.process_keypress(key(Key::Tab));
    assert_eq!(lines_of(&e), vec!["a    b".to_string()]);
    assert_eq!((e.cursor_pos.r, e.cursor_pos.c), (0, 6));
}

#[test]
fn backspace_mid_line_removes_at_cursor_and_moves_left() {
    let mut e = ed(&["abc"], 0, 1);
    e.process_keypress(key(Key::Backspace));
    assert_eq!(lines_of(&e), vec!["ac".to_string()]);
    assert_eq!((e.cursor_pos.r, e.cursor_pos.c), (0, 0));
}

#[test]
fn backspace_on_empty_line_moves_cursor_up() {
    let mut e = ed(&["ab", ""], 1, 0);
    e.process_keypress(key(Key::Backspace));
    assert_eq!(lines_of(&e), vec!["ab".to_string()]);
    assert_eq!((e.cursor_pos.r, e.cursor_pos.c), (0, 2));
}

#[test]
fn delete_forward_keeps_cursor_inside_the_document() {
    let mut e = ed(&["x", ""], 1, 0);
    e.process_keypress(key(Key::Delete));
    assert_eq!(lines_of(&e), vec!["x".to_string()]);
    assert_eq!((e.cursor_pos.r, e.cursor_pos.c), (0, 0));
}

#[test]
fn read_only_insert_leaves_text_but_advances_cursor() {
    let mut e = ed(&["ab"], 0, 0);
    e.buffer.read_only = true;
    e.process_keypress(key(Key::Char('x')));
    assert_eq!(lines_of(&e), vec!["ab".to_string()]);
    assert_eq!((e.cursor_pos.r, e.cursor_pos.c), (0, 1));
    // A read-only buffer never becomes dirty.
    assert!(e.write_status);
}

#[test]
fn edits_on_writable_buffer_mark_it_dirty() {
    let mut e = ed(&["ab"], 0, 0);
    assert!(e.write_status);
    e.process_keypress(key(Key::Delete));
    assert!(!e.write_status);
}

#[test]
fn close_request_and_prompt_requests() {
    let mut e = ed(&["ab"], 0, 0);
    assert_eq!(e.process_keypress(ctrl('q')), PromptRequest::Nothing);
    assert!(e.should_close);
    assert_eq!(e.process_keypress(ctrl('j')), PromptRequest::Jump);
    assert_eq!(e.process_keypress(ctrl('f')), PromptRequest::Find);
    assert_eq!(e.process_keypress(key(Key::Function(2))), PromptRequest::License);
    assert_eq!(e.process_keypress(ctrl('o')), PromptRequest::Open { confirm_save: false });
    e.process_keypress(key(Key::Char('x')));
    assert_eq!(e.process_keypress(ctrl('o')), PromptRequest::Open { confirm_save: true });
    assert_eq!(e.process_keypress(ctrl('n')), PromptRequest::New { confirm_save: true });
}

#[test]
fn save_request_asks_for_a_name_only_for_scratch() {
    let mut e = Editor::default();
    assert_eq!(e.process_keypress(ctrl('w')), PromptRequest::Save { needs_name: true });
    e.buffer = buf(&["x"]);
    assert_eq!(e.process_keypress(ctrl('w')), PromptRequest::Save { needs_name: false });
}

#[test]
fn gutter_toggles() {
    let mut e = Editor::default();
    assert!(!e.line_numbers);
    e.process_keypress(key(Key::Function(4)));
    assert!(e.line_numbers);
    e.process_keypress(key(Key::Function(4)));
    assert!(!e.line_numbers);
}

#[test]
fn close_answers_drive_the_three_way_flow() {
    let mut e = ed(&["ab"], 0, 0);
    e.should_close = true;
    assert_eq!(e.resolve_close(&cv("  YES \n")), CloseStep::SaveAndExit);
    assert!(e.should_close);
    assert_eq!(e.resolve_close(&cv("n")), CloseStep::Exit);
    assert_eq!(e.resolve_close(&cv("maybe")), CloseStep::AskAgain);
    assert!(e.should_close);
    assert_eq!(e.resolve_close(&cv("Cancel\n")), CloseStep::Stay);
    assert!(!e.should_close);
}

#[test]
fn empty_answer_is_unrecognized() {
    let mut e = Editor::default();
    assert_eq!(e.resolve_close(&cv("\n")), CloseStep::AskAgain);
    assert!(!wants_save(&cv("")));
}

#[test]
fn save_confirmation_accepts_only_yes() {
    assert!(wants_save(&cv("y")));
    assert!(wants_save(&cv(" Yes\n")));
    assert!(!wants_save(&cv("no")));
    assert!(!wants_save(&cv("cancel")));
}

#[test]
fn answers_parse_case_insensitively() {
    assert_eq!(red::editor::parse_answer(&cv("Y")), Answer::Yes);
    assert_eq!(red::editor::parse_answer(&cv("No")), Answer::No);
    assert_eq!(red::editor::parse_answer(&cv("c")), Answer::Cancel);
    assert_eq!(red::editor::parse_answer(&cv("yess")), Answer::Unrecognized);
}

#[test]
fn status_message_expires_after_its_countdown() {
    let mut e = Editor::default();
    e.update_status(cv("hello"));
    assert_eq!(e.draw_accumulator, 0);
    for _ in 0..20 {
        e.status_tick();
    }
    assert_eq!(e.status_message.iter().collect::<String>(), "hello");
    e.status_tick();
    assert!(e.status_message.is_empty());
    assert_eq!(e.draw_accumulator, 1);
}

#[test]
fn prompt_jump_moves_only_to_rows_in_range() {
    let mut e = ed(&["a", "b", "c"], 0, 1);
    e.prompt_jump(&cv(" 2 \n"));
    assert_eq!(e.cursor_pos.r, 2);
    e.prompt_jump(&cv("9"));
    assert_eq!(e.cursor_pos.r, 2);
    e.prompt_jump(&cv("not a number"));
    assert_eq!(e.cursor_pos.r, 2);
    e.prompt_jump(&cv("0"));
    assert_eq!(e.cursor_pos.r, 0);
}

#[test]
fn prompt_jump_pulls_column_into_the_destination_line() {
    let mut e = ed(&["long line", "ab"], 0, 8);
    e.prompt_jump(&cv("1"));
    assert_eq!((e.cursor_pos.r, e.cursor_pos.c), (1, 2));
}

#[test]
fn search_moves_to_first_occurrence() {
    let mut e = ed(&["abc", "bcd"], 0, 0);
    assert!(e.search(&cv("cd")));
    assert_eq!((e.cursor_pos.r, e.cursor_pos.c), (1, 1));
    let before = (e.cursor_pos.r, e.cursor_pos.c);
    assert!(!e.search(&cv("zzz")));
    assert_eq!((e.cursor_pos.r, e.cursor_pos.c), before);
}

#[test]
fn new_buffer_resets_to_clean_scratch() {
    let mut e = ed(&["ab"], 0, 2);
    e.write_status = false;
    e.new_buffer();
    assert_eq!(e.buffer.len(), 0);
    assert_eq!(e.buffer.name.iter().collect::<String>(), "scratch");
    assert_eq!((e.cursor_pos.r, e.cursor_pos.c), (0, 0));
    assert!(e.write_status);
}

#[test]
fn apply_open_installs_buffer_and_homes_cursor() {
    let mut e = ed(&["old"], 0, 3);
    let (b, existed) = Buffer::open_result(&cv("notes"), Some((cv("x\ny\n"), false)));
    assert!(existed);
    e.apply_open(b);
    assert_eq!(lines_of(&e), vec!["x".to_string(), "y".to_string()]);
    assert_eq!((e.cursor_pos.r, e.cursor_pos.c), (0, 0));
}

#[test]
fn finish_save_renames_cleans_and_counts() {
    let mut e = ed(&["a", "b"], 0, 0);
    e.write_status = false;
    let count = e.finish_save(&cv("dir/out.txt"));
    assert_eq!(count, 2);
    assert!(e.write_status);
    assert_eq!(e.buffer.name.iter().collect::<String>(), "out.txt");
}

#[test]
fn file_status_reports_the_modeline_flag() {
    let mut e = ed(&["a"], 0, 0);
    assert_eq!(e.file_status(), FileStatus::Clean);
    e.write_status = false;
    assert_eq!(e.file_status(), FileStatus::Modified);
    e.write_status = true;
    e.buffer.read_only = true;
    assert_eq!(e.file_status(), FileStatus::ReadOnly);
}

#[test]
fn window_resize_updates_dimensions() {
    let mut e = Editor::default();
    e.window_size.resize((80, 24));
    assert_eq!(e.window_size.cols, 80);
    assert_eq!(e.window_size.rows, 24);
}

#[test]
fn position_pair_constructor_swaps_the_order() {
    let p = Position::from((3usize, 4usize));
    assert_eq!((p.r, p.c), (4, 3));
}
