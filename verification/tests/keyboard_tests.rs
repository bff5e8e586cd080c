use bread_editor::editor::{EditorMode, EditorState};
use bread_editor::keyboard::{EditorAction, EditorKey};
use bread_editor::terminal::WindowSize;

fn opened(path: &str, content: &str) -> EditorState {
    let mut s = EditorState::new(WindowSize { rows: 24, columns: 80 });
    s.editor_open(path, content);
    s
}

fn row_texts(s: &EditorState) -> Vec<String> {
    s.row.iter().map(|r| r.chars.iter().collect()).collect()
}

fn motion(s: &mut EditorState, c: char) {
    let a = s.process_key(EditorKey::Char(c));
    assert_eq!(a, EditorAction::Continue);
}

#[test]
fn quit_on_dirty_buffer_needs_confirmation() {
    let mut s = opened("f", "x\n");
    s.dirty = true;
    assert_eq!(s.quit_times, 1);
    assert_eq!(s.process_key(EditorKey::CtrlQ), EditorAction::Continue);
    assert_eq!(s.quit_times, 0);
    assert_eq!(s.process_key(EditorKey::CtrlQ), EditorAction::Quit);
}

#[test]
fn quit_on_clean_buffer_is_immediate() {
    let mut s = opened("f", "x\n");
    assert_eq!(s.process_key(EditorKey::CtrlQ), EditorAction::Quit);
    assert_eq!(s.quit_times, 1);
}

#[test]
fn ctrl_s_requests_save_and_changes_nothing() {
    let mut s = opened("f", "x\n");
    s.dirty = true;
    assert_eq!(s.process_key(EditorKey::CtrlS), EditorAction::Save);
    assert!(s.dirty);
    assert_eq!(row_texts(&s), vec!["x"]);
}

#[test]
fn esc_returns_to_normal_mode() {
    let mut s = opened("f", "x\n");
    motion(&mut s, 'i');
    assert_eq!(s.mode, EditorMode::INSERT);
    assert_eq!(s.process_key(EditorKey::Esc), EditorAction::Continue);
    assert_eq!(s.mode, EditorMode::NORMAL);
}

#[test]
fn key_i_on_empty_buffer_creates_row() {
    let mut s = EditorState::new(WindowSize { rows: 24, columns: 80 });
    motion(&mut s, 'i');
    assert_eq!(s.mode, EditorMode::INSERT);
    assert_eq!(s.numrows, 1);
    assert_eq!(row_texts(&s), vec![""]);
    assert!(!s.dirty);
}

#[test]
fn typing_inserts_and_advances_cursor() {
    let mut s = EditorState::new(WindowSize { rows: 24, columns: 80 });
    motion(&mut s, 'i');
    motion(&mut s, 'h');
    motion(&mut s, 'i');
    assert_eq!(row_texts(&s), vec!["hi"]);
    assert_eq!(s.cx, 2);
    assert!(s.dirty);
}

#[test]
fn backspace_in_insert_deletes_before_cursor() {
    let mut s = opened("f", "abc\n");
    s.mode = EditorMode::INSERT;
    s.cx = 2;
    assert_eq!(s.process_key(EditorKey::Backspace), EditorAction::Continue);
    assert_eq!(row_texts(&s), vec!["ac"]);
    assert_eq!(s.cx, 1);
    assert!(s.dirty);
}

#[test]
fn backspace_at_column_zero_merges_rows() {
    let mut s = opened("f", "ab\ncd\n");
    s.mode = EditorMode::INSERT;
    s.cy = 1;
    s.cx = 0;
    assert_eq!(s.process_key(EditorKey::Backspace), EditorAction::Continue);
    assert_eq!(row_texts(&s), vec!["abcd"]);
    assert_eq!(s.cy, 0);
    assert_eq!(s.cx, 2);
    assert!(s.dirty);
}

#[test]
fn backspace_in_normal_mode_only_moves_left() {
    let mut s = opened("f", "abc\n");
    s.cx = 2;
    assert_eq!(s.process_key(EditorKey::Backspace), EditorAction::Continue);
    assert_eq!(s.cx, 1);
    assert_eq!(row_texts(&s), vec!["abc"]);
    assert!(!s.dirty);
    s.cx = 0;
    s.process_key(EditorKey::Backspace);
    assert_eq!(s.cx, 0);
}

#[test]
fn enter_in_insert_splits_row_at_cursor() {
    let mut s = opened("f", "abcd\n");
    s.mode = EditorMode::INSERT;
    s.cx = 2;
    assert_eq!(s.process_key(EditorKey::Enter), EditorAction::Continue);
    assert_eq!(row_texts(&s), vec!["ab", "cd"]);
    assert_eq!(s.cy, 1);
    assert_eq!(s.cx, 0);
    assert!(s.dirty);
}

#[test]
fn split_then_merge_restores_row() {
    let mut s = opened("f", "abcd\n");
    s.mode = EditorMode::INSERT;
    s.cx = 2;
    s.process_key(EditorKey::Enter);
    s.process_key(EditorKey::Backspace);
    assert_eq!(row_texts(&s), vec!["abcd"]);
    assert_eq!(s.cy, 0);
    assert_eq!(s.cx, 2);
}

#[test]
fn enter_in_normal_moves_down_bounded() {
    let mut s = opened("f", "aa\nbb\n");
    assert_eq!(s.process_key(EditorKey::Enter), EditorAction::Continue);
    assert_eq!(s.cy, 1);
    s.process_key(EditorKey::Enter);
    assert_eq!(s.cy, 2);
    s.process_key(EditorKey::Enter);
    assert_eq!(s.cy, 2);
    assert_eq!(row_texts(&s), vec!["aa", "bb"]);
}

#[test]
fn motions_h_and_l_stay_in_row() {
    let mut s = opened("f", "abc\n");
    motion(&mut s, 'l');
    motion(&mut s, 'l');
    assert_eq!(s.cx, 2);
    motion(&mut s, 'h');
    assert_eq!(s.cx, 1);
    motion(&mut s, 'h');
    motion(&mut s, 'h');
    assert_eq!(s.cx, 0);
    for _ in 0..10 {
        motion(&mut s, 'l');
    }
    assert_eq!(s.cx, 3);
}

#[test]
fn motions_j_and_k_clamp_column() {
    let mut s = opened("f", "abcdef\nxy\nlong line\n");
    s.cx = 5;
    motion(&mut s, 'j');
    assert_eq!((s.cy, s.cx), (1, 2));
    motion(&mut s, 'j');
    assert_eq!((s.cy, s.cx), (2, 2));
    motion(&mut s, 'j');
    assert_eq!((s.cy, s.cx), (2, 2));
    motion(&mut s, 'k');
    motion(&mut s, 'k');
    assert_eq!((s.cy, s.cx), (0, 2));
    motion(&mut s, 'k');
    assert_eq!((s.cy, s.cx), (0, 2));
}

#[test]
fn motion_dollar_goes_to_last_character() {
    let mut s = opened("f", "abc\n\n");
    motion(&mut s, '$');
    assert_eq!(s.cx, 2);
    s.cy = 1;
    s.cx = 0;
    motion(&mut s, '$');
    assert_eq!(s.cx, 0);
}

#[test]
fn motion_underscore_goes_to_line_start() {
    let mut s = opened("f", "abc\n");
    s.cx = 2;
    motion(&mut s, '_');
    assert_eq!(s.cx, 0);
}

#[test]
fn word_motion_w_lands_on_next_word() {
    let mut s = opened("f", "foo bar  baz\n");
    motion(&mut s, 'w');
    assert_eq!(s.cx, 4);
    motion(&mut s, 'w');
    assert_eq!(s.cx, 9);
    motion(&mut s, 'w');
    assert_eq!(s.cx, 9);
}

#[test]
fn word_motion_b_lands_on_word_start() {
    let mut s = opened("f", "foo bar\n");
    s.cx = 6;
    motion(&mut s, 'b');
    assert_eq!(s.cx, 4);
    motion(&mut s, 'b');
    assert_eq!(s.cx, 0);
    motion(&mut s, 'b');
    assert_eq!(s.cx, 0);
}

#[test]
fn printable_key_clears_transient_message() {
    let mut s = opened("f", "x\n");
    s.message = Some("saved".chars().collect());
    motion(&mut s, 'h');
    assert!(s.message.is_none());
}

#[test]
fn unhandled_key_changes_nothing() {
    let mut s = opened("f", "x\n");
    let a = s.process_key(EditorKey::Other);
    assert_eq!(a, EditorAction::Continue);
    assert_eq!(row_texts(&s), vec!["x"]);
    assert_eq!((s.cx, s.cy), (0, 0));
}
