use bread_editor::editor::EditorState;
use bread_editor::terminal::WindowSize;

fn text(v: &Vec<char>) -> String {
    v.iter().collect()
}

fn state(rows: u16, columns: u16) -> EditorState {
    EditorState::new(WindowSize { rows, columns })
}

fn opened(rows: u16, columns: u16, path: &str, content: &str) -> EditorState {
    let mut s = state(rows, columns);
    s.editor_open(path, content);
    s
}

fn row_texts(s: &EditorState) -> Vec<String> {
    s.row.iter().map(|r| r.chars.iter().collect()).collect()
}

#[test]
fn new_state_is_pristine() {
    let s = state(24, 80);
    assert_eq!(s.numrows, 0);
    assert_eq!((s.cx, s.cy, s.rx), (0, 0, 0));
    assert_eq!((s.rowoff, s.coloff), (0, 0));
    assert!(!s.dirty);
    assert_eq!(s.quit_times, 1);
    assert!(s.path.is_none());
    assert!(s.filename.is_none());
}

#[test]
fn welcome_screen_on_empty_buffer() {
    let mut s = state(24, 80);
    let grid = s.refresh_screen();
    assert_eq!(grid.len(), 24);
    for (i, line) in grid.iter().enumerate() {
        let t: String = line.iter().collect();
        if i == 8 {
            let expected = format!("{}BREAD EDITOR - VERSION : 0.0.1", " ".repeat(25));
            assert_eq!(t, expected);
        } else {
            assert_eq!(t, "~");
        }
    }
}

#[test]
fn draw_shows_rows_and_tilde_past_end() {
    let mut s = opened(4, 10, "f", "one\ntwo\n");
    let grid = s.refresh_screen();
    let t: Vec<String> = grid.iter().map(|l| l.iter().collect()).collect();
    assert_eq!(t, vec!["one", "two", "~", "~"]);
}

#[test]
fn draw_clips_to_horizontal_window() {
    let mut s = opened(2, 5, "f", "abcdefghij\nxy\n");
    s.coloff = 2;
    let grid = s.editor_draw_rows();
    let t: Vec<String> = grid.iter().map(|l| l.iter().collect()).collect();
    assert_eq!(t[0], "cdefg");
    assert_eq!(t[1], "");
}

#[test]
fn open_builds_rows_and_names() {
    let s = opened(24, 80, "dir/sub/f.txt", "ab\ncd\n");
    assert_eq!(s.numrows, 2);
    assert_eq!(row_texts(&s), vec!["ab", "cd"]);
    assert_eq!(text(s.path.as_ref().unwrap()), "dir/sub/f.txt");
    assert_eq!(text(s.filename.as_ref().unwrap()), "f.txt");
    assert!(!s.dirty);
}

#[test]
fn open_renders_tabs_in_loaded_rows() {
    let s = opened(24, 80, "f", "a\tb\n");
    assert_eq!(text(&s.row[0].render), "a   b");
    assert_eq!(s.row[0].rsize, 5);
}

#[test]
fn erow_to_string_joins_with_trailing_newline() {
    let s = opened(24, 80, "f", "ab\ncd");
    assert_eq!(s.erow_to_string(), "ab\ncd\n");
}

#[test]
fn save_then_open_round_trip() {
    let mut s = opened(24, 80, "f", "alpha\nbeta\n");
    s.editor_insert_char('x');
    let saved = s.erow_to_string();
    let reopened = opened(24, 80, "f", &saved);
    assert_eq!(row_texts(&reopened), row_texts(&s));
}

#[test]
fn insert_char_into_empty_buffer_creates_row() {
    let mut s = state(24, 80);
    s.editor_insert_char('x');
    assert_eq!(s.numrows, 1);
    assert_eq!(row_texts(&s), vec!["x"]);
    assert_eq!(s.cx, 1);
    assert!(s.dirty);
}

#[test]
fn insert_char_at_cursor_column() {
    let mut s = opened(24, 80, "f", "ac\n");
    s.cx = 1;
    s.editor_insert_char('b');
    assert_eq!(row_texts(&s), vec!["abc"]);
    assert_eq!(s.cx, 2);
    assert!(s.dirty);
}

#[test]
fn scroll_keeps_cursor_inside_window() {
    let mut content = String::new();
    for i in 0..50 {
        content.push_str(&format!("line {i}\n"));
    }
    let mut s = opened(10, 8, "f", &content);
    s.cy = 30;
    s.cx = 3;
    s.editor_scroll();
    assert!(s.rowoff <= s.cy && s.cy < s.rowoff + 10);
    assert!(s.coloff <= s.rx && s.rx < s.coloff + 8);
    assert_eq!(s.rowoff, 21);
}

#[test]
fn scroll_up_reveals_cursor_row() {
    let mut s = opened(5, 20, "f", "a\nb\nc\nd\ne\nf\ng\n");
    s.rowoff = 4;
    s.cy = 1;
    s.editor_scroll();
    assert_eq!(s.rowoff, 1);
}

#[test]
fn scroll_computes_rendered_column() {
    let mut s = opened(5, 40, "f", "a\tb\n");
    s.cy = 0;
    s.cx = 2;
    s.editor_scroll();
    assert_eq!(s.rx, 4);
}

#[test]
fn status_shows_padded_message() {
    let mut s = state(5, 10);
    s.message = Some("hi".chars().collect());
    assert_eq!(s.editor_satus_message(), "hi        ");
}

#[test]
fn status_shows_mode_and_filename() {
    let s = opened(5, 20, "dir/f.txt", "x\n");
    assert_eq!(s.editor_satus_message(), "NORMAL | f.txt~     ");
}

#[test]
fn status_without_filename_pads_mode() {
    let s = state(5, 10);
    assert_eq!(s.editor_satus_message(), "NORMAL~   ");
}

#[test]
fn status_wider_than_window_gets_no_padding() {
    let mut s = state(5, 4);
    s.message = Some("too long".chars().collect());
    assert_eq!(s.editor_satus_message(), "too long");
}

#[test]
fn mark_saved_clears_dirty_and_posts_message() {
    let mut s = opened(5, 40, "dir/f.txt", "x\n");
    s.dirty = true;
    s.mark_saved();
    assert!(!s.dirty);
    assert_eq!(text(s.message.as_ref().unwrap()), "f.txt has been saved!");
}

#[test]
fn mark_saved_without_filename_keeps_message() {
    let mut s = state(5, 40);
    s.dirty = true;
    s.mark_saved();
    assert!(!s.dirty);
    assert!(s.message.is_none());
}
