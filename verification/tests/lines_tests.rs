use bread_editor::lines::{basename, split_lines};

fn chars(s: &str) -> Vec<char> {
    s.chars().collect()
}

fn texts(v: &Vec<Vec<char>>) -> Vec<String> {
    v.iter().map(|l| l.iter().collect()).collect()
}

#[test]
fn split_empty_content_has_no_lines() {
    assert_eq!(texts(&split_lines(&chars(""))), Vec::<String>::new());
}

#[test]
fn split_trailing_newline_adds_no_line() {
    assert_eq!(texts(&split_lines(&chars("a\nb\n"))), vec!["a", "b"]);
}

#[test]
fn split_final_line_without_newline_counts() {
    assert_eq!(texts(&split_lines(&chars("a\nb"))), vec!["a", "b"]);
}

#[test]
fn split_lone_newline_is_one_empty_line() {
    assert_eq!(texts(&split_lines(&chars("\n"))), vec![""]);
}

#[test]
fn split_empty_middle_line_kept() {
    assert_eq!(texts(&split_lines(&chars("a\n\nb\n"))), vec!["a", "", "b"]);
}

#[test]
fn split_crlf_drops_carriage_return() {
    assert_eq!(texts(&split_lines(&chars("a\r\nb\r\n"))), vec!["a", "b"]);
}

#[test]
fn basename_takes_last_segment() {
    let b: String = basename(&chars("dir/sub/f.txt")).iter().collect();
    assert_eq!(b, "f.txt");
}

#[test]
fn basename_of_bare_name_is_itself() {
    let b: String = basename(&chars("notes")).iter().collect();
    assert_eq!(b, "notes");
}

#[test]
fn basename_of_trailing_slash_is_empty() {
    let b: String = basename(&chars("dir/"))
        .iter()
        .collect();
    assert_eq!(b, "");
}
