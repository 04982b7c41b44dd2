use add_ed::buffer::buffer::Buffer;
use add_ed::buffer::line::Line;
use add_ed::buffer::vecbuffer::VecBuffer;
use add_ed::cmd::path::command_substitutions;
use add_ed::error::EdError;

fn strings(v: &[&str]) -> Vec<String> {
    v.iter().map(|s| s.to_string()).collect()
}

fn texts(b: &Buffer) -> Vec<String> {
    let n = b.len();
    if n == 0 {
        return Vec::new();
    }
    b.get_lines((1, n)).unwrap().collect_all().iter().map(|s| s.to_string()).collect()
}

fn buffer_of(v: &[&str]) -> Buffer {
    let mut b = Buffer::new();
    b.insert(strings(v), 0).unwrap();
    b
}

#[test]
fn cut_then_paste_restores_buffer() {
    let mut b = buffer_of(&["a\n", "b\n", "c\n", "d\n"]);
    let cut: Vec<Line> = b.cut((2, 3)).unwrap();
    assert_eq!(texts(&b), strings(&["a\n", "d\n"]));
    assert_eq!(b.paste(1, &cut), Ok(2));
    assert_eq!(texts(&b), strings(&["a\n", "b\n", "c\n", "d\n"]));
}

#[test]
fn insert_then_cut_restores_buffer() {
    let mut b = buffer_of(&["a\n", "b\n"]);
    b.insert(strings(&["x\n", "y\n"]), 1).unwrap();
    assert_eq!(texts(&b), strings(&["a\n", "x\n", "y\n", "b\n"]));
    let cut = b.cut((2, 3)).unwrap();
    assert_eq!(texts(&b), strings(&["a\n", "b\n"]));
    let cut_texts: Vec<String> = cut.iter().map(|l| l.text.as_str().to_string()).collect();
    assert_eq!(cut_texts, strings(&["x\n", "y\n"]));
}

#[test]
fn insert_refuses_bad_index_and_text() {
    let mut b = buffer_of(&["a\n"]);
    assert_eq!(b.insert(strings(&["x\n"]), 2), Err(EdError::IndexTooBig { index: 2, buffer_len: 1 }));
    assert!(b.insert(strings(&["x"]), 0).is_err());
    assert!(b.insert(strings(&["x\ny\n"]), 0).is_err());
    assert_eq!(texts(&b), strings(&["a\n"]));
}

#[test]
fn move_then_move_back_restores_buffer() {
    let mut b = buffer_of(&["a\n", "b\n", "c\n", "d\n", "e\n"]);
    // Down: lines 1..=2 after line 4 end at lines 3..=4.
    b.mov((1, 2), 4).unwrap();
    assert_eq!(texts(&b), strings(&["c\n", "d\n", "a\n", "b\n", "e\n"]));
    b.mov((3, 4), 0).unwrap();
    assert_eq!(texts(&b), strings(&["a\n", "b\n", "c\n", "d\n", "e\n"]));
    // Up: lines 4..=5 after line 1 end at lines 2..=3.
    b.mov((4, 5), 1).unwrap();
    assert_eq!(texts(&b), strings(&["a\n", "d\n", "e\n", "b\n", "c\n"]));
    b.mov((2, 3), 5).unwrap();
    assert_eq!(texts(&b), strings(&["a\n", "b\n", "c\n", "d\n", "e\n"]));
}

#[test]
fn copied_lines_keep_tags_and_texts() {
    let mut b = buffer_of(&["a\n", "b\n"]);
    b.tag_line(2, 'q').unwrap();
    let copied = b.copy((1, 2)).unwrap();
    assert_eq!(copied.len(), 2);
    assert_eq!(copied[1].tag(), 'q');
    assert_eq!(copied[1].text.as_str(), "b\n");
    assert_eq!(copied[0].tag(), '\0');
}

#[test]
fn vecbuffer_snapshot_edit_undo_restores() {
    let mut v = VecBuffer::new();
    v.insert(vec!["a\n", "b\n"], 0).unwrap();
    v.snapshot().unwrap();
    v.cut((1, 1)).unwrap();
    assert_eq!(v.len(), 1);
    v.undo(1).unwrap();
    assert_eq!(v.len(), 2);
    let mut it = v.get_selection((1, 2)).unwrap();
    let mut lines: Vec<(char, String)> = Vec::new();
    while let Some((t, s)) = it.next() {
        lines.push((t, s.to_string()));
    }
    assert_eq!(lines, vec![('\0', "a\n".to_string()), ('\0', "b\n".to_string())]);
}

#[test]
fn plain_command_is_left_as_it_is() {
    assert_eq!(command_substitutions("ls -l /tmp", "", ""), Ok("ls -l /tmp".to_string()));
    assert_eq!(command_substitutions("", "f", "p"), Ok(String::new()));
    assert_eq!(command_substitutions("cat %", "", "p"), Err(EdError::DefaultFileUnset));
    assert_eq!(command_substitutions("!", "f", ""), Err(EdError::DefaultShellCommandUnset));
}

#[test]
fn search_replace_cannot_touch_final_newline() {
    let mut b = buffer_of(&["1\n", "2\n", "3\n", "4\n"]);
    assert_eq!(b.search_replace((r".*\n", ""), (3, 3), true).err(), Some(EdError::RegexNoMatch(r".*\n".to_string())));
    assert_eq!(texts(&b), strings(&["1\n", "2\n", "3\n", "4\n"]));
    let (end, cut) = b.search_replace((r"3\n", ""), (2, 4), true).unwrap();
    assert_eq!(end, 3);
    assert_eq!(cut.len(), 3);
    assert_eq!(texts(&b), strings(&["1\n", "2\n", "4\n"]));
}

#[test]
fn change_is_cut_then_insert() {
    let mut x = buffer_of(&["a\n", "b\n", "c\n", "d\n"]);
    let mut y = buffer_of(&["a\n", "b\n", "c\n", "d\n"]);
    let changed = x.change(strings(&["x\n", "y\n", "z\n"]), (2, 3)).unwrap();
    let cut = y.cut((2, 3)).unwrap();
    y.insert(strings(&["x\n", "y\n", "z\n"]), 1).unwrap();
    assert_eq!(texts(&x), texts(&y));
    assert_eq!(texts(&x), strings(&["a\n", "x\n", "y\n", "z\n", "d\n"]));
    let a: Vec<String> = changed.iter().map(|l| l.text.as_str().to_string()).collect();
    let b: Vec<String> = cut.iter().map(|l| l.text.as_str().to_string()).collect();
    assert_eq!(a, b);
    assert!(x.change(strings(&["q\n"]), (4, 9)).is_err());
    assert!(y.cut((4, 9)).is_err());
}
