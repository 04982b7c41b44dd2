use add_ed::buffer::vecbuffer::VecBuffer;

fn texts(v: &VecBuffer) -> Vec<String> {
    if v.len() == 0 {
        return Vec::new();
    }
    let mut it = v.get_selection((1, v.len())).unwrap();
    let mut out = Vec::new();
    while let Some((_, s)) = it.next() {
        out.push(s.to_string());
    }
    out
}

#[test]
fn read_from_replaces_or_inserts() {
    let mut v = VecBuffer::new();
    v.insert(vec!["old\n"], 0).unwrap();
    v.snapshot().unwrap();
    assert!(!v.saved());
    assert_eq!(v.read_from(vec!["a\n", "b\n"], None), Ok(2));
    assert_eq!(texts(&v), vec!["a\n".to_string(), "b\n".to_string()]);
    assert!(v.saved());
    assert!(v.undo(1).is_err());
    assert_eq!(v.read_from(vec!["x\n"], Some(1)), Ok(1));
    assert_eq!(texts(&v), vec!["a\n".to_string(), "x\n".to_string(), "b\n".to_string()]);
    assert!(!v.saved());
    assert_eq!(v.read_from(vec!["y\n"], Some(9)), Err(add_ed::error_consts::INDEX_TOO_BIG));
    assert_eq!(v.read_from(vec!["no newline"], Some(0)), Err(add_ed::error_consts::INVALID_LINE_TEXT));
    assert_eq!(v.len(), 3);
}

#[test]
fn write_to_saves_only_whole_buffer() {
    let mut v = VecBuffer::new();
    v.insert(vec!["a\n", "b\n"], 0).unwrap();
    assert_eq!(v.write_to(Some((1, 1))), Ok(()));
    assert!(!v.saved());
    assert_eq!(v.write_to(Some((2, 5))), Err(add_ed::error_consts::INDEX_TOO_BIG));
    assert_eq!(v.write_to(Some((1, 2))), Ok(()));
    assert!(v.saved());
    v.cut((1, 1)).unwrap();
    assert!(!v.saved());
    assert_eq!(v.write_to(None), Ok(()));
    assert!(v.saved());
}
