use add_ed::buffer::substitute::substitute;

#[test]
fn test_backslash_escape() {
    // Double slash should be reduced into single slash,
    // since otherwise there is no way to write a single slash
    let input = r"\\";
    let output = substitute(input);
    assert_eq!(r"\", &output);
    // Double slash should escape the slash and cause it to not escape into newline
    let input = r"\\n";
    let output = substitute(input);
    assert_eq!(r"\n", &output);
}

#[test]
fn substitute_interprets_newline_and_tab() {
    assert_eq!(substitute(r"a\nb"), "a\nb");
    assert_eq!(substitute(r"a\tb"), "a\tb");
    assert_eq!(substitute("plain"), "plain");
}
