use add_ed::error::EdError;
use add_ed::io::IOError;
use add_ed::ui::UIError;

#[test]
fn messages_of_state_errors() {
    assert_eq!(
        EdError::IndexTooBig { index: 5, buffer_len: 2 }.message(),
        "Given index (5) overshoots the length of the buffer (2)."
    );
    assert_eq!(
        EdError::IndexTooBig { index: 1, buffer_len: 0 }.message(),
        "Buffer is empty, so no valid selections or lines can exist."
    );
    assert_eq!(EdError::SelectionEmpty((3, 2)).message(), "Selection given (3,2) is empty or inverted.");
    assert_eq!(EdError::UnsavedChanges.message(), "Unsaved changes! Capitalise command to ignore.");
    assert_eq!(
        EdError::UndoIndexTooBig { index: 7, history_len: 3, relative_redo_limit: 1 }.message(),
        "Tried to redo beyond existing snapshots.\nHigest valid nr of redo steps is 1.\n(Given index: 7, Highest valid index: 2)"
    );
    assert_eq!(
        EdError::UndoIndexNegative { relative_undo_limit: 4 }.message(),
        "Tried to undo to before undo history.\nHighest valid nr of undo steps is 4."
    );
    assert_eq!(EdError::TagNoMatch('x').message(), "Could not find any line matching the tag `x`.");
    assert_eq!(EdError::RegexNoMatch("ab".to_string()).message(), "No matches found for regex `ab`.");
}

#[test]
fn messages_of_parsing_errors() {
    assert_eq!(
        EdError::IndexSpecialAfterStart { prior_index: "3".to_string(), special_index: '.' }.message(),
        "Special index character `.` found after index `3`."
    );
    assert_eq!(
        EdError::IndicesUnrelated { prior_index: ".".to_string(), unrelated_index: "3".to_string() }.message(),
        "Received non-chainable index `3` immediately after index `.`."
    );
    assert_eq!(EdError::CommandUndefined('Y').message(), "Unknown command `Y`.");
    assert_eq!(
        EdError::ArgumentsWrongNr { expected: "2 or more", received: 1 }.message(),
        "Wrong nr of arguments given. Expected 2 or more, received 1."
    );
    assert_eq!(
        EdError::ReflowNotInt { error: "e".to_string(), text: "t".to_string() }.message(),
        "Failed to parse nr of columns to reflow within `t` as a number: e"
    );
    assert_eq!(EdError::FlagDuplicate('p').message(), "Flag `p` was given more than once.");
    assert_eq!(EdError::FlagUndefined('q').message(), "Given flag `q` isn't valid for that command.");
    assert_eq!(EdError::MacroUndefined("m".to_string()).message(), "Given macro `m` is not defined.");
}

#[test]
fn messages_of_outside_errors() {
    assert_eq!(EdError::UI(UIError { message: "gone".to_string() }).message(), "UI error: gone");
    assert_eq!(EdError::IO(IOError { message: "disk".to_string() }).message(), "IO error: disk");
    let error = regex::Regex::new("(").unwrap_err();
    let expected = format!("Regex `(` invalid! {}.", error);
    assert_eq!(EdError::regex_error(error, "(".to_string()).message(), expected);
}

#[test]
fn duplicate_is_equal() {
    let errors = vec![
        EdError::UnsavedChanges,
        EdError::IndexTooBig { index: 1, buffer_len: 0 },
        EdError::RegexNoMatch("x".to_string()),
        EdError::regex_error(regex::Regex::new("(").unwrap_err(), "(".to_string()),
        EdError::UI(UIError { message: "m".to_string() }),
    ];
    for e in errors {
        assert_eq!(e.duplicate(), e);
    }
}

#[test]
fn io_and_ui_errors_compare_by_kind() {
    let a = EdError::IO(IOError { message: "one".to_string() });
    let b = EdError::IO(IOError { message: "two".to_string() });
    let u = EdError::UI(UIError { message: "one".to_string() });
    let w = EdError::UI(UIError { message: "three".to_string() });
    assert_eq!(a, b);
    assert_eq!(u, w);
    assert_ne!(a, u);
    assert_ne!(EdError::IndexTooBig { index: 1, buffer_len: 0 }, EdError::IndexTooBig { index: 2, buffer_len: 0 });
}

#[test]
fn error_report_follows_print_errors() {
    let mut ed = add_ed::ed::Ed::new();
    let e = EdError::CommandUndefined('Y');
    assert_eq!(add_ed::messages::error_report(&ed, &e), e.message());
    ed.print_errors = false;
    assert_eq!(add_ed::messages::error_report(&ed, &e), "?");
}
