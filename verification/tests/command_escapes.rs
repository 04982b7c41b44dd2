use add_ed::cmd::path::command_substitutions;
use add_ed::error::EdError;

#[test]
fn test_command_escapes() {
    assert_eq!(
        &command_substitutions("%", "state.file", "prev_command").unwrap(),
        "state.file",
        "command_substitutions didn't replace % with data from state_file."
    );
    assert_eq!(
        &command_substitutions("\\%", "state.file", "prev_command").unwrap(),
        "%",
        "command_substitutions didn't respect escape on %."
    );
    assert_eq!(
        &command_substitutions("!", "state.file", "prev_command").unwrap(),
        "prev_command",
        "command_substitutions didn't replace ! with data from prev_command."
    );
    assert_eq!(
        &command_substitutions("\\!", "state.file", "prev_command").unwrap(),
        "!",
        "command_substitutions didn't respect escape on !."
    );
    assert_eq!(
        &command_substitutions("\\\\", "state.file", "prev_command").unwrap(),
        "\\\\",
        "command_substitution handled escape on \\, it should be passed through."
    );
}

#[test]
fn command_substitutions_need_their_defaults() {
    assert_eq!(command_substitutions("cat %", "", "x"), Err(EdError::DefaultFileUnset));
    assert_eq!(command_substitutions("!!", "f", ""), Err(EdError::DefaultShellCommandUnset));
    assert_eq!(command_substitutions("ls -l", "", "").unwrap(), "ls -l");
    assert_eq!(command_substitutions("a\\", "f", "p").unwrap(), "a");
}
