use std::collections::HashMap;

use add_ed::buffer::iters::LinesIter;
use add_ed::cmd::commands::{reflow, PrintingFlags};
use add_ed::cmd::global::Scripted;
use add_ed::cmd::selection::{Ind, Sel};
use add_ed::ed::Ed;
use add_ed::error::EdError;
use add_ed::error_consts::NO_ERROR;
use add_ed::io::{IOError, Logged, WriteType, IO};
use add_ed::ui::{UIError, UI};

/// A user interface that hands out prepared input and records the rest.
struct TestUI {
    inputs: Vec<Vec<String>>,
    messages: Vec<String>,
    printed: Vec<(usize, usize, bool, bool)>,
}

impl UI for TestUI {
    fn print_message(&mut self, data: &str) -> Result<(), UIError> {
        self.messages.push(data.to_string());
        Ok(())
    }
    fn get_command(&mut self, _state: &Ed) -> Result<String, UIError> {
        Err(UIError { message: "no commands".to_string() })
    }
    fn get_input(&mut self, _state: &Ed, _terminator: char) -> Result<Vec<String>, UIError> {
        if self.inputs.is_empty() {
            Err(UIError { message: "no input".to_string() })
        } else {
            Ok(self.inputs.remove(0))
        }
    }
    fn print_selection(&mut self, _state: &Ed, selection: (usize, usize), numbered: bool, literal: bool) -> Result<(), UIError> {
        self.printed.push((selection.0, selection.1, numbered, literal));
        Ok(())
    }
}

/// Files in memory; shell commands are recorded, and transforming one
/// upper-cases its input.
struct TestIO {
    files: HashMap<String, String>,
    commands: Vec<String>,
}

impl IO for TestIO {
    fn run_command(&mut self, command: String) -> Result<(), IOError> {
        self.commands.push(command);
        Ok(())
    }
    fn run_read_command(&mut self, command: String) -> Result<String, IOError> {
        self.commands.push(command);
        Ok("from shell\n".to_string())
    }
    fn run_write_command(&mut self, command: String, input: LinesIter) -> Result<usize, IOError> {
        self.commands.push(command);
        Ok(input.collect_all().iter().map(|l| l.len()).sum())
    }
    fn run_transform_command(&mut self, command: String, input: LinesIter) -> Result<String, IOError> {
        self.commands.push(command);
        Ok(input.collect_all().concat().to_uppercase())
    }
    fn write_file(&mut self, path: &str, write_type: WriteType, data: LinesIter) -> Result<usize, IOError> {
        let text = data.collect_all().concat();
        let n = text.len();
        match write_type {
            WriteType::Create if self.files.contains_key(path) => {
                return Err(IOError { message: "exists".to_string() })
            }
            WriteType::Append => self.files.entry(path.to_string()).or_default().push_str(&text),
            _ => {
                self.files.insert(path.to_string(), text);
            }
        }
        Ok(n)
    }
    fn read_file(&mut self, path: &str, must_exist: bool) -> Result<String, IOError> {
        match self.files.get(path) {
            Some(t) => Ok(t.clone()),
            None if !must_exist => Ok(String::new()),
            None => Err(IOError { message: "not found".to_string() }),
        }
    }
}

fn setup() -> (Ed, Scripted<TestUI>, Logged<TestIO>) {
    let ui = TestUI { inputs: Vec::new(), messages: Vec::new(), printed: Vec::new() };
    let io = Logged::new(TestIO { files: HashMap::new(), commands: Vec::new() });
    (Ed::new(), Scripted::new(ui), io)
}

fn lines(ed: &Ed) -> Vec<String> {
    let n = ed.buffer().len();
    if n == 0 {
        return Vec::new();
    }
    ed.buffer().get_lines((1, n)).unwrap().collect_all().iter().map(|s| s.to_string()).collect()
}

fn strings(v: &[&str]) -> Vec<String> {
    v.iter().map(|s| s.to_string()).collect()
}

/// An editor holding the given lines, as appended by `a`.
fn with_lines(v: &[&str]) -> (Ed, Scripted<TestUI>, Logged<TestIO>) {
    let (mut ed, mut ui, mut io) = setup();
    ui.ui.inputs.push(strings(v));
    assert_eq!(ed.run_command(&mut ui, &mut io, "a\n"), Ok(false));
    (ed, ui, io)
}

#[test]
fn append_then_print() {
    let (mut ed, mut ui, mut io) = with_lines(&["hello\n", "world\n"]);
    assert_eq!(lines(&ed), strings(&["hello\n", "world\n"]));
    assert_eq!(ed.selection, (1, 2));
    assert_eq!(ed.run_command(&mut ui, &mut io, ",p\n"), Ok(false));
    assert_eq!(ed.run_command(&mut ui, &mut io, "2n\n"), Ok(false));
    assert_eq!(ed.run_command(&mut ui, &mut io, "1l\n"), Ok(false));
    assert_eq!(ui.ui.printed, vec![(1, 2, false, false), (2, 2, true, false), (1, 1, false, true)]);
}

#[test]
fn insert_before_and_inline() {
    let (mut ed, mut ui, mut io) = with_lines(&["b\n"]);
    ui.ui.inputs.push(strings(&["a\n"]));
    assert_eq!(ed.run_command(&mut ui, &mut io, "1i\n"), Ok(false));
    assert_eq!(lines(&ed), strings(&["a\n", "b\n"]));
    assert_eq!(ed.selection, (1, 1));
    ui.ui.inputs.push(strings(&["x\n", "y\n"]));
    assert_eq!(ed.run_command(&mut ui, &mut io, "2A\n"), Ok(false));
    assert_eq!(lines(&ed), strings(&["a\n", "bx\n", "y\n"]));
    assert_eq!(ed.selection, (2, 3));
}

#[test]
fn quit_needs_saved_buffer() {
    let (mut ed, mut ui, mut io) = setup();
    assert_eq!(ed.run_command(&mut ui, &mut io, "q\n"), Ok(true));
    let (mut ed2, mut ui2, mut io2) = with_lines(&["a\n"]);
    assert_eq!(ed2.run_command(&mut ui2, &mut io2, "q\n"), Err(EdError::UnsavedChanges));
    assert_eq!(ed2.error, Some(EdError::UnsavedChanges));
    assert_eq!(ed2.run_command(&mut ui2, &mut io2, "1q\n"), Err(EdError::SelectionForbidden));
    assert_eq!(ed2.run_command(&mut ui2, &mut io2, "Q\n"), Ok(true));
    assert_eq!(ed.run_command(&mut ui, &mut io, "qx\n"), Err(EdError::FlagUndefined('x')));
}

#[test]
fn help_prints_last_error() {
    let (mut ed, mut ui, mut io) = with_lines(&["a\n", "b\n"]);
    assert_eq!(ed.run_command(&mut ui, &mut io, "h\n"), Ok(false));
    assert_eq!(ui.ui.messages.last().unwrap(), NO_ERROR);
    let err = ed.run_command(&mut ui, &mut io, "5p\n");
    assert_eq!(err, Err(EdError::IndexTooBig { index: 5, buffer_len: 2 }));
    assert_eq!(ed.error, Some(EdError::IndexTooBig { index: 5, buffer_len: 2 }));
    assert_eq!(ed.run_command(&mut ui, &mut io, "h\n"), Ok(false));
    assert_eq!(ui.ui.messages.last().unwrap(), &EdError::IndexTooBig { index: 5, buffer_len: 2 }.message());
    assert!(ed.print_errors);
    assert_eq!(ed.run_command(&mut ui, &mut io, "H\n"), Ok(false));
    assert!(!ed.print_errors);
}

#[test]
fn delete_then_undo_and_redo() {
    let (mut ed, mut ui, mut io) = with_lines(&["a\n", "b\n", "c\n"]);
    assert_eq!(ed.run_command(&mut ui, &mut io, "2d\n"), Ok(false));
    assert_eq!(lines(&ed), strings(&["a\n", "c\n"]));
    assert_eq!(ed.selection, (2, 2));
    assert_eq!(ed.run_command(&mut ui, &mut io, "u\n"), Ok(false));
    assert_eq!(lines(&ed), strings(&["a\n", "b\n", "c\n"]));
    assert_eq!(ed.run_command(&mut ui, &mut io, "u+1\n"), Ok(false));
    assert_eq!(lines(&ed), strings(&["a\n", "c\n"]));
    assert_eq!(ed.run_command(&mut ui, &mut io, "u+1\n").is_err(), true);
    assert_eq!(ed.run_command(&mut ui, &mut io, "u2\n"), Ok(false));
    assert_eq!(lines(&ed), Vec::<String>::new());
    assert_eq!(ed.run_command(&mut ui, &mut io, ",d\n"), Err(EdError::IndexTooBig { index: 1, buffer_len: 0 }));
}

#[test]
fn delete_whole_buffer_refuses_printing() {
    let (mut ed, mut ui, mut io) = with_lines(&["a\n", "b\n"]);
    assert_eq!(ed.run_command(&mut ui, &mut io, ",dp\n"), Err(EdError::PrintAfterWipe));
    assert_eq!(lines(&ed), strings(&["a\n", "b\n"]));
    assert_eq!(ed.run_command(&mut ui, &mut io, ",d\n"), Ok(false));
    assert_eq!(lines(&ed), Vec::<String>::new());
    assert_eq!(ed.selection, (1, 0));
}

#[test]
fn yank_and_paste() {
    let (mut ed, mut ui, mut io) = with_lines(&["a\n", "b\n", "c\n"]);
    assert_eq!(ed.run_command(&mut ui, &mut io, "1y\n"), Ok(false));
    assert_eq!(ed.run_command(&mut ui, &mut io, "$x\n"), Ok(false));
    assert_eq!(lines(&ed), strings(&["a\n", "b\n", "c\n", "a\n"]));
    assert_eq!(ed.selection, (4, 4));
    assert_eq!(ed.run_command(&mut ui, &mut io, "1X\n"), Ok(false));
    assert_eq!(lines(&ed), strings(&["a\n", "a\n", "b\n", "c\n", "a\n"]));
}

#[test]
fn join_lines() {
    let (mut ed, mut ui, mut io) = with_lines(&["a\n", "b\n", "c\n"]);
    assert_eq!(ed.run_command(&mut ui, &mut io, "1,2j\n"), Ok(false));
    assert_eq!(lines(&ed), strings(&["ab\n", "c\n"]));
    assert_eq!(ed.selection, (1, 1));
}

#[test]
fn move_and_copy_lines() {
    let (mut ed, mut ui, mut io) = with_lines(&["a\n", "b\n", "c\n"]);
    assert_eq!(ed.run_command(&mut ui, &mut io, "1m$\n"), Ok(false));
    assert_eq!(lines(&ed), strings(&["b\n", "c\n", "a\n"]));
    assert_eq!(ed.run_command(&mut ui, &mut io, "3m0\n"), Ok(false));
    assert_eq!(lines(&ed), strings(&["a\n", "b\n", "c\n"]));
    assert_eq!(ed.run_command(&mut ui, &mut io, "1t$\n"), Ok(false));
    assert_eq!(lines(&ed), strings(&["a\n", "b\n", "c\n", "a\n"]));
}

#[test]
fn substitute_first_global_and_repeat() {
    let (mut ed, mut ui, mut io) = with_lines(&["aa\n", "ba\n"]);
    assert_eq!(ed.run_command(&mut ui, &mut io, ",s/a/x/\n"), Ok(false));
    assert_eq!(lines(&ed), strings(&["xa\n", "ba\n"]));
    assert_eq!(ed.run_command(&mut ui, &mut io, ",s\n"), Ok(false));
    assert_eq!(lines(&ed), strings(&["xx\n", "ba\n"]));
    assert_eq!(ed.run_command(&mut ui, &mut io, ",s/x/y/g\n"), Ok(false));
    assert_eq!(lines(&ed), strings(&["yy\n", "ba\n"]));
    assert_eq!(ed.run_command(&mut ui, &mut io, ",s/a/z/g\n"), Ok(false));
    assert_eq!(lines(&ed), strings(&["yy\n", "bz\n"]));
    assert_eq!(ed.run_command(&mut ui, &mut io, ",s/q/z/\n"), Err(EdError::RegexNoMatch("q".to_string())));
    let r = ed.run_command(&mut ui, &mut io, ",s/(/z/\n");
    assert!(matches!(r, Err(EdError::RegexInvalid { .. })));
    assert_eq!(ed.error, r.err());
}

#[test]
fn substitute_needs_prior_arguments() {
    let (mut ed, mut ui, mut io) = with_lines(&["a\n"]);
    assert_eq!(ed.run_command(&mut ui, &mut io, "s\n"), Err(EdError::DefaultSArgsUnset));
}

#[test]
fn global_runs_commands_on_matches() {
    let (mut ed, mut ui, mut io) = with_lines(&["a\n", "b\n", "ab\n"]);
    assert_eq!(ed.run_command(&mut ui, &mut io, ",g/b/d/\n"), Ok(false));
    assert_eq!(lines(&ed), strings(&["a\n"]));
    assert_eq!(ed.run_command(&mut ui, &mut io, "u\n"), Ok(false));
    assert_eq!(lines(&ed), strings(&["a\n", "b\n", "ab\n"]));
    assert_eq!(ed.run_command(&mut ui, &mut io, ",v/a/d/\n"), Ok(false));
    assert_eq!(lines(&ed), strings(&["a\n", "ab\n"]));
}

#[test]
fn global_respects_recursion_limit() {
    let (mut ed, mut ui, mut io) = with_lines(&["a\n"]);
    ed.recursion_limit = 0;
    assert_eq!(ed.run_command(&mut ui, &mut io, ",g/a/p/\n"), Err(EdError::InfiniteRecursion));
    assert_eq!(lines(&ed), strings(&["a\n"]));
}

#[test]
fn write_read_and_filename() {
    let (mut ed, mut ui, mut io) = with_lines(&["a\n", "b\n"]);
    ed.selection = (2, 2);
    assert_eq!(ed.run_command(&mut ui, &mut io, "w out.txt\n"), Ok(false));
    assert_eq!(io.io.files.get("out.txt").unwrap(), "a\nb\n");
    assert_eq!(ed.selection, (2, 2));
    assert_eq!(ed.file, "out.txt");
    assert_eq!(ed.run_command(&mut ui, &mut io, "f\n"), Ok(false));
    assert_eq!(ui.ui.messages.last().unwrap(), "out.txt");
    assert_eq!(ed.run_command(&mut ui, &mut io, "q\n"), Ok(true));

    let (mut ed2, mut ui2, _) = setup();
    assert_eq!(ed2.run_command(&mut ui2, &mut io, "e out.txt\n"), Ok(false));
    assert_eq!(lines(&ed2), strings(&["a\n", "b\n"]));
    assert_eq!(ed2.file, "out.txt");
    assert_eq!(ed2.run_command(&mut ui2, &mut io, "$r out.txt\n"), Ok(false));
    assert_eq!(lines(&ed2), strings(&["a\n", "b\n", "a\n", "b\n"]));
    assert_eq!(ed2.run_command(&mut ui2, &mut io, "e out.txt\n"), Err(EdError::UnsavedChanges));
    assert_eq!(ed2.run_command(&mut ui2, &mut io, "wq\n"), Ok(true));
    assert_eq!(io.io.files.get("out.txt").unwrap(), "a\nb\na\nb\n");
}

#[test]
fn write_modes_and_commands() {
    let (mut ed, mut ui, mut io) = with_lines(&["a\n", "b\n"]);
    assert_eq!(ed.run_command(&mut ui, &mut io, "1w one.txt\n"), Ok(false));
    assert_eq!(io.io.files.get("one.txt").unwrap(), "a\n");
    assert_eq!(ed.file, "");
    assert_eq!(ed.run_command(&mut ui, &mut io, "q\n"), Err(EdError::UnsavedChanges));
    assert_eq!(ed.run_command(&mut ui, &mut io, "2W one.txt\n"), Ok(false));
    assert_eq!(io.io.files.get("one.txt").unwrap(), "a\nb\n");
    assert_eq!(ed.run_command(&mut ui, &mut io, "1w one.txt\n"), Err(EdError::IO(add_ed::io::IOError { message: "exists".to_string() })));
    assert_eq!(ed.run_command(&mut ui, &mut io, "w !cat\n"), Ok(false));
    assert_eq!(io.io.commands, strings(&["cat"]));
    assert_eq!(ed.run_command(&mut ui, &mut io, "W!cat\n"), Err(EdError::CommandEscapeForbidden("!cat".to_string())));
    assert_eq!(ed.run_command(&mut ui, &mut io, "1wq\n"), Err(EdError::UnsavedChanges));
}

#[test]
fn selection_commands_print_and_tag() {
    let (mut ed, mut ui, mut io) = with_lines(&["a\n", "b\n", "c\n"]);
    assert_eq!(ed.run_command(&mut ui, &mut io, "1,2=\n"), Ok(false));
    assert_eq!(ui.ui.messages.last().unwrap(), "(1,2)");
    assert_eq!(ed.selection, (1, 2));
    assert_eq!(ed.run_command(&mut ui, &mut io, "3kz\n"), Ok(false));
    assert_eq!(ed.run_command(&mut ui, &mut io, "'zp\n"), Ok(false));
    assert_eq!(ui.ui.printed.last().unwrap(), &(3, 3, false, false));
    assert_eq!(ed.run_command(&mut ui, &mut io, "'qp\n"), Err(EdError::TagNoMatch('q')));
    assert_eq!(ed.run_command(&mut ui, &mut io, "/b/p\n"), Err(EdError::RegexNoMatch("b".to_string())));
    assert_eq!(ed.run_command(&mut ui, &mut io, "?b?p\n"), Ok(false));
    assert_eq!(ui.ui.printed.last().unwrap(), &(2, 2, false, false));
}

#[test]
fn unknown_commands_and_macros() {
    let (mut ed, mut ui, mut io) = with_lines(&["a\n"]);
    assert_eq!(ed.run_command(&mut ui, &mut io, "Y\n"), Err(EdError::CommandUndefined('Y')));
    assert_eq!(ed.run_command(&mut ui, &mut io, ":name\n"), Err(EdError::MacroUndefined("name".to_string())));
}

#[test]
fn change_lines() {
    let (mut ed, mut ui, mut io) = with_lines(&["a\n", "b\n", "c\n"]);
    ui.ui.inputs.push(strings(&["B\n", "BB\n"]));
    assert_eq!(ed.run_command(&mut ui, &mut io, "2c\n"), Ok(false));
    assert_eq!(lines(&ed), strings(&["a\n", "B\n", "BB\n", "c\n"]));
    assert_eq!(ed.selection, (2, 3));
}

#[test]
fn reflow_is_not_a_command() {
    let (mut ed, mut ui, mut io) = with_lines(&["aa bb\n", "cc\n"]);
    assert_eq!(ed.run_command(&mut ui, &mut io, ",J\n"), Err(EdError::CommandUndefined('J')));
}

#[test]
fn reflow_joins_within_width() {
    let (mut ed, _, _) = with_lines(&["aa bb\n", "cc\n"]);
    let mut pflags = PrintingFlags { p: false, n: false, l: false };
    let all = || Some(Sel::Pair(Ind::Literal(1), Ind::BufferLen));
    assert_eq!(reflow(&mut ed, &mut pflags, ",J", all(), ""), Ok(()));
    assert_eq!(lines(&ed), strings(&["aa bb cc\n"]));
    assert_eq!(ed.selection, (1, 1));
    assert_eq!(reflow(&mut ed, &mut pflags, ",J", all(), "5"), Ok(()));
    assert_eq!(lines(&ed), strings(&["aa bb\n", "cc\n"]));
    assert_eq!(reflow(&mut ed, &mut pflags, ",J", all(), "x"), Err(EdError::FlagUndefined('x')));
    assert_eq!(
        reflow(&mut ed, &mut pflags, ",J", all(), "99999999999999999999999"),
        Err(EdError::ReflowNotInt {
            error: "number too large to fit in target type".to_string(),
            text: "99999999999999999999999".to_string(),
        })
    );
}

#[test]
fn shell_commands_go_through_io() {
    let (mut ed, mut ui, mut io) = with_lines(&["a\n", "b\n"]);
    assert_eq!(ed.run_command(&mut ui, &mut io, "!ls\n"), Ok(false));
    assert_eq!(io.io.commands, strings(&["ls"]));
    assert_eq!(ed.prev_shell_command, "ls");
    assert_eq!(ed.run_command(&mut ui, &mut io, "1!ls\n"), Err(EdError::SelectionForbidden));
    assert_eq!(ed.run_command(&mut ui, &mut io, ",|up\n"), Ok(false));
    assert_eq!(lines(&ed), strings(&["A\n", "B\n"]));
    assert_eq!(io.io.commands, strings(&["ls", "up"]));
    assert_eq!(ed.run_command(&mut ui, &mut io, "!!\n"), Ok(false));
    assert_eq!(io.io.commands, strings(&["ls", "up", "up"]));
}

#[test]
fn opened_file_is_saved() {
    let (mut ed, mut ui, mut io) = setup();
    io.io.files.insert("f.txt".to_string(), "x\ny".to_string());
    assert_eq!(ed.run_command(&mut ui, &mut io, "e f.txt\n"), Ok(false));
    assert_eq!(lines(&ed), strings(&["x\n", "y\n"]));
    assert_eq!(ed.selection, (1, 2));
    assert_eq!(ui.ui.messages.last().unwrap(), "Read 3 bytes from path `f.txt`");
    assert_eq!(ed.run_command(&mut ui, &mut io, "q\n"), Ok(true));
    assert_eq!(ed.run_command(&mut ui, &mut io, "e missing.txt\n"), Ok(false));
    assert_eq!(lines(&ed), Vec::<String>::new());
    assert_eq!(ed.run_command(&mut ui, &mut io, "E missing.txt\n"), Err(EdError::IO(IOError { message: "not found".to_string() })));
}

#[test]
fn scripts_stop_at_first_failing_or_quitting_command() {
    let (mut ed, mut ui, mut io) = with_lines(&["a\n", "b\n"]);
    assert_eq!(ed.run_command(&mut ui, &mut io, ",g/a/Y/\n"), Err(EdError::CommandUndefined('Y')));
    assert_eq!(lines(&ed), strings(&["a\n", "b\n"]));
    // An empty script (no input given for the matching line) does nothing.
    ui.ui.inputs.push(Vec::new());
    assert_eq!(ed.run_command(&mut ui, &mut io, ",G/b/\n"), Ok(false));
    assert_eq!(lines(&ed), strings(&["a\n", "b\n"]));
    assert_eq!(ui.ui.printed.last().unwrap(), &(2, 2, false, false));
    // A script that quits first runs nothing more.
    assert_eq!(ed.run_command(&mut ui, &mut io, ",g/./Q/d/\n"), Ok(false));
    assert_eq!(lines(&ed), strings(&["a\n", "b\n"]));
}
