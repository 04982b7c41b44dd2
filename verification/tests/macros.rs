use std::collections::HashMap;

use add_ed::buffer::iters::LinesIter;
use add_ed::cmd::global::Scripted;
use add_ed::ed::Ed;
use add_ed::error::EdError;
use add_ed::cmd::macros::{Macro, ModificationMode};
use add_ed::io::{IOError, Logged, WriteType, IO};
use add_ed::ui::{UIError, UI};

/// A user interface that hands out prepared input and records the rest.
struct TestUI {
    inputs: Vec<Vec<String>>,
    messages: Vec<String>,
    printed: Vec<(usize, usize, bool, bool)>,
}

impl UI for TestUI {
    fn print_message(&mut self, data: &str) -> Result<(), UIError> {
        self.messages.push(data.to_string());
        Ok(())
    }
    fn get_command(&mut self, _state: &Ed) -> Result<String, UIError> {
        Err(UIError { message: "no commands".to_string() })
    }
    fn get_input(&mut self, _state: &Ed, _terminator: char) -> Result<Vec<String>, UIError> {
        if self.inputs.is_empty() {
            Err(UIError { message: "no input".to_string() })
        } else {
            Ok(self.inputs.remove(0))
        }
    }
    fn print_selection(&mut self, _state: &Ed, selection: (usize, usize), numbered: bool, literal: bool) -> Result<(), UIError> {
        self.printed.push((selection.0, selection.1, numbered, literal));
        Ok(())
    }
}

/// Files in memory; shell commands are recorded, and transforming one
/// upper-cases its input.
struct TestIO {
    files: HashMap<String, String>,
    commands: Vec<String>,
}

impl IO for TestIO {
    fn run_command(&mut self, command: String) -> Result<(), IOError> {
        self.commands.push(command);
        Ok(())
    }
    fn run_read_command(&mut self, command: String) -> Result<String, IOError> {
        self.commands.push(command);
        Ok("from shell\n".to_string())
    }
    fn run_write_command(&mut self, command: String, input: LinesIter) -> Result<usize, IOError> {
        self.commands.push(command);
        Ok(input.collect_all().iter().map(|l| l.len()).sum())
    }
    fn run_transform_command(&mut self, command: String, input: LinesIter) -> Result<String, IOError> {
        self.commands.push(command);
        Ok(input.collect_all().concat().to_uppercase())
    }
    fn write_file(&mut self, path: &str, write_type: WriteType, data: LinesIter) -> Result<usize, IOError> {
        let text = data.collect_all().concat();
        let n = text.len();
        match write_type {
            WriteType::Create if self.files.contains_key(path) => {
                return Err(IOError { message: "exists".to_string() })
            }
            WriteType::Append => self.files.entry(path.to_string()).or_default().push_str(&text),
            _ => {
                self.files.insert(path.to_string(), text);
            }
        }
        Ok(n)
    }
    fn read_file(&mut self, path: &str, must_exist: bool) -> Result<String, IOError> {
        match self.files.get(path) {
            Some(t) => Ok(t.clone()),
            None if !must_exist => Ok(String::new()),
            None => Err(IOError { message: "not found".to_string() }),
        }
    }
}

fn setup() -> (Ed, Scripted<TestUI>, Logged<TestIO>) {
    let ui = TestUI { inputs: Vec::new(), messages: Vec::new(), printed: Vec::new() };
    let io = Logged::new(TestIO { files: HashMap::new(), commands: Vec::new() });
    (Ed::new(), Scripted::new(ui), io)
}

fn lines(ed: &Ed) -> Vec<String> {
    let n = ed.buffer().len();
    if n == 0 {
        return Vec::new();
    }
    ed.buffer().get_lines((1, n)).unwrap().collect_all().iter().map(|s| s.to_string()).collect()
}

fn strings(v: &[&str]) -> Vec<String> {
    v.iter().map(|s| s.to_string()).collect()
}

/// An editor holding the given lines, as appended by `a`.
fn with_lines(v: &[&str]) -> (Ed, Scripted<TestUI>, Logged<TestIO>) {
    let (mut ed, mut ui, mut io) = setup();
    ui.ui.inputs.push(strings(v));
    assert_eq!(ed.run_command(&mut ui, &mut io, "a\n"), Ok(false));
    (ed, ui, io)
}

fn define(ed: &mut Ed, name: &str, input: &str, mode: ModificationMode) {
    ed.macros.push((name.to_string(), Macro { input: input.to_string(), modification_mode: mode }));
}

#[test]
fn macro_default_is_one_undo_step() {
    let (mut ed, mut ui, mut io) = with_lines(&["a\n", "b\n", "c\n"]);
    define(&mut ed, "trim", "1d\n$d\n", ModificationMode::Default);
    let before = ed.history.len();
    assert_eq!(ed.run_command(&mut ui, &mut io, ":trim\n"), Ok(false));
    assert_eq!(lines(&ed), strings(&["b\n"]));
    assert_eq!(ed.history.len(), before + 1);
    assert_eq!(ed.history.snapshots()[before].0, ":trim");
    assert_eq!(ed.history.snapshots_paused(), false);
    assert_eq!(ed.run_command(&mut ui, &mut io, "u\n"), Ok(false));
    assert_eq!(lines(&ed), strings(&["a\n", "b\n", "c\n"]));
}

#[test]
fn macro_default_without_change_leaves_no_snapshot() {
    let (mut ed, mut ui, mut io) = with_lines(&["a\n"]);
    define(&mut ed, "show", "p\n", ModificationMode::Default);
    let before = ed.history.len();
    assert_eq!(ed.run_command(&mut ui, &mut io, ":show\n"), Ok(false));
    assert_eq!(ed.history.len(), before);
    assert_eq!(ui.ui.printed, vec![(1, 1, false, false)]);
}

#[test]
fn macro_squash_keeps_its_snapshot() {
    let (mut ed, mut ui, mut io) = with_lines(&["a\n"]);
    define(&mut ed, "show", "p\n", ModificationMode::Squash);
    let before = ed.history.len();
    assert_eq!(ed.run_command(&mut ui, &mut io, ":show\n"), Ok(false));
    assert_eq!(ed.history.len(), before + 1);
}

#[test]
fn macro_error_undoes_its_changes() {
    let (mut ed, mut ui, mut io) = with_lines(&["a\n", "b\n"]);
    define(&mut ed, "bad", "1d\n9d\n", ModificationMode::Default);
    let before = ed.history.len();
    ed.selection = (2, 2);
    assert_eq!(ed.run_command(&mut ui, &mut io, ":bad\n"), Err(EdError::IndexTooBig { index: 9, buffer_len: 1 }));
    assert_eq!(lines(&ed), strings(&["a\n", "b\n"]));
    assert_eq!(ed.history.len(), before);
    assert_eq!(ed.selection, (2, 2));
}

#[test]
fn macro_revert_leaves_no_trace() {
    let (mut ed, mut ui, mut io) = with_lines(&["a\n", "b\n"]);
    define(&mut ed, "peek", "1d\n", ModificationMode::Revert);
    let before = ed.history.len();
    assert_eq!(ed.run_command(&mut ui, &mut io, "2:peek\n"), Ok(false));
    assert_eq!(lines(&ed), strings(&["a\n", "b\n"]));
    assert_eq!(ed.history.len(), before);
    assert_eq!(ed.selection, (2, 2));
}

#[test]
fn macro_expose_snapshots_each_change() {
    let (mut ed, mut ui, mut io) = with_lines(&["a\n", "b\n", "c\n"]);
    define(&mut ed, "two", "1d\n1d\n", ModificationMode::Expose);
    let before = ed.history.len();
    assert_eq!(ed.run_command(&mut ui, &mut io, ":two\n"), Ok(false));
    assert_eq!(lines(&ed), strings(&["c\n"]));
    assert_eq!(ed.history.len(), before + 2);
}

#[test]
fn macro_checks_selection_and_name() {
    let (mut ed, mut ui, mut io) = with_lines(&["a\n"]);
    define(&mut ed, "m", "p\n", ModificationMode::Default);
    assert_eq!(ed.run_command(&mut ui, &mut io, "5:m\n"), Err(EdError::IndexTooBig { index: 5, buffer_len: 1 }));
    assert_eq!(ed.run_command(&mut ui, &mut io, ":other arg\n"), Err(EdError::MacroUndefined("other".to_string())));
    assert!(ui.ui.printed.is_empty());
}

#[test]
fn macro_runs_on_given_selection() {
    let (mut ed, mut ui, mut io) = with_lines(&["a\n", "b\n", "c\n"]);
    define(&mut ed, "del", "d\n", ModificationMode::Default);
    assert_eq!(ed.run_command(&mut ui, &mut io, "2:del\n"), Ok(false));
    assert_eq!(lines(&ed), strings(&["a\n", "c\n"]));
}

#[test]
fn macro_recursion_is_limited() {
    let (mut ed, mut ui, mut io) = with_lines(&["a\n"]);
    define(&mut ed, "loop", ":loop\n", ModificationMode::Default);
    assert_eq!(ed.run_command(&mut ui, &mut io, ":loop\n"), Err(EdError::InfiniteRecursion));
    assert_eq!(lines(&ed), strings(&["a\n"]));
}

#[test]
fn undo_reports_the_snapshot_it_went_to() {
    let (mut ed, mut ui, mut io) = with_lines(&["a\n", "b\n"]);
    assert_eq!(ed.run_command(&mut ui, &mut io, "2d\n"), Ok(false));
    assert_eq!(ed.run_command(&mut ui, &mut io, "u\n"), Ok(false));
    assert_eq!(ui.ui.messages.last().unwrap(), "Undid 1 operation(s) to right after a.");
    assert_eq!(ed.run_command(&mut ui, &mut io, "u+1\n"), Ok(false));
    assert_eq!(ui.ui.messages.last().unwrap(), "Redid 1 operation(s) to right after 2d.");
}

#[test]
fn write_hands_the_lines_to_the_io() {
    let (mut ed, mut ui, mut io) = with_lines(&["a\n", "b\n"]);
    assert_eq!(ed.run_command(&mut ui, &mut io, "2w part.txt\n"), Ok(false));
    assert_eq!(io.io.files.get("part.txt").unwrap(), "b\n");
    assert_eq!(ed.run_command(&mut ui, &mut io, "W part.txt\n"), Ok(false));
    assert_eq!(io.io.files.get("part.txt").unwrap(), "b\na\nb\n");
}

#[test]
fn macro_input_comes_from_its_lines() {
    let (mut ed, mut ui, mut io) = with_lines(&["a\n"]);
    define(&mut ed, "add", "a\nnew\nlines\n.\n1d\n", ModificationMode::Default);
    assert_eq!(ed.run_command(&mut ui, &mut io, ":add\n"), Ok(false));
    assert_eq!(lines(&ed), strings(&["new\n", "lines\n"]));
    assert!(ui.ui.inputs.is_empty());
}
