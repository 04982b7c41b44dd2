//! The interface through which the editor reads and writes files and runs
//! shell commands.
use vstd::prelude::*;
use crate::buffer::iters::LinesIter;

verus! {

/// An error from an [`IO`] implementation, with its message.
#[derive(Debug)]
pub struct IOError {
    pub message: String,
}

/// Any two I/O errors compare equal, whatever their messages: an error
/// of the I/O is one kind of editor error.
impl PartialEq for IOError {
    fn eq(&self, other: &Self) -> (r: bool) {
        true
    }
}

impl vstd::std_specs::cmp::PartialEqSpecImpl for IOError {
    open spec fn obeys_eq_spec() -> bool {
        true
    }

    open spec fn eq_spec(&self, other: &Self) -> bool {
        true
    }
}

/// How a file is written.
#[derive(Debug, PartialEq, Eq)]
pub enum WriteType {
    /// Create the file; it must not exist.
    Create,
    /// Replace the file's content.
    Overwrite,
    /// Add to the end of the file.
    Append,
}

/// What the editor needs for files and shell commands. Implemented by
/// users of the library; nothing is assumed of what the methods return.
pub trait IO {
    /// Runs a shell command.
    fn run_command(&mut self, command: String) -> Result<(), IOError>;

    /// Runs a shell command, returning its output.
    fn run_read_command(&mut self, command: String) -> Result<String, IOError>;

    /// Runs a shell command with the lines as input, returning the number
    /// of bytes written to it.
    fn run_write_command(&mut self, command: String, input: LinesIter) -> Result<usize, IOError>;

    /// Runs a shell command with the lines as input, returning its output.
    fn run_transform_command(&mut self, command: String, input: LinesIter) -> Result<String, IOError>;

    /// Writes the lines to the file at `path`, returning the number of bytes
    /// written.
    fn write_file(&mut self, path: &str, write_type: WriteType, data: LinesIter) -> Result<usize, IOError>;

    /// Reads the file at `path`; a missing file is an error only when
    /// `must_exist`.
    fn read_file(&mut self, path: &str, must_exist: bool) -> Result<String, IOError>;
}

/// A call made to an [`IO`], with what it was handed.
pub enum IOCall {
    /// `run_command`, with the command.
    Run(Seq<char>),
    /// `run_read_command`, with the command.
    RunRead(Seq<char>),
    /// `run_write_command`, with the command and the lines fed to it.
    RunWrite(Seq<char>, Seq<Seq<char>>),
    /// `run_transform_command`, with the command and the lines fed to it.
    RunTransform(Seq<char>, Seq<Seq<char>>),
    /// `write_file`, with the path, how it is written and the lines.
    WriteFile(Seq<char>, WriteType, Seq<Seq<char>>),
    /// `read_file`, with the path and whether the file must exist.
    ReadFile(Seq<char>, bool),
}

/// An [`IO`] implementation, with a record of the calls made to it.
pub struct Logged<I: IO> {
    /// The implementation calls are handed to.
    pub io: I,
    /// The calls made so far, oldest first.
    calls: Ghost<Seq<IOCall>>,
}

impl<I: IO> Logged<I> {
    /// The calls made so far, oldest first.
    pub closed spec fn calls(&self) -> Seq<IOCall> {
        self.calls@
    }

    /// Wraps `io`, with no call made yet.
    pub fn new(io: I) -> (l: Logged<I>)
        ensures
            l.calls() == Seq::<IOCall>::empty(),
    {
        Logged { io, calls: Ghost(Seq::empty()) }
    }
}

impl<I: IO> IO for Logged<I> {
    fn run_command(&mut self, command: String) -> (r: Result<(), IOError>)
        ensures
            final(self).calls() == old(self).calls().push(IOCall::Run(command@)),
    {
        proof {
            self.calls@ = self.calls@.push(IOCall::Run(command@));
        }
        self.io.run_command(command)
    }

    fn run_read_command(&mut self, command: String) -> (r: Result<String, IOError>)
        ensures
            final(self).calls() == old(self).calls().push(IOCall::RunRead(command@)),
    {
        proof {
            self.calls@ = self.calls@.push(IOCall::RunRead(command@));
        }
        self.io.run_read_command(command)
    }

    fn run_write_command(&mut self, command: String, input: LinesIter) -> (r: Result<usize, IOError>)
        ensures
            final(self).calls() == old(self).calls().push(IOCall::RunWrite(command@, input@)),
    {
        proof {
            self.calls@ = self.calls@.push(IOCall::RunWrite(command@, input@));
        }
        self.io.run_write_command(command, input)
    }

    fn run_transform_command(&mut self, command: String, input: LinesIter) -> (r: Result<String, IOError>)
        ensures
            final(self).calls() == old(self).calls().push(IOCall::RunTransform(command@, input@)),
    {
        proof {
            self.calls@ = self.calls@.push(IOCall::RunTransform(command@, input@));
        }
        self.io.run_transform_command(command, input)
    }

    fn write_file(&mut self, path: &str, write_type: WriteType, data: LinesIter) -> (r: Result<usize, IOError>)
        ensures
            final(self).calls() == old(self).calls().push(IOCall::WriteFile(path@, write_type, data@)),
    {
        proof {
            self.calls@ = self.calls@.push(IOCall::WriteFile(path@, write_type, data@));
        }
        self.io.write_file(path, write_type, data)
    }

    fn read_file(&mut self, path: &str, must_exist: bool) -> (r: Result<String, IOError>)
        ensures
            final(self).calls() == old(self).calls().push(IOCall::ReadFile(path@, must_exist)),
    {
        proof {
            self.calls@ = self.calls@.push(IOCall::ReadFile(path@, must_exist));
        }
        self.io.read_file(path, must_exist)
    }
}

} // verus!
