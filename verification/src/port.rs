//! The system port: every effect the evaluator cannot perform itself goes
//! through this trait.  The surrounding program implements it with real
//! processes, signals, files and the reader front end; tests implement it
//! with fakes.  Nothing is assumed about any method's result: the verified
//! code states what holds of every outcome.

use vstd::prelude::*;

use crate::environment::IOState;
use crate::types::{Error, Expression, FileState, ParseError};

verus! {

/// The result of a blocking wait on one child process.
#[derive(Clone, Copy, Debug, PartialEq, Eq, Structural)]
pub enum WaitOutcome {
    /// The child exited with this status.
    Exited(i32),
    /// The child was stopped by a signal.
    Stopped,
    /// There is no such child.
    Gone,
}

/// The operating-system boundary of the interpreter.
pub trait SysPort {
    /// True when an interrupt (Ctrl-C) arrived since the flag was cleared.
    fn check_interrupt(&mut self) -> bool;

    /// A process-environment variable, if set.
    fn getenv(&mut self, name: &str) -> Option<String>;

    /// Set a process-environment variable.
    fn setenv(&mut self, name: &str, value: &str);

    /// Remove a process-environment variable.
    fn unsetenv(&mut self, name: &str);

    /// Parse source text into an expression tree (the reader front end).
    fn read_form(&mut self, text: &str) -> Result<Expression, ParseError>;

    /// Spawn an external command; returns the child's pid.
    fn spawn(
        &mut self,
        argv: &Vec<String>,
        stdin_text: Option<&String>,
        stdout: &Option<IOState>,
        stderr: &Option<IOState>,
        background: bool,
        pgid: Option<u32>,
    ) -> Result<u32, Error>;

    /// Block until the child exits or stops.
    fn wait_pid(&mut self, pid: u32) -> WaitOutcome;

    /// Poll the child without blocking; its exit status if it has finished.
    fn try_wait(&mut self, pid: u32) -> Option<i32>;

    /// Send a continue signal to a stopped child; false if that failed.
    fn sigcont(&mut self, pid: u32) -> bool;

    /// Make the child's process group the foreground of the terminal,
    /// saving the terminal state.
    fn set_foreground(&mut self, pid: u32);

    /// Restore the shell as the terminal's foreground, with the saved
    /// terminal state.
    fn restore_terminal(&mut self);

    /// Read everything the child wrote to its piped standard output.
    fn read_proc_output(&mut self, pid: u32) -> Result<String, Error>;

    /// Write text to a file value (standard stream or open handle).
    fn write_text(&mut self, target: FileState, text: &str) -> Result<(), Error>;

    /// Read the rest of an open read handle.
    fn read_handle_text(&mut self, handle: u64) -> Result<String, Error>;

    /// Read all of standard input.
    fn read_stdin_text(&mut self) -> Result<String, Error>;

    /// Open a file for reading; returns a fresh handle.
    fn open_read(&mut self, path: &str) -> Result<u64, Error>;

    /// Open a file for writing (truncating, or appending); returns a fresh
    /// handle.
    fn open_write(&mut self, path: &str, append: bool) -> Result<u64, Error>;

    /// Close an open handle.
    fn close_handle(&mut self, handle: u64);

    /// Does this path exist on disk?
    fn path_exists(&mut self, path: &str) -> bool;

    /// The text of the named source file, wherever the implementation
    /// keeps its sources.
    fn load_text(&mut self, path: &str) -> Result<String, Error>;

    /// The current working directory.
    fn current_dir(&mut self) -> String;

    /// The display text of an IEEE-754 double, given as its bit pattern.
    /// The core stores floats but cannot format them; the port does.
    fn format_float(&mut self, bits: u64) -> String;
}

} // verus!
