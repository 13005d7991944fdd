//! What the interpreter asks of the program it is embedded in: the reader, the
//! pass that resolves symbols, the natives of the program's own, and the process
//! and file layer of the operating system.

use crate::types::{Expression, FileState, ProcessState, Symbols};
use vstd::prelude::*;

verus! {

/// The collaborators of the interpreter. Nothing is assumed of what a method
/// returns: the interpreter is verified for every answer.
pub trait Host {
    /// Reads `text` as one form.
    fn read_form(&mut self, text: &str) -> Result<Expression, String>;

    /// Resolves the symbols of `form` against the names of a call frame.
    fn analyze(&mut self, form: &Expression, symbols: &Symbols) -> Result<Expression, String>;

    /// Calls the native numbered `id` with evaluated arguments.
    fn call_native(&mut self, id: u64, args: &Vec<Expression>) -> Result<Expression, String>;

    /// Makes a pipe: its read end, then its write end.
    fn create_pipe(&mut self) -> Result<(i32, i32), String>;

    /// Starts `stage` as a process of its own, with its standard input and output
    /// wired to the given ends, and returns the process id.
    fn spawn(&mut self, stage: &Expression, stdin: Option<i32>, stdout: Option<i32>) -> Result<
        u32,
        String,
    >;

    /// Runs the program `command` with `args`. With `capture` its output is kept
    /// for [`Host::output_of`]; with `background` the call does not wait for it.
    fn run_command(
        &mut self,
        command: &str,
        args: &Vec<String>,
        capture: bool,
        background: bool,
    ) -> Result<ProcessState, String>;

    /// Everything the process wrote to the output that was captured.
    fn output_of(&mut self, pid: u32) -> Result<String, String>;

    /// Blocks until the process is over and returns its exit status, if it has one.
    fn wait(&mut self, pid: u32) -> Option<i32>;

    /// Makes `fd` the standard input and returns what to hand to
    /// [`Host::restore_stdin`].
    fn replace_stdin(&mut self, fd: i32) -> Result<i32, String>;

    fn restore_stdin(&mut self, saved: i32) -> Result<(), String>;

    /// Writes what is left on the standard input into `sink`.
    fn drain_stdin(&mut self, sink: &FileState) -> Result<(), String>;

    fn change_dir(&mut self, path: &str) -> Result<(), String>;

    fn current_dir(&mut self) -> Result<String, String>;

    /// Tells the user of a failure that does not end the evaluation.
    fn report(&mut self, message: &str);
}

} // verus!
