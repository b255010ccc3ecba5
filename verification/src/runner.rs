//! The command executor's data: what one run of the shell command produced.
//!
//! Spawning the command, the tee of its output to the local terminal and the
//! elapsed-time measurement are process I/O and live in the surrounding
//! application; it hands the captured values over as a [`CommandInfo`].

use vstd::prelude::*;

verus! {

/// Failure of a command run: the command that failed and the reason given by
/// the operating system.
#[derive(Debug)]
pub enum RunnerError {
    Runtime(String, String),
}

/// The outcome of one command run: the command line, the elapsed wall-clock
/// time in whole seconds, and the captured output streams.
pub struct CommandInfo {
    pub time: u64,
    pub command: String,
    pub stdout: String,
    pub stderr: String,
}

impl CommandInfo {
    pub fn new(command: String, time: u64, stdout: String, stderr: String) -> (r: Self)
        ensures
            r.command == command,
            r.time == time,
            r.stdout == stdout,
            r.stderr == stderr,
    {
        Self { time, command, stdout, stderr }
    }
}

} // verus!
