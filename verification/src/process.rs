//! Children the daemon starts: what to start, and how one ended.

use vstd::prelude::*;

verus! {

/// One child to start under supervision. Arguments are a list from the first
/// character to the last; nothing here reaches a shell.
#[derive(Debug, PartialEq, Eq)]
pub struct SpawnRequest {
    pub program: String,
    pub args: Vec<String>,
    /// Who the child belongs to in `dotagent status`.
    pub owner_agent: String,
    pub owner_plugin: Option<String>,
    pub deadline_seconds: u64,
    pub label: String,
}

/// How a supervised child ended.
#[derive(Debug, PartialEq, Eq)]
pub enum ProcessEnd {
    /// The child never started.
    NotStarted { error: String },
    /// It ran to an exit status. `code` is absent when a signal ended it.
    Finished { code: Option<i32>, stdout: String, stderr: String },
    /// It passed its deadline and was killed.
    TimedOut { seconds: u64 },
    /// Waiting for it failed.
    Failed { error: String },
}

/// The exit code that is reported: `-1` stands for "ended by a signal".
pub open spec fn reported_code(code: Option<i32>) -> int {
    match code {
        Some(c) => c as int,
        None => -1,
    }
}

/// The exit code that is reported.
pub fn exit_code_of(code: Option<i32>) -> (r: i32)
    ensures
        r == reported_code(code),
{
    match code {
        Some(c) => c,
        None => -1,
    }
}

/// The code that is reported is the child's own; a child that a signal ended has
/// none, and is never reported as a success.
pub proof fn a_child_is_reported_with_its_own_code(code: i32)
    ensures
        reported_code(Some(code)) == code,
        reported_code(None) != 0,
{
}

} // verus!
