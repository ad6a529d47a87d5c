//! Requests, failures and controls of install tasks.

use vstd::prelude::*;

verus! {

/// What is to be downloaded, as far as the download depends on it.
#[derive(Clone, Debug)]
pub struct InstallRequest {
    /// Where the request came from; named in messages.
    pub provider: String,
    pub url: String,
    pub size: u64,
    /// `sha256` or `blake3`, together with the checksum.
    pub checksum_algo: Option<String>,
    /// Lower-case hexadecimal digits.
    pub checksum: Option<String>,
    /// Unix time from which the URL is no longer valid.
    pub expires_at: Option<i64>,
}

/// A failed task: a stable code and a message for users.
#[derive(Clone, Debug)]
pub struct TaskFailure {
    pub code: String,
    pub message: String,
}

impl TaskFailure {
    /// The failure has this code and this message.
    pub open spec fn says(self, code: Seq<char>, message: Seq<char>) -> bool {
        self.code@ == code && self.message@ == message
    }

    pub fn new(code: &str, message: &str) -> (failure: TaskFailure)
        ensures
            failure.says(code@, message@),
    {
        TaskFailure { code: code.to_owned(), message: message.to_owned() }
    }
}

/// What the user wants of a task.
#[derive(Clone, Copy, Debug, PartialEq, Eq, Structural)]
pub enum TaskControl {
    Running,
    Pause,
    Cancel,
}

} // verus!
