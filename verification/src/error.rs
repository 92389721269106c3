//! What can go wrong.

use vstd::prelude::*;
use vstd::string::StringExecFns;

verus! {

/// The failures of this tool. None is retried: each ends the command at hand.
#[derive(Debug)]
pub enum LockError {
    /// No home directory could be found, so the place of the protection store
    /// is unknown.
    ConfigResolution,
    /// The protection store could not be read, understood or written. The text
    /// names the step and its cause.
    StateIo(String),
    /// The system tool could not be run or reported a failure. The text holds
    /// its diagnostic output.
    ExternalCommand(String),
    /// The listing of the system tool names no active generation.
    CurrentGenerationNotFound,
}

impl LockError {
    /// Whether this is a failure of the system tool with the diagnostic `text`.
    pub open spec fn is_external_command(self, text: Seq<char>) -> bool {
        self matches LockError::ExternalCommand(diagnostic) && diagnostic@ == text
    }

    /// The text that `message` returns.
    pub open spec fn message_text(self) -> Seq<char> {
        match self {
            LockError::ConfigResolution => "Could not determine home directory"@,
            LockError::StateIo(text) => text@,
            LockError::ExternalCommand(text) => text@,
            LockError::CurrentGenerationNotFound => "Could not determine current generation"@,
        }
    }

    /// A description of the failure for the operator. Text that came from
    /// outside is handed on as it is.
    pub fn message(&self) -> (text: String)
        ensures
            text@ == self.message_text(),
    {
        match self {
            LockError::ConfigResolution => String::from_str("Could not determine home directory"),
            LockError::StateIo(text) => text.clone(),
            LockError::ExternalCommand(text) => text.clone(),
            LockError::CurrentGenerationNotFound => String::from_str(
                "Could not determine current generation",
            ),
        }
    }
}

} // verus!
