use vstd::prelude::*;
use vstd::string::StringExecFns;

verus! {

/// The one error of the pipeline: a message for the caller.
#[derive(Debug)]
pub enum LogError {
    E(String),
}

impl LogError {
    /// The message as a sequence of characters.
    pub open spec fn msg(self) -> Seq<char> {
        match self {
            LogError::E(s) => s@,
        }
    }

    /// An error that carries `msg`.
    pub fn from(msg: &str) -> (e: LogError)
        ensures
            e.msg() == msg@,
    {
        LogError::E(String::from_str(msg))
    }

    /// The message, as an owned string.
    pub fn message(&self) -> (s: String)
        ensures
            s@ == self.msg(),
    {
        match self {
            LogError::E(m) => m.clone(),
        }
    }
}

} // verus!
