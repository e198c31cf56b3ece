//! The error that the script engine reports.

use vstd::prelude::*;
use vstd::string::StringExecFns;

verus! {

/// An error raised while evaluating a script step.
#[derive(Debug, PartialEq)]
pub enum Error {
    ScriptError(String),
}

impl View for Error {
    type V = Seq<char>;

    /// The text that the error carries.
    open spec fn view(&self) -> Seq<char> {
        match self {
            Error::ScriptError(e) => e@,
        }
    }
}

impl Clone for Error {
    fn clone(&self) -> (r: Error)
        ensures
            r == *self,
    {
        match self {
            Error::ScriptError(e) => Error::ScriptError(e.clone()),
        }
    }
}

impl Error {
    /// The error as a line for a log or a report.
    pub fn message(&self) -> (r: String)
        ensures
            r@ == "Script error: "@ + self@,
    {
        match self {
            Error::ScriptError(e) => String::from_str("Script error: ").concat(e.as_str()),
        }
    }
}

} // verus!
