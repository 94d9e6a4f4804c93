//! The single error kind shared by every stage.

use vstd::prelude::*;
use vstd::string::StringExecFns;

verus! {

/// A failure of scanning, parsing or evaluation: a message for a person to
/// read. Every failure ends the run that raised it.
#[derive(Debug)]
pub struct LoxError {
    message: String,
}

impl View for LoxError {
    type V = Seq<char>;

    /// The message, without the closing period that `to_string` adds.
    closed spec fn view(&self) -> Seq<char> {
        self.message@
    }
}

impl Clone for LoxError {
    fn clone(&self) -> (copy: LoxError)
        ensures
            copy@ == self@,
    {
        LoxError { message: self.message.clone() }
    }
}

impl LoxError {
    /// An error that carries `message`.
    pub fn new(message: &str) -> (e: LoxError)
        ensures
            e@ == message@,
    {
        LoxError { message: String::from_str(message) }
    }

    /// The message this error was made with.
    pub fn message(&self) -> (m: &str)
        ensures
            m@ == self@,
    {
        self.message.as_str()
    }

    /// The message followed by a period, as it is shown to a person.
    pub fn to_string(&self) -> (s: String)
        ensures
            s@ == self@.push('.'),
    {
        let mut s = self.message.clone();
        s.push('.');
        s
    }
}

} // verus!
