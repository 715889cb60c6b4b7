//! The error that operations on the configuration report.
use vstd::prelude::*;

verus! {

/// An error that carries the message to show.
#[derive(Debug, Clone, PartialEq, Eq)]
pub struct ConfigError {
    message: String,
}

impl View for ConfigError {
    type V = Seq<char>;

    closed spec fn view(&self) -> Seq<char> {
        self.message@
    }
}

impl ConfigError {
    /// An error with the given message.
    pub fn new(message: String) -> (r: ConfigError)
        ensures
            r@ == message@,
    {
        ConfigError { message }
    }

    /// The message to show.
    pub fn to_string(&self) -> (r: String)
        ensures
            r@ == self@,
    {
        self.message.clone()
    }
}

} // verus!
