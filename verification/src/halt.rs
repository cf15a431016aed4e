//! The fatal error channel.
//!
//! A halt ends the synthesis that raised it. It is raised only where a value
//! known while the circuit is being built makes an operation meaningless, and
//! is kept apart from the recoverable errors of the containers.

use vstd::prelude::*;

verus! {

/// A fatal error, with the diagnostic that explains it.
#[derive(Debug)]
pub struct Halt {
    message: String,
}

impl View for Halt {
    type V = Seq<char>;

    /// The diagnostic.
    closed spec fn view(&self) -> Seq<char> {
        self.message@
    }
}

impl Halt {
    /// The diagnostic.
    pub fn message(&self) -> (r: &str)
        ensures
            r@ == self@,
    {
        self.message.as_str()
    }
}

/// Raises a fatal error with the given diagnostic.
pub fn halt(message: &str) -> (r: Halt)
    ensures
        r@ == message@,
{
    Halt { message: message.to_owned() }
}

} // verus!
