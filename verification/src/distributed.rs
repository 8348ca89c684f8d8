//! Errors of the distributed key-value stores that back resilience state.

use vstd::prelude::*;
use vstd::string::*;

verus! {

/// Error of a distributed store operation.
#[derive(Debug, Clone)]
pub struct DiscoveryError {
    message: String,
}

impl DiscoveryError {
    /// The error's message.
    pub closed spec fn text(&self) -> Seq<char> {
        self.message@
    }

    /// An error carrying `message`.
    pub fn new(message: String) -> (r: Self)
        ensures
            r.text() == message@,
    {
        DiscoveryError { message }
    }

    /// The message, as the error's display form prints it.
    pub fn to_display_string(&self) -> (r: String)
        ensures
            r@ == self.text(),
    {
        self.message.clone()
    }
}

} // verus!
