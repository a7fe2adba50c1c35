//! The error body of the resource service, which answers arbitrary HTTP
//! requests (in practice only the listing of available relations).

use vstd::prelude::*;

verus! {

/// The JSON error body returned to a resource caller.
#[derive(Clone, Debug, PartialEq, Eq)]
pub struct JsonError {
    error: String,
}

impl View for JsonError {
    type V = Seq<char>;

    closed spec fn view(&self) -> Seq<char> {
        self.error@
    }
}

impl JsonError {
    /// Wrap an error message.
    pub fn new(error: String) -> (r: Self)
        ensures
            r@ == error@,
    {
        JsonError { error }
    }

    /// The message this body carries.
    pub fn message(&self) -> (r: &str)
        ensures
            r@ == self@,
    {
        self.error.as_str()
    }
}

} // verus!
