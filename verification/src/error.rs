//! What can go wrong with a request, as a tag and as a message.

use vstd::prelude::*;

verus! {

/// A failure told in words. The message is for logs; callers must not take
/// decisions on it.
#[derive(Clone, Debug, PartialEq, Eq)]
pub struct VerifierError(pub String);

impl View for VerifierError {
    type V = Seq<char>;

    open spec fn view(&self) -> Seq<char> {
        self.0@
    }
}

impl VerifierError {
    /// The message.
    pub fn message(&self) -> (text: &String)
        ensures
            text@ == self@,
    {
        &self.0
    }
}

/// The ways in which a request fails before it has an answer.
#[derive(Clone, Copy, Debug, PartialEq, Eq, Structural)]
pub enum GatewayError {
    /// A field that the request needs was not uploaded.
    MissingField,
    /// An uploaded field does not decompress.
    Corrupt,
    /// The envelope ends too early.
    Truncated,
    /// The envelope is followed by further bytes.
    Malformed,
    /// The proof system produced no proof, or one that no envelope can hold.
    Generation,
}

} // verus!
