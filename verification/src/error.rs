use vstd::prelude::*;

verus! {

/// The failures the interpreter core can surface to its caller.
#[derive(Clone, Copy, Debug, PartialEq, Eq, Structural)]
pub enum Error {
    /// A token is neither numeric, a known word, nor a recognized operator.
    NotFound,
    /// An operator needed more operands than the stack holds.
    StackUnderflow,
    /// The cursor ran past the end of the token buffer.
    TokenOutOfBounds,
}

impl Error {
    /// A human-readable description of the failure.
    pub fn message(&self) -> (r: String)
        ensures
            *self == Error::NotFound ==> r@ == "Command not found."@,
            *self == Error::StackUnderflow ==> r@ == "Stack underflow."@,
            *self == Error::TokenOutOfBounds ==> r@ == "Token out of bounds."@,
    {
        match self {
            Error::NotFound => String::from_str("Command not found."),
            Error::StackUnderflow => String::from_str("Stack underflow."),
            Error::TokenOutOfBounds => String::from_str("Token out of bounds."),
        }
    }
}

} // verus!
