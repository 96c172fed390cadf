//! The error reported by the operations on data blocks.

use vstd::prelude::*;
use vstd::string::StringExecFns;

verus! {

/// Why an operation on a data block failed.
#[derive(Clone, Copy, Debug, PartialEq, Eq, Structural)]
pub enum SqrlError {
    /// The authentication tag did not verify: the rescue code is wrong, or the
    /// block was altered after it was sealed.
    AuthenticationFailure,
    /// The input ended before a fixed-width field was complete, or a field
    /// held a value outside its range.
    StructuralParseError,
}

/// What a fallible operation returned, the value of a success taken by its
/// view.
pub open spec fn outcome<T: View>(result: Result<T, SqrlError>) -> Result<T::V, SqrlError> {
    match result {
        Ok(value) => Ok(value@),
        Err(e) => Err(e),
    }
}

impl SqrlError {
    /// The text of the message that `message` returns.
    pub open spec fn message_text(self) -> Seq<char> {
        match self {
            SqrlError::AuthenticationFailure => "Decryption failed. Check your password!"@,
            SqrlError::StructuralParseError => "Invalid binary data: a field is truncated or out of range"@,
        }
    }

    /// A human-readable description of the failure.
    pub fn message(&self) -> (text: String)
        ensures
            text@ == self.message_text(),
    {
        match self {
            SqrlError::AuthenticationFailure => String::from_str(
                "Decryption failed. Check your password!",
            ),
            SqrlError::StructuralParseError => String::from_str(
                "Invalid binary data: a field is truncated or out of range",
            ),
        }
    }
}

} // verus!
