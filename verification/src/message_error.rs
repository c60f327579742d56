use vstd::prelude::*;

verus! {

/// The error taxonomy of the message pipeline. A message that fails with
/// either variant is dropped; neither is fatal to the processing loop.
#[derive(Debug, Clone, Copy, PartialEq, Eq, Structural)]
pub enum MessageError {
    /// The raw message body was empty; no decode was attempted.
    EmptyMessageError,
    /// The message body does not match the expected envelope shape.
    ParseMessageError,
}

impl MessageError {
    /// A human-readable description of the error.
    pub fn describe(&self) -> (r: &'static str)
        ensures
            *self is EmptyMessageError ==> r@ == "Received empty message error"@,
            *self is ParseMessageError ==> r@ == "Cannot parse message payload error"@,
    {
        match self {
            MessageError::EmptyMessageError => "Received empty message error",
            MessageError::ParseMessageError => "Cannot parse message payload error",
        }
    }
}

} // verus!
