use vstd::prelude::*;

verus! {

/// Failures of the peripheral setup around the synthesis engine.
#[derive(Debug, Clone, Copy, PartialEq, Eq, Structural)]
pub enum Error {
    /// Failed to initialize devices on the I²C bus
    InitializeError,
    /// Invalid input data provided
    InvalidInputData,
}

impl Error {
    /// A human-readable description of the error.
    pub fn message(&self) -> (r: &'static str)
        ensures
            *self == Error::InitializeError ==> r@ == " Failed to initialize devices on the I²C bus"@,
            *self == Error::InvalidInputData ==> r@ == "Invalid input data provided"@,
    {
        match self {
            Error::InitializeError => " Failed to initialize devices on the I²C bus",
            Error::InvalidInputData => "Invalid input data provided",
        }
    }
}

} // verus!
