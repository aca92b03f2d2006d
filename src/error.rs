//! The errors that a search reports.

use vstd::prelude::*;
use vstd::string::*;

verus! {

/// Errors that can occur during generation.
#[derive(Debug, Clone)]
pub enum GeneratorError {
    /// A GPU device could not be used, or failed while running.
    Cuda(String),
    /// The output directory or a key file could not be written.
    Io(String),
    /// A pattern is not lowercase base32, or is empty or too long.
    InvalidPrefix(String),
    /// The search was cancelled before every pattern was found.
    Stopped,
    /// A worker or channel could not be set up.
    Channel(String),
    /// The search was asked for no pattern at all.
    NoPatterns,
}

impl GeneratorError {
    /// The text that describes the error to a person.
    pub fn message(&self) -> (r: String)
        ensures
            r@ == self.message_spec(),
    {
        match self {
            GeneratorError::Cuda(s) => {
                let mut m = String::from_str("CUDA error: ");
                m.append(s.as_str());
                m
            },
            GeneratorError::Io(s) => {
                let mut m = String::from_str("IO error: ");
                m.append(s.as_str());
                m
            },
            GeneratorError::InvalidPrefix(s) => {
                let mut m = String::from_str("Invalid prefix: ");
                m.append(s.as_str());
                m
            },
            GeneratorError::Stopped => String::from_str("Generation stopped by user"),
            GeneratorError::Channel(s) => {
                let mut m = String::from_str("Channel error: ");
                m.append(s.as_str());
                m
            },
            GeneratorError::NoPatterns => String::from_str("No pattern to search for"),
        }
    }

    /// The text of `message`.
    pub open spec fn message_spec(&self) -> Seq<char> {
        match self {
            GeneratorError::Cuda(s) => "CUDA error: "@ + s@,
            GeneratorError::Io(s) => "IO error: "@ + s@,
            GeneratorError::InvalidPrefix(s) => "Invalid prefix: "@ + s@,
            GeneratorError::Stopped => "Generation stopped by user"@,
            GeneratorError::Channel(s) => "Channel error: "@ + s@,
            GeneratorError::NoPatterns => "No pattern to search for"@,
        }
    }
}

} // verus!
