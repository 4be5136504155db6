//! The error taxonomy of the verified pipeline core. Failures of
//! downstream forwarding are handled by the caller and never surface here.
use vstd::prelude::*;

verus! {

/// Why a run cannot continue.
#[derive(Clone, Copy, PartialEq, Eq, Structural, Debug)]
pub enum PipelineError {
    /// A scan-type section of the results document has an unexpected
    /// shape.
    MalformedInput,
    /// The policy document does not parse or does not have the expected
    /// shape.
    PolicySource,
}

impl PipelineError {
    /// A fixed description for banners.
    pub fn message(&self) -> (r: &'static str)
        ensures
            *self is MalformedInput ==> r@ == "malformed scan results"@,
            *self is PolicySource ==> r@ == "policy document unavailable or malformed"@,
    {
        match self {
            PipelineError::MalformedInput => "malformed scan results",
            PipelineError::PolicySource => "policy document unavailable or malformed",
        }
    }
}

} // verus!
