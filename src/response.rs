use vstd::prelude::*;

verus! {

/// What the server answers to a proof request.
#[derive(Debug)]
pub enum VerificationResponse {
    /// The proof verified; `result` echoes the public inputs.
    Valid { result: Option<Vec<String>> },
    /// The proof was well formed but false.
    Invalid { reason: String },
    /// The request could not be judged, or a reaction failed.
    Error { error: String },
}

} // verus!
