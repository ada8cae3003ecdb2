//! The error type shared by the ingestion and query paths.

use vstd::prelude::*;

verus! {

/// An error raised while embedding, chunking or indexing; `details` carries
/// the human-readable cause.
#[derive(Debug)]
pub struct EmbeddingsError {
    pub details: String,
}

impl EmbeddingsError {
    /// Builds an error carrying `msg` as its detail text.
    pub fn new(msg: &str) -> (e: EmbeddingsError)
        ensures
            e.details@ == msg@,
    {
        EmbeddingsError { details: msg.to_owned() }
    }

    /// The detail text, as the error's display form.
    pub fn to_string(&self) -> (r: String)
        ensures
            r@ == self.details@,
    {
        self.details.clone()
    }

    /// The detail text, borrowed.
    pub fn description(&self) -> (r: &str)
        ensures
            r@ == self.details@,
    {
        self.details.as_str()
    }
}

} // verus!
