//! Error type for the embeddings fetcher.
//!
//! The fetcher itself talks to a remote service and stays outside the
//! library; only its error value, a plain message, is modelled here.

use vstd::prelude::*;

verus! {

/// A failure while obtaining an embedding, carrying a human-readable
/// message.
#[derive(Debug)]
pub struct EmbeddingError {
    pub message: String,
}

impl EmbeddingError {
    pub fn new(message: &str) -> (r: EmbeddingError)
        ensures
            r.message@ == message@,
    {
        EmbeddingError { message: message.to_owned() }
    }

    /// The stored message.
    pub fn message(&self) -> (r: &String)
        ensures
            r@ == self.message@,
    {
        &self.message
    }
}

} // verus!
