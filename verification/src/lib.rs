//! `patent`: the verified core of a prior-art search for developer-tool ideas.

use vstd::prelude::*;

pub mod headline;
pub mod model;
pub mod ollama;
pub mod query;
pub mod rank;
pub mod sources;
pub mod text;
pub mod tui;
pub mod verdict;

pub use model::{Match, Query, Saturation, Source, Verdict};

verus! {

/// Library-level error type.
#[derive(Debug)]
pub enum Error {
    /// An HTTP request failed; carries the transport's message.
    Http(String),
    /// A response could not be parsed.
    Parse(String),
    /// The Ollama daemon could not be reached at the given endpoint.
    OllamaUnreachable(String),
    /// Ollama is reachable but rejected the request.
    OllamaModel(String),
    /// Embedding the texts failed.
    Embedding(String),
}

/// Crate result alias.
pub type Result<T> = std::result::Result<T, Error>;

} // verus!
