//! The error taxonomy of the pipeline.
//!
//! Each variant carries the message of the failure it reports. A stale
//! cache record (one whose model version differs from the active model) is
//! not an error anywhere in this crate: ranking treats such a record as
//! absent.

use vstd::prelude::*;

verus! {

/// Tokenizing failed: the text could not be encoded or the vocabulary
/// artifact is malformed. Never retried.
#[derive(Debug)]
pub struct TokenizationError {
    pub message: String,
}

/// Loading the model failed, either while obtaining the artifacts or
/// while parsing them. Fatal to that load attempt only.
#[derive(Debug)]
pub enum ModelError {
    Download(String),
    Load(String),
}

/// Generating an embedding failed. Surfaced per call and never retried.
#[derive(Debug)]
pub enum GenerationError {
    ModelNotLoaded,
    Tokenization(String),
    Inference(String),
}

} // verus!
