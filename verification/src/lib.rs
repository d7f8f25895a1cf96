//! Offline semantic search over a small personal corpus of text snippets.
//!
//! The crate covers the embedding pipeline around a local transformer model:
//! deriving the text that is embedded for a snippet, encoding that text into
//! token arrays, caching embedding vectors against the model version that
//! produced them, and ranking corpus entries against a query vector.
//!
//! Floating-point arithmetic cannot be verified here, so every similarity
//! value and every vector component is carried as the bit pattern of an
//! IEEE-754 single-precision value (`u32`). The unverified shell that runs
//! the numeric model converts between `f32` and these bit patterns at the
//! boundary; everything this crate states about ordering, filtering,
//! caching and encoding is exact at the bit level.

pub mod cache;
pub mod errors;
pub mod lifecycle;
pub mod models;
pub mod rank;
pub mod score;
pub mod storage;
pub mod text;
pub mod tokenizer;
pub mod vector;
