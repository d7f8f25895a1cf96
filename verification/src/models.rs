//! The data carried through the search pipeline.

use vstd::prelude::*;

verus! {

/// A text snippet of the corpus. The identifier is assigned by the
/// persistence layer, so a snippet that was never stored has none.
pub struct Snippet {
    pub id: Option<i64>,
    pub title: String,
    pub content: String,
    pub language: String,
    pub description: Option<String>,
    pub tags: Option<String>,
    pub created_at: String,
    pub updated_at: String,
}

impl Clone for Snippet {
    fn clone(&self) -> (r: Self)
        ensures
            r == *self,
    {
        Snippet {
            id: self.id,
            title: self.title.clone(),
            content: self.content.clone(),
            language: self.language.clone(),
            description: match &self.description {
                Some(d) => Some(d.clone()),
                None => None,
            },
            tags: match &self.tags {
                Some(t) => Some(t.clone()),
                None => None,
            },
            created_at: self.created_at.clone(),
            updated_at: self.updated_at.clone(),
        }
    }
}

/// One entry of a ranked search answer. The similarity is carried as the
/// bit pattern of an IEEE-754 single-precision value (see [`crate::score`]).
/// The highlight is reserved for callers and never filled by this crate.
pub struct SearchResult {
    pub snippet: Snippet,
    pub score_bits: u32,
    pub highlight: Option<String>,
}

/// What is known about the local model artifacts and the engine state.
pub struct ModelInfo {
    pub name: String,
    pub path: Option<String>,
    pub size: Option<u64>,
    pub downloaded: bool,
    pub loaded: bool,
}

} // verus!
