//! The text that is embedded for a snippet.
//!
//! A snippet is embedded as the concatenation of its title, its optional
//! description and its content, separated by single spaces and truncated
//! to a bounded number of characters so that the compute per snippet stays
//! bounded.

use vstd::prelude::*;
use vstd::string::StrSliceExecFns;
use vstd::string::StringExecFns;

use crate::models::Snippet;

verus! {

/// The character bound applied before tokenizing.
pub const MAX_EMBED_TEXT_CHARS: usize = 2000;

/// The untruncated text derived from a snippet: title, optional
/// description and content, separated by single spaces.
pub open spec fn full_snippet_text(s: Snippet) -> Seq<char> {
    let head = match s.description {
        Some(d) => s.title@ + seq![' '] + d@,
        None => s.title@,
    };
    head + seq![' '] + s.content@
}

/// The first `bound` characters of `t`, or all of `t` if it is shorter.
pub open spec fn truncated_chars(t: Seq<char>, bound: int) -> Seq<char> {
    if t.len() <= bound {
        t
    } else {
        t.subrange(0, bound)
    }
}

/// Bounds a text to the first [`MAX_EMBED_TEXT_CHARS`] characters; this
/// runs on every text before it is tokenized, so the compute per call
/// stays bounded.
pub fn truncate_embed_text(text: &str) -> (t: String)
    ensures
        t@ == truncated_chars(text@, MAX_EMBED_TEXT_CHARS as int),
{
    let len = text.unicode_len();
    if len > MAX_EMBED_TEXT_CHARS {
        text.substring_char(0, MAX_EMBED_TEXT_CHARS).to_owned()
    } else {
        text.to_owned()
    }
}

/// Derives the text that is embedded for a snippet.
pub fn generate_snippet_text(snippet: &Snippet) -> (text: String)
    ensures
        text@ == truncated_chars(
            full_snippet_text(*snippet),
            MAX_EMBED_TEXT_CHARS as int,
        ),
{
    proof {
        reveal_strlit(" ");
        assert(" "@ =~= seq![' ']);
    }
    let mut text = snippet.title.clone();
    if let Some(desc) = &snippet.description {
        text.append(" ");
        text.append(desc.as_str());
    }
    text.append(" ");
    text.append(snippet.content.as_str());
    assert(text@ =~= full_snippet_text(*snippet));
    truncate_embed_text(text.as_str())
}

} // verus!
