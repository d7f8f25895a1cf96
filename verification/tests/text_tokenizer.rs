use snippet_vault::models::Snippet;
use snippet_vault::text::{generate_snippet_text, truncate_embed_text, MAX_EMBED_TEXT_CHARS};
use snippet_vault::tokenizer::TokenizerAdapter;

fn snippet(title: &str, description: Option<&str>, content: &str) -> Snippet {
    Snippet {
        id: Some(1),
        title: title.to_string(),
        content: content.to_string(),
        language: "rust".to_string(),
        description: description.map(|d| d.to_string()),
        tags: None,
        created_at: "2024-01-01T00:00:00Z".to_string(),
        updated_at: "2024-01-01T00:00:00Z".to_string(),
    }
}

const TINY_TOKENIZER: &str = r#"{
  "version": "1.0",
  "truncation": null,
  "padding": null,
  "added_tokens": [],
  "normalizer": null,
  "pre_tokenizer": { "type": "Whitespace" },
  "post_processor": null,
  "decoder": null,
  "model": {
    "type": "WordLevel",
    "vocab": { "hello": 0, "world": 1, "[UNK]": 2 },
    "unk_token": "[UNK]"
  }
}"#;

#[test]
fn snippet_text_joins_title_description_and_content() {
    let s = snippet("binary search", Some("sorted lookup"), "fn bsearch() {}");
    assert_eq!(
        generate_snippet_text(&s),
        "binary search sorted lookup fn bsearch() {}"
    );
}

#[test]
fn snippet_text_without_description_has_a_single_separator() {
    let s = snippet("title", None, "content");
    assert_eq!(generate_snippet_text(&s), "title content");
}

#[test]
fn snippet_text_truncates_to_the_character_bound() {
    let long_content = "x".repeat(5000);
    let s = snippet("t", None, &long_content);
    let text = generate_snippet_text(&s);
    assert_eq!(text.chars().count(), MAX_EMBED_TEXT_CHARS);
    assert_eq!(MAX_EMBED_TEXT_CHARS, 2000);
    assert!(text.starts_with("t x"));
}

#[test]
fn query_text_is_bounded_before_tokenizing() {
    let long = "q".repeat(2500);
    let bounded = truncate_embed_text(&long);
    assert_eq!(bounded.chars().count(), MAX_EMBED_TEXT_CHARS);
    assert_eq!(truncate_embed_text("short query"), "short query");
}

#[test]
fn short_text_is_not_truncated() {
    let s = snippet("short", None, "text");
    assert_eq!(generate_snippet_text(&s).chars().count(), "short text".len());
}

#[test]
fn tokenizer_encodes_known_words_to_their_ids() {
    let adapter = TokenizerAdapter::from_bytes(TINY_TOKENIZER.as_bytes())
        .expect("the tiny vocabulary must parse");
    let encoded = adapter.encode("hello world").expect("encoding must succeed");
    assert_eq!(encoded.input_ids, vec![0i64, 1]);
    assert_eq!(encoded.attention_mask, vec![1i64, 1]);
    assert_eq!(encoded.token_type_ids, vec![0i64, 0]);
}

#[test]
fn tokenizer_arrays_always_share_one_length() {
    let adapter = TokenizerAdapter::from_bytes(TINY_TOKENIZER.as_bytes()).unwrap();
    for text in ["hello", "world hello world", "unknown words appear", ""] {
        let encoded = adapter.encode(text).expect("encoding must succeed");
        assert_eq!(encoded.input_ids.len(), encoded.attention_mask.len());
        assert_eq!(encoded.input_ids.len(), encoded.token_type_ids.len());
        assert!(encoded.attention_mask.iter().all(|&m| m == 0 || m == 1));
        assert!(encoded.token_type_ids.iter().all(|&t| t == 0));
    }
}

#[test]
fn unknown_words_map_to_the_unknown_token() {
    let adapter = TokenizerAdapter::from_bytes(TINY_TOKENIZER.as_bytes()).unwrap();
    let encoded = adapter.encode("hello stranger").unwrap();
    assert_eq!(encoded.input_ids, vec![0i64, 2]);
}

#[test]
fn malformed_vocabulary_fails_to_parse() {
    assert!(TokenizerAdapter::from_bytes(b"not a tokenizer").is_err());
}
