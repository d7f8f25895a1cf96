use snippet_vault::models::Snippet;
use snippet_vault::rank::{rank_candidates, select_candidates};
use snippet_vault::score::{
    clamp_score, passes_floor, score_exceeds, NEG_ONE_BITS, ONE_BITS, RELEVANCE_FLOOR_BITS,
};
use snippet_vault::cache::EmbeddingCache;
use snippet_vault::vector::{EmbeddingVector, EMBEDDING_DIM};

fn snippet(id: i64, title: &str) -> Snippet {
    Snippet {
        id: Some(id),
        title: title.to_string(),
        content: String::new(),
        language: "text".to_string(),
        description: None,
        tags: None,
        created_at: "2024-01-01T00:00:00Z".to_string(),
        updated_at: "2024-01-01T00:00:00Z".to_string(),
    }
}

fn unit_vector(weight_first: f32) -> EmbeddingVector {
    let mut floats = vec![0.0f32; EMBEDDING_DIM];
    floats[0] = weight_first;
    floats[1] = (1.0 - weight_first * weight_first).sqrt();
    let norm: f32 = floats.iter().map(|x| x * x).sum::<f32>().sqrt();
    for x in floats.iter_mut() {
        *x /= norm;
    }
    EmbeddingVector::from_bits(floats.iter().map(|f| f.to_bits()).collect()).unwrap()
}

fn dot_bits(a: &EmbeddingVector, b: &EmbeddingVector) -> u32 {
    let dot: f32 = a
        .bits()
        .iter()
        .zip(b.bits().iter())
        .map(|(x, y)| f32::from_bits(*x) * f32::from_bits(*y))
        .sum();
    dot.to_bits()
}

#[test]
fn score_constants_are_the_expected_bit_patterns() {
    assert_eq!(ONE_BITS, 1.0f32.to_bits());
    assert_eq!(NEG_ONE_BITS, (-1.0f32).to_bits());
    assert_eq!(RELEVANCE_FLOOR_BITS, 0.3f32.to_bits());
}

#[test]
fn score_key_orders_as_the_floats_do() {
    let samples = [-1.0f32, -0.7, -0.25, 0.1, 0.3, 0.3000001, 0.5, 0.99, 1.0];
    for &a in samples.iter() {
        for &b in samples.iter() {
            assert_eq!(
                score_exceeds(a.to_bits(), b.to_bits()),
                a > b,
                "ordering disagrees at {a} vs {b}"
            );
        }
    }
}

#[test]
fn clamp_keeps_scores_already_in_range() {
    for &x in [-1.0f32, -0.4, 0.0, 0.3, 0.8, 1.0].iter() {
        assert_eq!(clamp_score(x.to_bits()), x.to_bits());
    }
}

#[test]
fn clamp_absorbs_drift_and_nan() {
    assert_eq!(clamp_score(1.0000001f32.to_bits()), ONE_BITS);
    assert_eq!(clamp_score(2.5f32.to_bits()), ONE_BITS);
    assert_eq!(clamp_score((-1.5f32).to_bits()), NEG_ONE_BITS);
    assert_eq!(clamp_score(f32::NAN.to_bits()), NEG_ONE_BITS);
    assert_eq!(clamp_score(f32::INFINITY.to_bits()), ONE_BITS);
    assert_eq!(clamp_score(f32::NEG_INFINITY.to_bits()), NEG_ONE_BITS);
}

#[test]
fn self_similarity_of_a_unit_vector_clamps_to_about_one() {
    let v = unit_vector(0.6);
    let bits = clamp_score(dot_bits(&v, &v));
    let cos = f32::from_bits(bits);
    assert!(cos <= 1.0);
    assert!((cos - 1.0).abs() < 1e-5);
}

#[test]
fn floor_is_strict_at_the_threshold() {
    assert!(!passes_floor(0.3f32.to_bits()));
    assert!(!passes_floor(0.29f32.to_bits()));
    assert!(passes_floor(0.3000001f32.to_bits()));
    assert!(passes_floor(1.0f32.to_bits()));
}

#[test]
fn no_result_at_or_below_the_relevance_floor() {
    let scored = vec![
        (snippet(1, "at the floor"), 0.3f32.to_bits()),
        (snippet(2, "below"), 0.2f32.to_bits()),
        (snippet(3, "negative"), (-0.5f32).to_bits()),
        (snippet(4, "not a number"), f32::NAN.to_bits()),
        (snippet(5, "just above"), 0.31f32.to_bits()),
    ];
    let results = rank_candidates(&scored);
    assert_eq!(results.len(), 1);
    assert_eq!(results[0].snippet.id, Some(5));
    for r in results.iter() {
        assert!(f32::from_bits(r.score_bits) > 0.3);
    }
}

#[test]
fn results_sort_descending_and_ties_keep_input_order() {
    let scored = vec![
        (snippet(10, "first high"), 0.9f32.to_bits()),
        (snippet(11, "middle"), 0.5f32.to_bits()),
        (snippet(12, "second high"), 0.9f32.to_bits()),
        (snippet(13, "low"), 0.4f32.to_bits()),
    ];
    let results = rank_candidates(&scored);
    let ids: Vec<Option<i64>> = results.iter().map(|r| r.snippet.id).collect();
    assert_eq!(ids, vec![Some(10), Some(12), Some(11), Some(13)]);
    for w in results.windows(2) {
        assert!(f32::from_bits(w[0].score_bits) >= f32::from_bits(w[1].score_bits));
    }
    assert!(results.iter().all(|r| r.highlight.is_none()));
}

#[test]
fn closer_text_ranks_strictly_higher() {
    // Entity A stands in for "binary search algorithm implementation",
    // entity B for "recipe for chocolate cake"; A's stored vector lies
    // much closer to the query vector than B's.
    let version = "all-MiniLM-L6-v2".to_string();
    let query = unit_vector(1.0);
    let vector_a = unit_vector(0.9);
    let vector_b = unit_vector(0.35);

    let mut cache = EmbeddingCache::new();
    cache.store_embedding(1, &vector_a, &version);
    cache.store_embedding(2, &vector_b, &version);

    let snippets = vec![
        snippet(1, "binary search algorithm implementation"),
        snippet(2, "recipe for chocolate cake"),
    ];
    let candidates = select_candidates(&snippets, &cache, &version);
    assert_eq!(candidates.len(), 2);
    let scored: Vec<(Snippet, u32)> = candidates
        .iter()
        .map(|(s, v)| (s.clone(), dot_bits(&query, v)))
        .collect();
    let results = rank_candidates(&scored);
    assert_eq!(results.len(), 2);
    assert_eq!(results[0].snippet.id, Some(1));
    assert_eq!(results[1].snippet.id, Some(2));
    assert!(
        f32::from_bits(results[0].score_bits) > f32::from_bits(results[1].score_bits)
    );
}

#[test]
fn entity_without_cached_embedding_is_excluded_without_error() {
    let version = "all-MiniLM-L6-v2".to_string();
    let mut cache = EmbeddingCache::new();
    cache.store_embedding(1, &unit_vector(0.9), &version);

    let snippets = vec![
        snippet(1, "cached"),
        snippet(3, "never embedded"),
        Snippet { id: None, ..snippet(0, "no id at all") },
    ];
    let candidates = select_candidates(&snippets, &cache, &version);
    assert_eq!(candidates.len(), 1);
    assert_eq!(candidates[0].0.id, Some(1));
}

#[test]
fn empty_cache_yields_an_empty_result() {
    let version = "all-MiniLM-L6-v2".to_string();
    let cache = EmbeddingCache::new();
    let snippets = vec![snippet(1, "anything")];
    let candidates = select_candidates(&snippets, &cache, &version);
    assert!(candidates.is_empty());
    let results = rank_candidates(&Vec::new());
    assert!(results.is_empty());
}

#[test]
fn stale_records_are_excluded_until_regenerated() {
    let old_version = "all-MiniLM-L6-v1".to_string();
    let new_version = "all-MiniLM-L6-v2".to_string();
    let vector = unit_vector(0.8);

    let mut cache = EmbeddingCache::new();
    cache.store_embedding(1, &vector, &old_version);

    let snippets = vec![snippet(1, "stale until regenerated")];
    assert!(select_candidates(&snippets, &cache, &new_version).is_empty());

    let fresh = unit_vector(0.7);
    let outcomes = vec![(1i64, Some(fresh.clone()))];
    let count = snippet_vault::cache::apply_regenerated(&mut cache, &new_version, &outcomes);
    assert_eq!(count, 1);

    let candidates = select_candidates(&snippets, &cache, &new_version);
    assert_eq!(candidates.len(), 1);
    assert_eq!(candidates[0].1.bits(), fresh.bits());
}
