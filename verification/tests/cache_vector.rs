use snippet_vault::cache::{apply_regenerated, EmbeddingCache};
use snippet_vault::vector::{
    decode_embedding, encode_embedding, EmbeddingVector, EMBEDDING_BYTES, EMBEDDING_DIM,
};

fn vector_of(seed: f32) -> EmbeddingVector {
    let floats: Vec<f32> = (0..EMBEDDING_DIM)
        .map(|i| seed + i as f32 * 0.001)
        .collect();
    EmbeddingVector::from_bits(floats.iter().map(|f| f.to_bits()).collect()).unwrap()
}

#[test]
fn vectors_have_exactly_the_model_dimension() {
    assert_eq!(EMBEDDING_DIM, 384);
    let v = vector_of(0.25);
    assert_eq!(v.len(), 384);
    assert!(EmbeddingVector::from_bits(vec![0u32; 383]).is_none());
    assert!(EmbeddingVector::from_bits(vec![0u32; 385]).is_none());
    assert!(EmbeddingVector::from_bits(vec![0u32; 384]).is_some());
}

#[test]
fn encoding_is_little_endian_four_bytes_per_component() {
    let v = vector_of(1.5);
    let bytes = encode_embedding(&v);
    assert_eq!(bytes.len(), EMBEDDING_BYTES);
    assert_eq!(bytes.len(), 4 * 384);
    let first = f32::from_bits(v.bits()[0]);
    assert_eq!(&bytes[0..4], &first.to_le_bytes());
    let last = f32::from_bits(v.bits()[EMBEDDING_DIM - 1]);
    assert_eq!(&bytes[EMBEDDING_BYTES - 4..], &last.to_le_bytes());
}

#[test]
fn decoding_an_encoded_vector_is_exact() {
    let v = vector_of(-0.75);
    let bytes = encode_embedding(&v);
    let back = decode_embedding(&bytes).expect("well-sized bytes must decode");
    assert_eq!(back.bits(), v.bits());
    let floats: Vec<f32> = v.bits().iter().map(|b| f32::from_bits(*b)).collect();
    let floats_back: Vec<f32> = back.bits().iter().map(|b| f32::from_bits(*b)).collect();
    assert_eq!(floats, floats_back);
}

#[test]
fn wrongly_sized_bytes_do_not_decode() {
    assert!(decode_embedding(&vec![0u8; EMBEDDING_BYTES - 1]).is_none());
    assert!(decode_embedding(&vec![0u8; EMBEDDING_BYTES + 4]).is_none());
    assert!(decode_embedding(&Vec::new()).is_none());
}

#[test]
fn stored_embedding_reads_back_equal() {
    let version = "all-MiniLM-L6-v2".to_string();
    let v = vector_of(0.5);
    let mut cache = EmbeddingCache::new();
    cache.store_embedding(7, &v, &version);
    let back = cache.get_embedding(7).expect("stored vector must be present");
    assert_eq!(back.bits(), v.bits());
}

#[test]
fn storing_again_overwrites_vector_and_version() {
    let v1 = vector_of(0.1);
    let v2 = vector_of(0.2);
    let mut cache = EmbeddingCache::new();
    cache.store_embedding(1, &v1, &"old".to_string());
    cache.store_embedding(1, &v2, &"new".to_string());
    let back = cache.get_embedding(1).unwrap();
    assert_eq!(back.bits(), v2.bits());
    assert!(cache.get_embedding_for_version(1, &"old".to_string()).is_none());
    assert!(cache.get_embedding_for_version(1, &"new".to_string()).is_some());
}

#[test]
fn version_mismatch_is_treated_as_absent() {
    let mut cache = EmbeddingCache::new();
    cache.store_embedding(4, &vector_of(0.3), &"all-MiniLM-L6-v1".to_string());
    assert!(cache.get_embedding(4).is_some());
    assert!(cache
        .get_embedding_for_version(4, &"all-MiniLM-L6-v2".to_string())
        .is_none());
}

#[test]
fn deleting_removes_only_the_given_entity() {
    let version = "v".to_string();
    let mut cache = EmbeddingCache::new();
    cache.store_embedding(1, &vector_of(0.1), &version);
    cache.store_embedding(2, &vector_of(0.2), &version);
    cache.delete_embedding(1);
    assert!(cache.get_embedding(1).is_none());
    assert!(cache.get_embedding(2).is_some());
    cache.delete_embedding(99);
    assert!(cache.get_embedding(2).is_some());
}

#[test]
fn get_all_lists_each_stored_entity_once() {
    let version = "v".to_string();
    let mut cache = EmbeddingCache::new();
    cache.store_embedding(1, &vector_of(0.1), &version);
    cache.store_embedding(2, &vector_of(0.2), &version);
    cache.store_embedding(3, &vector_of(0.3), &version);
    cache.store_embedding(2, &vector_of(0.4), &version);
    let all = cache.get_all_embeddings();
    let mut ids: Vec<i64> = all.iter().map(|(id, _)| *id).collect();
    ids.sort();
    assert_eq!(ids, vec![1, 2, 3]);
}

#[test]
fn regeneration_counts_successes_and_skips_failures() {
    let old_version = "old".to_string();
    let new_version = "new".to_string();
    let mut cache = EmbeddingCache::new();
    cache.store_embedding(1, &vector_of(0.1), &old_version);
    cache.store_embedding(2, &vector_of(0.2), &old_version);

    let fresh1 = vector_of(0.5);
    let fresh3 = vector_of(0.7);
    let outcomes = vec![
        (1i64, Some(fresh1.clone())),
        (2i64, None),
        (3i64, Some(fresh3.clone())),
    ];
    let count = apply_regenerated(&mut cache, &new_version, &outcomes);
    assert_eq!(count, 2);

    let v1 = cache.get_embedding_for_version(1, &new_version).unwrap();
    assert_eq!(v1.bits(), fresh1.bits());
    assert!(cache.get_embedding_for_version(2, &new_version).is_none());
    assert!(cache.get_embedding_for_version(2, &old_version).is_some());
    let v3 = cache.get_embedding_for_version(3, &new_version).unwrap();
    assert_eq!(v3.bits(), fresh3.bits());
}
