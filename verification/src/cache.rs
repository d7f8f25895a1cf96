//! The embedding cache: at most one stored vector per entity id, each
//! tagged with the version of the model that produced it.
//!
//! The cache is a derived, rebuildable index keyed by entity id. It never
//! computes a similarity; it only stores, hands out and deletes vectors.
//! A record whose version tag differs from the version a reader asks for
//! is treated as absent by [`EmbeddingCache::get_embedding_for_version`];
//! that is how stale records are excluded from ranking.

use vstd::prelude::*;

use crate::vector::EmbeddingVector;

verus! {

/// One cached embedding: the entity it belongs to, the vector, and the
/// version tag of the model that produced it.
pub struct EmbeddingRecord {
    pub id: i64,
    pub vector: EmbeddingVector,
    pub version: String,
}

/// The key/value store of embedding records. Its view is a map from
/// entity id to the pair of the vector's component patterns and the
/// version tag under which the vector was stored.
pub struct EmbeddingCache {
    records: Vec<EmbeddingRecord>,
}

/// The map described by a record list: later records win, as an upsert
/// demands.
spec fn map_of(records: Seq<EmbeddingRecord>) -> Map<i64, (Seq<u32>, Seq<char>)>
    decreases records.len(),
{
    if records.len() == 0 {
        Map::empty()
    } else {
        map_of(records.drop_last()).insert(
            records.last().id,
            (records.last().vector@, records.last().version@),
        )
    }
}

/// No two records of the list share an id.
spec fn ids_unique(records: Seq<EmbeddingRecord>) -> bool {
    forall|i: int, j: int|
        0 <= i < j < records.len() ==> records[i].id != records[j].id
}

impl View for EmbeddingCache {
    type V = Map<i64, (Seq<u32>, Seq<char>)>;

    closed spec fn view(&self) -> Map<i64, (Seq<u32>, Seq<char>)> {
        map_of(self.records@)
    }
}

/// An id held by no record of the list is not in the map.
proof fn lemma_map_of_absent(records: Seq<EmbeddingRecord>, k: i64)
    requires
        forall|i: int| 0 <= i < records.len() ==> records[i].id != k,
    ensures
        !map_of(records).contains_key(k),
    decreases records.len(),
{
    if records.len() > 0 {
        lemma_map_of_absent(records.drop_last(), k);
    }
}

/// With unique ids, the record at any index is what the map holds for
/// its id.
proof fn lemma_map_of_found(records: Seq<EmbeddingRecord>, i: int)
    requires
        ids_unique(records),
        0 <= i < records.len(),
    ensures
        map_of(records).contains_key(records[i].id),
        map_of(records)[records[i].id] == (records[i].vector@, records[i].version@),
    decreases records.len(),
{
    if i < records.len() - 1 {
        lemma_map_of_found(records.drop_last(), i);
    }
}

/// Every id of the map is held by some record of the list.
proof fn lemma_map_of_contains(records: Seq<EmbeddingRecord>, k: i64)
    requires
        map_of(records).contains_key(k),
    ensures
        exists|i: int| 0 <= i < records.len() && records[i].id == k,
    decreases records.len(),
{
    if records.len() > 0 {
        if records.last().id == k {
            assert(records[records.len() - 1].id == k);
        } else {
            lemma_map_of_contains(records.drop_last(), k);
        }
    }
}

/// Removing a record keeps the remaining ids unique and leaves no record
/// with the removed record's id.
proof fn lemma_remove_keeps_unique(records: Seq<EmbeddingRecord>, i: int)
    requires
        ids_unique(records),
        0 <= i < records.len(),
    ensures
        ids_unique(records.remove(i)),
        forall|j: int|
            0 <= j < records.remove(i).len() ==> records.remove(i)[j].id != records[i].id,
{
}

/// With unique ids, removing the record at an index removes exactly its
/// id from the map.
proof fn lemma_map_of_remove(records: Seq<EmbeddingRecord>, i: int)
    requires
        ids_unique(records),
        0 <= i < records.len(),
    ensures
        map_of(records.remove(i)) == map_of(records).remove(records[i].id),
    decreases records.len(),
{
    if i == records.len() - 1 {
        assert(records.remove(i) =~= records.drop_last());
        lemma_map_of_absent(records.drop_last(), records[i].id);
        assert(map_of(records.drop_last()) =~= map_of(records).remove(records[i].id));
    } else {
        assert(records.remove(i).drop_last() =~= records.drop_last().remove(i));
        assert(records.remove(i).last() == records.last());
        lemma_map_of_remove(records.drop_last(), i);
        assert(map_of(records.remove(i)) =~= map_of(records).remove(records[i].id));
    }
}

/// Finds the index of the record holding `id`, if one does.
fn find_index(records: &Vec<EmbeddingRecord>, id: i64) -> (r: Option<usize>)
    ensures
        match r {
            Some(i) => i < records@.len() && records@[i as int].id == id,
            None => forall|j: int| 0 <= j < records@.len() ==> records@[j].id != id,
        },
{
    let mut i: usize = 0;
    while i < records.len()
        invariant
            i <= records@.len(),
            forall|j: int| 0 <= j < i ==> records@[j].id != id,
        decreases records@.len() - i,
    {
        if records[i].id == id {
            return Some(i);
        }
        i = i + 1;
    }
    None
}

impl EmbeddingCache {
    #[verifier::type_invariant]
    spec fn well_formed(self) -> bool {
        ids_unique(self.records@)
    }

    /// An empty cache.
    pub fn new() -> (c: EmbeddingCache)
        ensures
            c@ == Map::<i64, (Seq<u32>, Seq<char>)>::empty(),
    {
        let c = EmbeddingCache { records: Vec::new() };
        proof {
            assert(c@ =~= Map::<i64, (Seq<u32>, Seq<char>)>::empty());
        }
        c
    }

    /// Stores a vector for an entity under a version tag, overwriting any
    /// prior vector and tag for that entity.
    pub fn store_embedding(&mut self, id: i64, vector: &EmbeddingVector, version: &String)
        ensures
            final(self)@ == old(self)@.insert(id, (vector@, version@)),
    {
        proof {
            use_type_invariant(&*self);
        }
        let ghost m0 = self@;
        let mut records: Vec<EmbeddingRecord> = Vec::new();
        core::mem::swap(&mut records, &mut self.records);
        let ghost r0 = records@;
        match find_index(&records, id) {
            Some(i) => {
                proof {
                    lemma_map_of_remove(r0, i as int);
                    lemma_remove_keeps_unique(r0, i as int);
                }
                records.remove(i);
            },
            None => {},
        }
        let ghost r1 = records@;
        let record = EmbeddingRecord { id, vector: vector.clone(), version: version.clone() };
        records.push(record);
        proof {
            assert(records@.drop_last() =~= r1);
            assert(forall|j: int| 0 <= j < r1.len() ==> r1[j].id != id);
            assert(ids_unique(records@));
            assert(map_of(records@) =~= m0.insert(id, (vector@, version@)));
        }
        self.records = records;
    }

    /// Deletes whatever the cache holds for an entity; deleting an absent
    /// entity changes nothing.
    pub fn delete_embedding(&mut self, id: i64)
        ensures
            final(self)@ == old(self)@.remove(id),
    {
        proof {
            use_type_invariant(&*self);
        }
        let ghost m0 = self@;
        let mut records: Vec<EmbeddingRecord> = Vec::new();
        core::mem::swap(&mut records, &mut self.records);
        let ghost r0 = records@;
        match find_index(&records, id) {
            Some(i) => {
                proof {
                    lemma_map_of_remove(r0, i as int);
                    lemma_remove_keeps_unique(r0, i as int);
                }
                records.remove(i);
            },
            None => {
                proof {
                    lemma_map_of_absent(r0, id);
                    assert(map_of(r0) =~= m0.remove(id));
                }
            },
        }
        self.records = records;
    }

    /// The vector stored for an entity, whatever its version tag.
    pub fn get_embedding(&self, id: i64) -> (r: Option<EmbeddingVector>)
        ensures
            match r {
                Some(v) => self@.contains_key(id) && v@ == self@[id].0,
                None => !self@.contains_key(id),
            },
    {
        proof {
            use_type_invariant(&*self);
        }
        match find_index(&self.records, id) {
            Some(i) => {
                proof {
                    lemma_map_of_found(self.records@, i as int);
                }
                Some(self.records[i].vector.clone())
            },
            None => {
                proof {
                    lemma_map_of_absent(self.records@, id);
                }
                None
            },
        }
    }

    /// The vector stored for an entity under exactly the given version
    /// tag. A record stored under any other tag is stale with respect to
    /// that version and is treated as absent.
    pub fn get_embedding_for_version(&self, id: i64, version: &String) -> (r: Option<
        EmbeddingVector,
    >)
        ensures
            match r {
                Some(v) => self@.contains_key(id) && self@[id].1 == version@ && v@ == self@[id].0,
                None => !self@.contains_key(id) || self@[id].1 != version@,
            },
    {
        proof {
            use_type_invariant(&*self);
        }
        match find_index(&self.records, id) {
            Some(i) => {
                proof {
                    lemma_map_of_found(self.records@, i as int);
                }
                if self.records[i].version == *version {
                    Some(self.records[i].vector.clone())
                } else {
                    None
                }
            },
            None => {
                proof {
                    lemma_map_of_absent(self.records@, id);
                }
                None
            },
        }
    }

    /// Every stored pair of entity id and vector, each id once, in no
    /// promised order.
    pub fn get_all_embeddings(&self) -> (r: Vec<(i64, EmbeddingVector)>)
        ensures
            forall|k: int|
                0 <= k < r@.len() ==> self@.contains_key(#[trigger] r@[k].0) && r@[k].1@
                    == self@[r@[k].0].0,
            forall|id: i64|
                self@.contains_key(id) ==> exists|k: int|
                    0 <= k < r@.len() && #[trigger] r@[k].0 == id,
            forall|k1: int, k2: int| 0 <= k1 < k2 < r@.len() ==> r@[k1].0 != r@[k2].0,
    {
        proof {
            use_type_invariant(&*self);
        }
        let mut out: Vec<(i64, EmbeddingVector)> = Vec::new();
        let mut i: usize = 0;
        while i < self.records.len()
            invariant
                i <= self.records@.len(),
                out@.len() == i,
                forall|j: int|
                    0 <= j < i ==> (#[trigger] out@[j]).0 == self.records@[j].id && out@[j].1@
                        == self.records@[j].vector@,
            decreases self.records@.len() - i,
        {
            out.push((self.records[i].id, self.records[i].vector.clone()));
            i = i + 1;
        }
        proof {
            assert forall|k: int| 0 <= k < out@.len() implies self@.contains_key(
                #[trigger] out@[k].0,
            ) && out@[k].1@ == self@[out@[k].0].0 by {
                lemma_map_of_found(self.records@, k);
            }
            assert forall|id: i64| self@.contains_key(id) implies exists|k: int|
                0 <= k < out@.len() && #[trigger] out@[k].0 == id by {
                lemma_map_of_contains(self.records@, id);
                let w = choose|w: int| 0 <= w < self.records@.len() && self.records@[w].id == id;
                assert(out@[w].0 == id);
            }
        }
        out
    }
}

/// The regeneration outcomes as specifications see them: the entity id
/// and the component patterns of the fresh vector, where one was
/// produced.
pub open spec fn regen_view(s: Seq<(i64, Option<EmbeddingVector>)>) -> Seq<
    (i64, Option<Seq<u32>>),
> {
    Seq::new(
        s.len(),
        |k: int|
            (
                s[k].0,
                match s[k].1 {
                    Some(v) => Some(v@),
                    None => None,
                },
            ),
    )
}

/// The cache map after applying regeneration outcomes in order: each
/// produced vector is upserted under the given version tag, each failed
/// entity is left as it was.
pub open spec fn spec_apply_regenerated(
    m: Map<i64, (Seq<u32>, Seq<char>)>,
    items: Seq<(i64, Option<Seq<u32>>)>,
    version: Seq<char>,
) -> Map<i64, (Seq<u32>, Seq<char>)>
    decreases items.len(),
{
    if items.len() == 0 {
        m
    } else {
        let prev = spec_apply_regenerated(m, items.drop_last(), version);
        match items.last().1 {
            Some(v) => prev.insert(items.last().0, (v, version)),
            None => prev,
        }
    }
}

/// How many regeneration outcomes produced a vector.
pub open spec fn spec_success_count(items: Seq<(i64, Option<Seq<u32>>)>) -> int
    decreases items.len(),
{
    if items.len() == 0 {
        0int
    } else {
        spec_success_count(items.drop_last()) + if items.last().1 is Some {
            1int
        } else {
            0int
        }
    }
}

/// Applies the outcomes of a bulk regeneration to the cache: every
/// entity whose embedding was produced is upserted under the given
/// version tag, every entity whose generation failed is skipped, and
/// the number of successes is returned. One failed entity never aborts
/// the batch.
pub fn apply_regenerated(
    cache: &mut EmbeddingCache,
    version: &String,
    items: &Vec<(i64, Option<EmbeddingVector>)>,
) -> (count: usize)
    ensures
        final(cache)@ == spec_apply_regenerated(old(cache)@, regen_view(items@), version@),
        count == spec_success_count(regen_view(items@)),
{
    let ghost m0 = cache@;
    let mut count: usize = 0;
    let mut i: usize = 0;
    while i < items.len()
        invariant
            i <= items@.len(),
            count <= i,
            cache@ == spec_apply_regenerated(m0, regen_view(items@.take(i as int)), version@),
            count == spec_success_count(regen_view(items@.take(i as int))),
        decreases items@.len() - i,
    {
        proof {
            assert(regen_view(items@.take(i + 1)).drop_last() =~= regen_view(
                items@.take(i as int),
            ));
            assert(regen_view(items@.take(i + 1)).last() == regen_view(items@)[i as int]);
        }
        match &items[i].1 {
            Some(v) => {
                cache.store_embedding(items[i].0, v, version);
                count = count + 1;
            },
            None => {},
        }
        i = i + 1;
    }
    proof {
        assert(items@.take(items@.len() as int) =~= items@);
        assert(regen_view(items@.take(items@.len() as int)) =~= regen_view(items@));
    }
    count
}

/// Law: storing a vector for an entity and then reading that entity
/// back yields exactly the stored vector. This is the round trip of
/// [`EmbeddingCache::store_embedding`] followed by
/// [`EmbeddingCache::get_embedding`], stated over the map view those
/// contracts use; together with the byte-level round trip of
/// [`crate::vector::lemma_vector_codec_roundtrip`] it covers the stored
/// form too, exactly, since storage is raw bytes.
pub proof fn lemma_store_then_get(
    m: Map<i64, (Seq<u32>, Seq<char>)>,
    id: i64,
    v: Seq<u32>,
    version: Seq<char>,
)
    ensures
        m.insert(id, (v, version)).contains_key(id),
        m.insert(id, (v, version))[id].0 == v,
        m.insert(id, (v, version))[id].1 == version,
{
}

} // verus!
