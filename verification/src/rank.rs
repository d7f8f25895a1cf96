//! Candidate selection and ranking for a semantic search.
//!
//! A search proceeds in three steps. First, [`select_candidates`] pairs
//! every snippet that has a vector cached under the active model version
//! with that vector, in snippet order; snippets without an id, without a
//! record, or with a stale record are silently excluded. Second, the
//! caller computes one similarity per candidate (a dot product of unit
//! vectors, carried as a bit pattern; that arithmetic happens outside
//! this crate). Third, [`rank_candidates`] clamps each similarity,
//! discards candidates at or below the relevance floor, and sorts the
//! rest by descending similarity, keeping candidates of equal similarity
//! in their input order.

use vstd::prelude::*;

use crate::cache::EmbeddingCache;
use crate::models::{SearchResult, Snippet};
use crate::score::{clamp_score, passes_floor, score_exceeds};
use crate::score::{score_key, spec_clamp_score, spec_passes_floor};
use crate::vector::EmbeddingVector;

verus! {

/// A candidate as specifications see it: the snippet and the component
/// patterns of its cached vector.
pub open spec fn candidate_view(p: (Snippet, EmbeddingVector)) -> (Snippet, Seq<u32>) {
    (p.0, p.1@)
}

/// The candidate list as specifications see it.
pub open spec fn candidates_view(s: Seq<(Snippet, EmbeddingVector)>) -> Seq<(Snippet, Seq<u32>)> {
    Seq::new(s.len(), |k: int| candidate_view(s[k]))
}

/// The candidates of a search over `snippets`: every snippet with an id
/// whose cached record carries exactly `version`, paired with the cached
/// components, in snippet order.
pub open spec fn spec_select(
    snippets: Seq<Snippet>,
    cache: Map<i64, (Seq<u32>, Seq<char>)>,
    version: Seq<char>,
) -> Seq<(Snippet, Seq<u32>)>
    decreases snippets.len(),
{
    if snippets.len() == 0 {
        Seq::empty()
    } else {
        let prefix = spec_select(snippets.drop_last(), cache, version);
        let s = snippets.last();
        match s.id {
            Some(id) => if cache.contains_key(id) && cache[id].1 == version {
                prefix.push((s, cache[id].0))
            } else {
                prefix
            },
            None => prefix,
        }
    }
}

/// Pairs each snippet that has a vector cached under `version` with that
/// vector, in snippet order. A snippet with no id, no record, or a record
/// under another version is excluded without error.
pub fn select_candidates(snippets: &Vec<Snippet>, cache: &EmbeddingCache, version: &String) -> (r:
    Vec<(Snippet, EmbeddingVector)>)
    ensures
        candidates_view(r@) == spec_select(snippets@, cache@, version@),
{
    let mut out: Vec<(Snippet, EmbeddingVector)> = Vec::new();
    let mut i: usize = 0;
    while i < snippets.len()
        invariant
            i <= snippets@.len(),
            candidates_view(out@) == spec_select(snippets@.take(i as int), cache@, version@),
        decreases snippets@.len() - i,
    {
        if let Some(id) = snippets[i].id {
            match cache.get_embedding_for_version(id, version) {
                Some(v) => {
                    out.push((snippets[i].clone(), v));
                },
                None => {},
            }
        }
        proof {
            assert(snippets@.take(i + 1).drop_last() =~= snippets@.take(i as int));
            assert(snippets@.take(i + 1).last() == snippets@[i as int]);
            assert(candidates_view(out@) =~= spec_select(
                snippets@.take(i + 1),
                cache@,
                version@,
            ));
        }
        i = i + 1;
    }
    proof {
        assert(snippets@.take(snippets@.len() as int) =~= snippets@);
    }
    out
}

/// The answer built from one scored candidate: the snippet, the clamped
/// similarity, and no highlight.
pub open spec fn spec_result_of(c: (Snippet, u32)) -> SearchResult {
    SearchResult { snippet: c.0, score_bits: spec_clamp_score(c.1), highlight: None }
}

/// Whether a scored candidate clears the relevance floor once clamped.
pub open spec fn spec_passes(c: (Snippet, u32)) -> bool {
    spec_passes_floor(spec_clamp_score(c.1))
}

/// How a ranked answer relates to the scored candidates it was built
/// from. `order` lists the input position of each returned result:
/// every listed position passes the floor, each result is the answer
/// built from its position, results are ordered by strictly descending
/// similarity key with ties in ascending input position, and every
/// passing input position is listed. Together these pin the answer down
/// uniquely: it holds exactly the passing candidates, sorted by
/// descending similarity, with equal similarities in input order.
pub open spec fn spec_ranked_by(
    input: Seq<(Snippet, u32)>,
    out: Seq<SearchResult>,
    order: Seq<int>,
) -> bool {
    &&& order.len() == out.len()
    &&& forall|k: int| 0 <= k < order.len() ==> 0 <= #[trigger] order[k] < input.len()
    &&& forall|k: int| 0 <= k < order.len() ==> spec_passes(input[#[trigger] order[k]])
    &&& forall|k: int| 0 <= k < out.len() ==> #[trigger] out[k] == spec_result_of(input[order[k]])
    &&& forall|a: int, b: int|
        #![trigger out[a], out[b]]
        0 <= a < b < out.len() ==> score_key(out[a].score_bits) > score_key(out[b].score_bits) || (
        score_key(out[a].score_bits) == score_key(out[b].score_bits) && order[a] < order[b])
    &&& forall|idx: int|
        0 <= idx < input.len() && spec_passes(#[trigger] input[idx]) ==> order.contains(idx)
}

/// How input positions are ordered in a ranked answer: higher clamped
/// similarity first, and of two positions with equal similarity the
/// earlier one first. For distinct positions exactly one direction
/// holds, so this is a strict total order.
spec fn ranked_before(input: Seq<(Snippet, u32)>, x: int, y: int) -> bool {
    let kx = score_key(spec_clamp_score(input[x].1));
    let ky = score_key(spec_clamp_score(input[y].1));
    kx > ky || (kx == ky && x < y)
}

/// Two position lists that are strictly sorted by [`ranked_before`] and
/// hold the same positions are identical.
proof fn lemma_ranked_positions_unique(input: Seq<(Snippet, u32)>, o1: Seq<int>, o2: Seq<int>)
    requires
        forall|a: int, b: int|
            #![trigger o1[a], o1[b]]
            0 <= a < b < o1.len() ==> ranked_before(input, o1[a], o1[b]),
        forall|a: int, b: int|
            #![trigger o2[a], o2[b]]
            0 <= a < b < o2.len() ==> ranked_before(input, o2[a], o2[b]),
        forall|x: int| o1.contains(x) <==> o2.contains(x),
    ensures
        o1 == o2,
    decreases o1.len(),
{
    if o1.len() == 0 {
        if o2.len() > 0 {
            assert(o2.contains(o2[0]));
            assert(o1.contains(o2[0]));
        }
        assert(o1 =~= o2);
    } else {
        assert(o1.contains(o1[0]));
        assert(o2.contains(o1[0]));
        let h = o1[0];
        if o2[0] != h {
            assert(o2.contains(o2[0]));
            assert(o1.contains(o2[0]));
            let k = choose|k: int| 0 <= k < o1.len() && o1[k] == o2[0];
            assert(k != 0);
            assert(ranked_before(input, o1[0], o1[k]));
            assert(ranked_before(input, h, o2[0]));
            let m = choose|m: int| 0 <= m < o2.len() && o2[m] == h;
            assert(m != 0);
            assert(ranked_before(input, o2[0], o2[m]));
            assert(ranked_before(input, o2[0], h));
            assert(false);
        }
        let t1 = o1.drop_first();
        let t2 = o2.drop_first();
        assert forall|a: int, b: int|
            #![trigger t1[a], t1[b]]
            0 <= a < b < t1.len() implies ranked_before(input, t1[a], t1[b]) by {
            assert(t1[a] == o1[a + 1] && t1[b] == o1[b + 1]);
        }
        assert forall|a: int, b: int|
            #![trigger t2[a], t2[b]]
            0 <= a < b < t2.len() implies ranked_before(input, t2[a], t2[b]) by {
            assert(t2[a] == o2[a + 1] && t2[b] == o2[b + 1]);
        }
        assert forall|x: int| t1.contains(x) implies t2.contains(x) by {
            let k = choose|k: int| 0 <= k < t1.len() && t1[k] == x;
            assert(o1[k + 1] == x);
            assert(o1.contains(x));
            assert(ranked_before(input, h, x));
            assert(o2.contains(x));
            let m = choose|m: int| 0 <= m < o2.len() && o2[m] == x;
            assert(m != 0);
            assert(t2[m - 1] == x);
            assert(t2.contains(x));
        }
        assert forall|x: int| t2.contains(x) implies t1.contains(x) by {
            let k = choose|k: int| 0 <= k < t2.len() && t2[k] == x;
            assert(o2[k + 1] == x);
            assert(o2.contains(x));
            assert(ranked_before(input, h, x));
            assert(o1.contains(x));
            let m = choose|m: int| 0 <= m < o1.len() && o1[m] == x;
            assert(m != 0);
            assert(t1[m - 1] == x);
            assert(t1.contains(x));
        }
        lemma_ranked_positions_unique(input, t1, t2);
        assert(o1.len() == o2.len());
        assert forall|i: int| 0 <= i < o1.len() implies o1[i] == o2[i] by {
            if i > 0 {
                assert(o1[i] == t1[i - 1]);
                assert(o2[i] == t2[i - 1]);
            }
        }
        assert(o1 =~= o2);
    }
}

/// Law: [`spec_ranked_by`] pins the ranked answer down completely. Two
/// answers to the same scored candidates are identical, position lists
/// and results both: each position list holds exactly the passing
/// positions, strictly ordered by descending similarity with ties in
/// input order, and that order admits a single arrangement.
pub proof fn lemma_ranked_by_unique(
    input: Seq<(Snippet, u32)>,
    out1: Seq<SearchResult>,
    order1: Seq<int>,
    out2: Seq<SearchResult>,
    order2: Seq<int>,
)
    requires
        spec_ranked_by(input, out1, order1),
        spec_ranked_by(input, out2, order2),
    ensures
        order1 == order2,
        out1 == out2,
{
    assert forall|a: int, b: int|
        #![trigger order1[a], order1[b]]
        0 <= a < b < order1.len() implies ranked_before(input, order1[a], order1[b]) by {
        assert(out1[a] == spec_result_of(input[order1[a]]));
        assert(out1[b] == spec_result_of(input[order1[b]]));
    }
    assert forall|a: int, b: int|
        #![trigger order2[a], order2[b]]
        0 <= a < b < order2.len() implies ranked_before(input, order2[a], order2[b]) by {
        assert(out2[a] == spec_result_of(input[order2[a]]));
        assert(out2[b] == spec_result_of(input[order2[b]]));
    }
    assert forall|x: int| order1.contains(x) implies order2.contains(x) by {
        let k = choose|k: int| 0 <= k < order1.len() && order1[k] == x;
        assert(0 <= x < input.len() && spec_passes(input[x]));
    }
    assert forall|x: int| order2.contains(x) implies order1.contains(x) by {
        let k = choose|k: int| 0 <= k < order2.len() && order2[k] == x;
        assert(0 <= x < input.len() && spec_passes(input[x]));
    }
    lemma_ranked_positions_unique(input, order1, order2);
    assert forall|k: int| 0 <= k < out1.len() implies out1[k] == out2[k] by {
        assert(out1[k] == spec_result_of(input[order1[k]]));
        assert(out2[k] == spec_result_of(input[order2[k]]));
    }
    assert(out1 =~= out2);
}

/// Index arithmetic of inserting into a sequence: entries before the
/// insertion point stay, the new entry sits at the point, entries from
/// the point on shift one to the right.
proof fn lemma_insert_index<A>(s: Seq<A>, p: int, x: A)
    requires
        0 <= p <= s.len(),
    ensures
        s.insert(p, x).len() == s.len() + 1,
        forall|k: int| 0 <= k < p ==> #[trigger] s.insert(p, x)[k] == s[k],
        s.insert(p, x)[p] == x,
        forall|k: int| p < k < s.len() + 1 ==> #[trigger] s.insert(p, x)[k] == s[k - 1],
{
    s.insert_ensures(p, x);
    assert forall|k: int| p < k < s.len() + 1 implies #[trigger] s.insert(p, x)[k] == s[k - 1] by {
        assert(s.insert(p, x)[k] == s.subrange(p, s.len() as int)[k - p - 1]);
    }
}

/// Clamps, filters and sorts scored candidates into a ranked answer.
///
/// Every returned result clears the relevance floor; the results come in
/// descending similarity order; and some position list witnesses
/// [`spec_ranked_by`], so the answer is exactly the passing candidates,
/// stably ordered.
pub fn rank_candidates(scored: &Vec<(Snippet, u32)>) -> (r: Vec<SearchResult>)
    ensures
        exists|order: Seq<int>| spec_ranked_by(scored@, r@, order),
        forall|k: int| 0 <= k < r@.len() ==> spec_passes_floor(#[trigger] r@[k].score_bits),
        forall|a: int, b: int|
            #![trigger r@[a], r@[b]]
            0 <= a < b < r@.len() ==> score_key(r@[a].score_bits) >= score_key(r@[b].score_bits),
{
    let mut out: Vec<SearchResult> = Vec::new();
    let mut pos: Vec<usize> = Vec::new();
    let mut i: usize = 0;
    while i < scored.len()
        invariant
            i <= scored@.len(),
            out@.len() == pos@.len(),
            forall|k: int| 0 <= k < pos@.len() ==> (#[trigger] pos@[k] as int) < i as int,
            forall|k: int|
                0 <= k < pos@.len() ==> spec_passes(scored@[#[trigger] pos@[k] as int]),
            forall|k: int|
                0 <= k < out@.len() ==> #[trigger] out@[k] == spec_result_of(
                    scored@[pos@[k] as int],
                ),
            forall|a: int, b: int|
                #![trigger out@[a], out@[b]]
                0 <= a < b < out@.len() ==> score_key(out@[a].score_bits) > score_key(
                    out@[b].score_bits,
                ) || (score_key(out@[a].score_bits) == score_key(out@[b].score_bits) && pos@[a]
                    < pos@[b]),
            forall|idx: int|
                0 <= idx < i && spec_passes(#[trigger] scored@[idx]) ==> exists|k: int|
                    0 <= k < pos@.len() && pos@[k] as int == idx,
        decreases scored@.len() - i,
    {
        let clamped = clamp_score(scored[i].1);
        if passes_floor(clamped) {
            let ghost out0 = out@;
            let ghost pos0 = pos@;
            let mut p: usize = 0;
            while p < out.len() && !score_exceeds(clamped, out[p].score_bits)
                invariant
                    p <= out@.len(),
                    out@ == out0,
                    forall|k: int|
                        0 <= k < p ==> score_key(#[trigger] out@[k].score_bits) >= score_key(
                            clamped,
                        ),
                decreases out@.len() - p,
            {
                p = p + 1;
            }
            let item = SearchResult {
                snippet: scored[i].0.clone(),
                score_bits: clamped,
                highlight: None,
            };
            proof {
                lemma_insert_index(out0, p as int, item);
                lemma_insert_index(pos0, p as int, i);
            }
            out.insert(p, item);
            pos.insert(p, i);
            proof {
                assert forall|a: int, b: int|
                    #![trigger out@[a], out@[b]]
                    0 <= a < b < out@.len() implies score_key(out@[a].score_bits) > score_key(
                    out@[b].score_bits,
                ) || (score_key(out@[a].score_bits) == score_key(out@[b].score_bits) && pos@[a]
                    < pos@[b]) by {
                    if b < p {
                        assert(out@[a] == out0[a] && out@[b] == out0[b]);
                    } else if b == p {
                        assert(out@[a] == out0[a]);
                        assert(score_key(out0[a].score_bits) >= score_key(clamped));
                        assert(pos@[a] == pos0[a] && (pos0[a] as int) < i as int);
                        assert(pos@[b] == i);
                    } else {
                        assert(out@[b] == out0[b - 1]);
                        if a < p {
                            assert(out@[a] == out0[a]);
                        } else if a == p {
                            assert(out@[a].score_bits == clamped);
                            assert(p < out0.len());
                            assert(score_key(out0[p as int].score_bits) < score_key(clamped));
                            if b - 1 > p {
                                assert(score_key(out0[b - 1].score_bits) <= score_key(
                                    out0[p as int].score_bits,
                                ));
                            }
                        } else {
                            assert(out@[a] == out0[a - 1]);
                        }
                    }
                }
                assert forall|idx: int|
                    0 <= idx < i + 1 && spec_passes(#[trigger] scored@[idx]) implies exists|
                    k: int,
                |
                    0 <= k < pos@.len() && pos@[k] as int == idx by {
                    if idx == i as int {
                        assert(pos@[p as int] as int == idx);
                    } else {
                        let k0 = choose|k0: int|
                            0 <= k0 < pos0.len() && pos0[k0] as int == idx;
                        if k0 < p {
                            assert(pos@[k0] as int == idx);
                        } else {
                            assert(pos@[k0 + 1] as int == idx);
                        }
                    }
                }
            }
        }
        i = i + 1;
    }
    proof {
        let ghost order = Seq::<int>::new(pos@.len(), |k: int| pos@[k] as int);
        assert forall|idx: int|
            0 <= idx < scored@.len() && spec_passes(#[trigger] scored@[idx]) implies order.contains(
            idx,
        ) by {
            let k = choose|k: int| 0 <= k < pos@.len() && pos@[k] as int == idx;
            assert(order[k] == idx);
        }
        assert(spec_ranked_by(scored@, out@, order));
    }
    out
}

} // verus!
