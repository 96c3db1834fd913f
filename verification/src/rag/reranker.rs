//! Reordering of hits by how well each answers the query.
use crate::binary32::Binary32;
use crate::rag::order;
use crate::rag::order::{stable_sort, ByScore, HitOrder};
use crate::rag::retrieval::{ChunkHit, ChunkHitView};
use vstd::prelude::*;

verus! {

/// The hits with these scores in place of their own, as far as there are scores.
pub open spec fn rescored(hits: Seq<ChunkHitView>, scores: Seq<Binary32>) -> Seq<ChunkHitView> {
    Seq::new(
        hits.len(),
        |i: int|
            if i < scores.len() {
                ChunkHitView { score: Some(scores[i]), ..hits[i] }
            } else {
                hits[i]
            },
    )
}

/// The hits after reranking: by the new scores, the best first. A single hit is left alone, and
/// so are all where the reranker failed.
pub open spec fn reranked(hits: Seq<ChunkHitView>, scores: Option<Seq<Binary32>>) -> Seq<
    ChunkHitView,
> {
    match scores {
        None => hits,
        Some(s) => if hits.len() <= 1 {
            hits
        } else {
            order::sorted::<ByScore>(rescored(hits, s))
        },
    }
}

pub open spec fn scores_view(scores: Option<Vec<Binary32>>) -> Option<Seq<Binary32>> {
    match scores {
        Some(s) => Some(s@),
        None => None,
    }
}

/// Reorders hits by the scores of the reranker, `None` where it failed.
pub fn rerank(hits: Vec<ChunkHit>, scores: Option<Vec<Binary32>>) -> (r: Vec<ChunkHit>)
    ensures
        order::hits_view(r@) == reranked(order::hits_view(hits@), scores_view(scores)),
{
    let ghost all = order::hits_view(hits@);
    let scores = match scores {
        None => return hits,
        Some(s) => s,
    };
    if hits.len() <= 1 {
        return hits;
    }
    let mut hits = hits;
    let n: usize = hits.len();
    let mut i: usize = 0;
    while i < n && i < scores.len()
        invariant
            n == hits@.len(),
            n == all.len(),
            i <= n,
            i <= scores@.len(),
            forall|k: int|
                0 <= k < n ==> #[trigger] hits@[k]@ == if k < i {
                    rescored(all, scores@)[k]
                } else {
                    all[k]
                },
        decreases n - i,
    {
        let ghost before = hits@;
        let mut hit = hits.remove(i);
        hit.score = Some(scores[i]);
        hits.insert(i, hit);
        assert forall|k: int| 0 <= k < n implies #[trigger] hits@[k]@ == if k < i + 1 {
            rescored(all, scores@)[k]
        } else {
            all[k]
        } by {
            if k != i {
                assert(hits@[k] == before[k]);
            }
            assert(before[k]@ == if k < i {
                rescored(all, scores@)[k]
            } else {
                all[k]
            });
        }
        i = i + 1;
    }
    assert forall|k: int| 0 <= k < n implies #[trigger] order::hits_view(hits@)[k] == rescored(
        all,
        scores@,
    )[k] by {
        assert(hits@[k]@ == if k < i {
            rescored(all, scores@)[k]
        } else {
            all[k]
        });
    }
    assert(order::hits_view(hits@) == rescored(all, scores@));
    stable_sort::<ByScore>(hits)
}

/// The chunks of hits, without their scores.
pub open spec fn chunks_of(hits: Seq<ChunkHitView>) -> Seq<crate::rag::retrieval::ChunkPayloadView> {
    hits.map_values(|h: ChunkHitView| h.chunk)
}

/// Reranking neither loses nor adds a chunk, and puts the best scores first.
pub proof fn reranking_keeps_every_chunk(hits: Seq<ChunkHitView>, scores: Option<Seq<Binary32>>)
    ensures
        reranked(hits, scores).len() == hits.len(),
        chunks_of(reranked(hits, scores)).to_multiset() == chunks_of(hits).to_multiset(),
        scores is Some && hits.len() > 1 ==> order::in_order::<ByScore>(reranked(hits, scores)),
{
    if let Some(s) = scores {
        if hits.len() > 1 {
            let mid = rescored(hits, s);
            order::sorting_is_stable::<ByScore>(mid);
            let out = order::sorted::<ByScore>(mid);
            lemma_same_chunks(mid, out);
            assert(chunks_of(mid) =~= chunks_of(hits));
        }
    }
}

/// The same hits in another order have the same chunks.
proof fn lemma_same_chunks(a: Seq<ChunkHitView>, b: Seq<ChunkHitView>)
    requires
        a.to_multiset() == b.to_multiset(),
    ensures
        chunks_of(a).to_multiset() == chunks_of(b).to_multiset(),
    decreases a.len(),
{
    broadcast use vstd::seq_lib::group_to_multiset_ensures;

    assert(a.len() == a.to_multiset().len());
    assert(b.len() == b.to_multiset().len());
    if a.len() == 0 {
        assert(chunks_of(a) =~= chunks_of(b));
    } else {
        let x = a.last();
        assert(a.contains(x)) by {
            assert(a[a.len() - 1] == x);
        }
        assert(a.to_multiset().count(x) > 0);
        assert(b.contains(x));
        let k = choose|k: int| 0 <= k < b.len() && b[k] == x;
        let a2 = a.drop_last();
        let b2 = b.remove(k);
        assert(a == a2.push(x));
        assert(b == b2.insert(k, x));
        assert(a2.to_multiset() =~= a.to_multiset().remove(x));
        assert(b2.to_multiset() =~= b.to_multiset().remove(x));
        lemma_same_chunks(a2, b2);
        assert(chunks_of(a) =~= chunks_of(a2).push(x.chunk));
        assert(chunks_of(b) =~= chunks_of(b2).insert(k, x.chunk));
        assert(chunks_of(b2).insert(k, x.chunk).to_multiset() =~= chunks_of(
            b2,
        ).to_multiset().insert(x.chunk));
    }
}

/// Every hit gets the score that was given for it, and no other: with a score for each of several
/// hits, the reranked hits are exactly the old chunks, chunk `i` with score `i`, and no hit stands
/// behind one with a lower score.
pub proof fn scores_go_to_their_own_hits(hits: Seq<ChunkHitView>, scores: Seq<Binary32>)
    requires
        hits.len() > 1,
        scores.len() == hits.len(),
    ensures
        ({
            let out = reranked(hits, Some(scores));
            &&& out.len() == hits.len()
            &&& forall|i: int|
                0 <= i < hits.len() ==> out.contains(
                    ChunkHitView { chunk: (#[trigger] hits[i]).chunk, score: Some(scores[i]) },
                )
            &&& forall|j: int|
                0 <= j < out.len() ==> exists|i: int|
                    0 <= i < hits.len() && (#[trigger] out[j]).chunk == (#[trigger] hits[i]).chunk
                        && out[j].score == Some(scores[i])
            &&& forall|i: int, j: int|
                0 <= i < j < out.len() ==> (#[trigger] out[i]).score->0.total_rank() >= (
                #[trigger] out[j]).score->0.total_rank()
        }),
{
    broadcast use vstd::seq_lib::group_to_multiset_ensures;

    let mid = rescored(hits, scores);
    let out = order::sorted::<ByScore>(mid);
    order::sorting_is_stable::<ByScore>(mid);
    assert forall|i: int| 0 <= i < hits.len() implies out.contains(
        ChunkHitView { chunk: (#[trigger] hits[i]).chunk, score: Some(scores[i]) },
    ) by {
        assert(mid.contains(mid[i]));
        assert(mid.to_multiset().count(mid[i]) > 0);
        assert(out.contains(mid[i]));
        assert(mid[i] == (ChunkHitView { chunk: hits[i].chunk, score: Some(scores[i]) }));
    }
    assert forall|j: int| 0 <= j < out.len() implies exists|i: int|
        0 <= i < hits.len() && (#[trigger] out[j]).chunk == (#[trigger] hits[i]).chunk
            && out[j].score == Some(scores[i]) by {
        assert(out.contains(out[j]));
        assert(out.to_multiset().count(out[j]) > 0);
        assert(mid.contains(out[j]));
        let i = choose|i: int| 0 <= i < mid.len() && mid[i] == out[j];
        assert(hits[i].chunk == out[j].chunk);
    }
    assert forall|i: int, j: int| 0 <= i < j < out.len() implies (
    #[trigger] out[i]).score->0.total_rank() >= (#[trigger] out[j]).score->0.total_rank() by {
        assert(ByScore::le(out[i], out[j]));
    }
}

} // verus!
