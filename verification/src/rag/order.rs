//! Stable sorting of hits.
use crate::binary32::Binary32;
use crate::rag::retrieval::{ChunkHit, ChunkHitView};
use crate::text;
use vstd::prelude::*;

verus! {

/// A way to order hits.
pub trait HitOrder {
    /// `a` may stand before `b`.
    spec fn le(a: ChunkHitView, b: ChunkHitView) -> bool;

    proof fn total(a: ChunkHitView, b: ChunkHitView)
        ensures
            Self::le(a, b) || Self::le(b, a),
    ;

    proof fn transitive(a: ChunkHitView, b: ChunkHitView, c: ChunkHitView)
        requires
            Self::le(a, b),
            Self::le(b, c),
        ensures
            Self::le(a, c),
    ;

    fn leq(a: &ChunkHit, b: &ChunkHit) -> (r: bool)
        ensures
            r == Self::le(a@, b@),
    ;
}

/// By recording, then by place in the recording.
pub struct ByPlace;

/// By score, the highest first; without a score as with the least finite one.
pub struct ByScore;

/// The score of a hit in the order of all single precision numbers.
pub open spec fn score_rank(h: ChunkHitView) -> int {
    match h.score {
        Some(s) => s.total_rank(),
        None => Binary32::least_finite_number().total_rank(),
    }
}

impl HitOrder for ByPlace {
    open spec fn le(a: ChunkHitView, b: ChunkHitView) -> bool {
        if a.chunk.audio_id == b.chunk.audio_id {
            a.chunk.chunk_id <= b.chunk.chunk_id
        } else {
            text::at_most(a.chunk.audio_id, b.chunk.audio_id)
        }
    }

    proof fn total(a: ChunkHitView, b: ChunkHitView) {
        text::at_most_is_total(a.chunk.audio_id, b.chunk.audio_id);
    }

    proof fn transitive(a: ChunkHitView, b: ChunkHitView, c: ChunkHitView) {
        let x = a.chunk.audio_id;
        let y = b.chunk.audio_id;
        let z = c.chunk.audio_id;
        if x != y && y != z {
            text::at_most_is_transitive(x, y, z);
            if x == z {
                text::at_most_is_antisymmetric(x, y);
            }
        }
    }

    fn leq(a: &ChunkHit, b: &ChunkHit) -> (r: bool) {
        if text::same(a.chunk.audio_id.as_str(), b.chunk.audio_id.as_str()) {
            a.chunk.chunk_id <= b.chunk.chunk_id
        } else {
            text::is_at_most(a.chunk.audio_id.as_str(), b.chunk.audio_id.as_str())
        }
    }
}

impl HitOrder for ByScore {
    open spec fn le(a: ChunkHitView, b: ChunkHitView) -> bool {
        score_rank(a) >= score_rank(b)
    }

    proof fn total(a: ChunkHitView, b: ChunkHitView) {
    }

    proof fn transitive(a: ChunkHitView, b: ChunkHitView, c: ChunkHitView) {
    }

    fn leq(a: &ChunkHit, b: &ChunkHit) -> (r: bool) {
        let x: i64 = match a.score {
            Some(s) => s.order(),
            None => Binary32::least_finite().order(),
        };
        let y: i64 = match b.score {
            Some(s) => s.order(),
            None => Binary32::least_finite().order(),
        };
        x >= y
    }
}

/// `h` put behind everything that may stand before it.
pub open spec fn inserted<O: HitOrder>(s: Seq<ChunkHitView>, h: ChunkHitView) -> Seq<ChunkHitView>
    decreases s.len(),
{
    if s.len() == 0 {
        seq![h]
    } else if O::le(s.last(), h) {
        s.push(h)
    } else {
        inserted::<O>(s.drop_last(), h).push(s.last())
    }
}

/// The hits in order; those that may stand either way keep their order.
pub open spec fn sorted<O: HitOrder>(s: Seq<ChunkHitView>) -> Seq<ChunkHitView>
    decreases s.len(),
{
    if s.len() == 0 {
        Seq::empty()
    } else {
        inserted::<O>(sorted::<O>(s.drop_last()), s.last())
    }
}

/// Each hit may stand before all behind it.
pub open spec fn in_order<O: HitOrder>(s: Seq<ChunkHitView>) -> bool {
    forall|i: int, j: int| 0 <= i < j < s.len() ==> O::le(#[trigger] s[i], #[trigger] s[j])
}

/// Hits that may stand either way.
pub open spec fn tied<O: HitOrder>(a: ChunkHitView, b: ChunkHitView) -> bool {
    O::le(a, b) && O::le(b, a)
}

/// The hits that are tied with `h`, in order.
pub open spec fn ties<O: HitOrder>(s: Seq<ChunkHitView>, h: ChunkHitView) -> Seq<ChunkHitView>
    decreases s.len(),
{
    if s.len() == 0 {
        Seq::empty()
    } else if tied::<O>(s.last(), h) {
        ties::<O>(s.drop_last(), h).push(s.last())
    } else {
        ties::<O>(s.drop_last(), h)
    }
}

proof fn lemma_inserted<O: HitOrder>(s: Seq<ChunkHitView>, h: ChunkHitView)
    requires
        in_order::<O>(s),
    ensures
        in_order::<O>(inserted::<O>(s, h)),
        inserted::<O>(s, h).len() == s.len() + 1,
        inserted::<O>(s, h).to_multiset() == s.to_multiset().insert(h),
        forall|e: ChunkHitView| #[trigger]
            ties::<O>(inserted::<O>(s, h), e) == if tied::<O>(h, e) {
                ties::<O>(s, e).push(h)
            } else {
                ties::<O>(s, e)
            },
    decreases s.len(),
{
    broadcast use vstd::seq_lib::group_to_multiset_ensures;

    let t = inserted::<O>(s, h);
    if s.len() == 0 {
        assert(t == s.push(h));
        assert(t.drop_last() == s);
    } else if O::le(s.last(), h) {
        assert(t.drop_last() == s);
        assert forall|i: int, j: int| 0 <= i < j < t.len() implies O::le(
            #[trigger] t[i],
            #[trigger] t[j],
        ) by {
            if j == s.len() && i < s.len() - 1 {
                O::transitive(s[i], s.last(), h);
            }
        }
    } else {
        let head = s.drop_last();
        let last = s.last();
        let u = inserted::<O>(head, h);
        assert forall|i: int, j: int| 0 <= i < j < head.len() implies O::le(
            #[trigger] head[i],
            #[trigger] head[j],
        ) by {
            assert(head[i] == s[i] && head[j] == s[j]);
        }
        lemma_inserted::<O>(head, h);
        O::total(s.last(), h);
        assert(t.drop_last() == u);
        assert(s == head.push(last));
        assert forall|i: int, j: int| 0 <= i < j < t.len() implies O::le(
            #[trigger] t[i],
            #[trigger] t[j],
        ) by {
            if j == u.len() {
                assert(u.to_multiset().count(u[i]) > 0) by {
                    assert(u.contains(u[i]));
                }
                if u[i] != h {
                    assert(head.to_multiset().count(u[i]) > 0);
                    assert(head.contains(u[i]));
                    let k = choose|k: int| 0 <= k < head.len() && head[k] == u[i];
                    assert(s[k] == u[i]);
                }
            }
        }
        assert forall|e: ChunkHitView| #[trigger]
            ties::<O>(t, e) == if tied::<O>(h, e) {
                ties::<O>(s, e).push(h)
            } else {
                ties::<O>(s, e)
            } by {
            assert(ties::<O>(u, e) == if tied::<O>(h, e) {
                ties::<O>(head, e).push(h)
            } else {
                ties::<O>(head, e)
            });
            if tied::<O>(last, e) && tied::<O>(h, e) {
                O::transitive(last, e, h);
            }
        }
        assert(u.push(last).to_multiset() =~= u.to_multiset().insert(last));
        assert(head.to_multiset().insert(h).insert(last) =~= head.to_multiset().insert(
            last,
        ).insert(h));
    }
}

/// Sorting puts the hits in order, neither loses nor adds one, and keeps the order of hits that
/// are tied.
pub proof fn sorting_is_stable<O: HitOrder>(s: Seq<ChunkHitView>)
    ensures
        in_order::<O>(sorted::<O>(s)),
        sorted::<O>(s).len() == s.len(),
        sorted::<O>(s).to_multiset() == s.to_multiset(),
        forall|e: ChunkHitView| #[trigger] ties::<O>(sorted::<O>(s), e) == ties::<O>(s, e),
    decreases s.len(),
{
    broadcast use vstd::seq_lib::group_to_multiset_ensures;

    if s.len() > 0 {
        let head = s.drop_last();
        sorting_is_stable::<O>(head);
        lemma_inserted::<O>(sorted::<O>(head), s.last());
        assert(s == head.push(s.last()));
        assert forall|e: ChunkHitView| #[trigger]
            ties::<O>(sorted::<O>(s), e) == ties::<O>(s, e) by {
            assert(ties::<O>(sorted::<O>(head), e) == ties::<O>(head, e));
            assert(ties::<O>(inserted::<O>(sorted::<O>(head), s.last()), e) == if tied::<O>(
                s.last(),
                e,
            ) {
                ties::<O>(sorted::<O>(head), e).push(s.last())
            } else {
                ties::<O>(sorted::<O>(head), e)
            });
        }
    } else {
        assert(sorted::<O>(s) == s);
    }
}

pub open spec fn hits_view(v: Seq<ChunkHit>) -> Seq<ChunkHitView> {
    v.map_values(|h: ChunkHit| h@)
}

proof fn lemma_inserted_at<O: HitOrder>(s: Seq<ChunkHitView>, h: ChunkHitView, p: int)
    requires
        0 <= p <= s.len(),
        forall|i: int| p <= i < s.len() ==> !O::le(#[trigger] s[i], h),
        p > 0 ==> O::le(s[p - 1], h),
    ensures
        inserted::<O>(s, h) == s.insert(p, h),
    decreases s.len() - p,
{
    if p == s.len() {
        assert(s.insert(p, h) == s.push(h));
    } else {
        let head = s.drop_last();
        assert(!O::le(s.last(), h));
        assert forall|i: int| p <= i < head.len() implies !O::le(#[trigger] head[i], h) by {
            assert(head[i] == s[i]);
        }
        lemma_inserted_at::<O>(head, h, p);
        assert(head.insert(p, h).push(s.last()) == s.insert(p, h));
    }
}

/// Sorts hits, keeping the order of those that are tied.
pub fn stable_sort<O: HitOrder>(hits: Vec<ChunkHit>) -> (r: Vec<ChunkHit>)
    ensures
        hits_view(r@) == sorted::<O>(hits_view(hits@)),
{
    let ghost all = hits_view(hits@);
    let mut pending = hits;
    let mut out: Vec<ChunkHit> = Vec::new();
    assert(hits_view(pending@) == all.skip(0));
    assert(hits_view(out@) == sorted::<O>(all.take(0)));
    while pending.len() > 0
        invariant
            pending@.len() <= all.len(),
            hits_view(pending@) == all.skip(all.len() - pending@.len()),
            hits_view(out@) == sorted::<O>(all.take(all.len() - pending@.len())),
        decreases pending@.len(),
    {
        let ghost done = all.len() - pending@.len();
        let ghost before = hits_view(pending@);
        let ghost whole = pending@;
        let hit = pending.remove(0);
        assert(pending@ == whole.remove(0));
        assert forall|k: int| 0 <= k < pending@.len() implies #[trigger] pending@[k]@ == before[k
            + 1] by {
            assert(pending@[k] == whole[k + 1]);
        }
        assert(hit@ == before[0]);
        assert(before[0] == all[done]);
        assert forall|k: int| 0 <= k < pending@.len() implies #[trigger] hits_view(pending@)[k]
            == all.skip(done + 1)[k] by {
            assert(pending@[k]@ == before[k + 1]);
        }
        assert(hits_view(pending@) =~= all.skip(done + 1));
        let ghost s = hits_view(out@);
        let mut p: usize = out.len();
        while p > 0 && !O::leq(&out[p - 1], &hit)
            invariant
                p <= out@.len(),
                s == hits_view(out@),
                forall|i: int| p <= i < s.len() ==> !O::le(#[trigger] s[i], hit@),
            decreases p,
        {
            assert(s[p - 1] == out@[p - 1]@);
            p = p - 1;
        }
        if p > 0 {
            assert(s[p - 1] == out@[p - 1]@);
        }
        proof {
            lemma_inserted_at::<O>(s, hit@, p as int);
            assert(all.take(done + 1).drop_last() == all.take(done));
            assert(all.take(done + 1).last() == hit@);
        }
        out.insert(p, hit);
        assert(hits_view(out@) =~= s.insert(p as int, hit@));
    }
    assert(all.take(all.len() as int) == all);
    out
}

/// Sorted by score, no hit stands before one with a higher score, and a hit without a score stands
/// behind every hit whose score is finite.
pub proof fn higher_scores_stand_first(s: Seq<ChunkHitView>)
    ensures
        ({
            let t = sorted::<ByScore>(s);
            forall|i: int, j: int|
                #![trigger t[i], t[j]]
                0 <= i < j < t.len() ==> {
                    &&& t[i].score matches Some(x) ==> (t[j].score matches Some(y) ==> !x.below(y))
                    &&& t[i].score is None ==> (t[j].score matches Some(y) ==> y.nan() || y.at_most(
                        Binary32::least_finite_number(),
                    ))
                }
        }),
{
    sorting_is_stable::<ByScore>(s);
    let t = sorted::<ByScore>(s);
    assert forall|i: int, j: int| #![trigger t[i], t[j]] 0 <= i < j < t.len() implies {
        &&& t[i].score matches Some(x) ==> (t[j].score matches Some(y) ==> !x.below(y))
        &&& t[i].score is None ==> (t[j].score matches Some(y) ==> y.nan() || y.at_most(
            Binary32::least_finite_number(),
        ))
    } by {
        assert(<ByScore as HitOrder>::le(t[i], t[j]));
    }
}

/// Sorted by place, the chunks of one recording stand in the order of their numbers, and the
/// recordings in the order of their names.
pub proof fn chunks_stand_in_the_order_of_their_place(s: Seq<ChunkHitView>)
    ensures
        ({
            let t = sorted::<ByPlace>(s);
            forall|i: int, j: int|
                #![trigger t[i], t[j]]
                0 <= i < j < t.len() ==> {
                    &&& t[i].chunk.audio_id == t[j].chunk.audio_id ==> t[i].chunk.chunk_id
                        <= t[j].chunk.chunk_id
                    &&& text::at_most(t[i].chunk.audio_id, t[j].chunk.audio_id)
                }
        }),
{
    sorting_is_stable::<ByPlace>(s);
    let t = sorted::<ByPlace>(s);
    assert forall|i: int, j: int| #![trigger t[i], t[j]] 0 <= i < j < t.len() implies {
        &&& t[i].chunk.audio_id == t[j].chunk.audio_id ==> t[i].chunk.chunk_id <= t[j].chunk.chunk_id
        &&& text::at_most(t[i].chunk.audio_id, t[j].chunk.audio_id)
    } by {
        assert(<ByPlace as HitOrder>::le(t[i], t[j]));
        text::at_most_is_total(t[i].chunk.audio_id, t[j].chunk.audio_id);
    }
}

} // verus!
