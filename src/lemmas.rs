use vstd::prelude::*;

use crate::errors::{error_line_of, is_no_metadata, MediaDataError};
use crate::pipeline::{
    count_present,
    count_unresolved,
    count_with_id,
    decoded_of,
    errors_of,
    pending_of,
    skipped_of,
    work_of,
    Pending,
    WorkItem,
};

verus! {

/// Every candidate with an object id is either already present or pending.
pub proof fn lemma_pending_and_present(ids: Seq<Option<i32>>, existing: Seq<i32>)
    ensures
        pending_of(ids, existing).len() + count_present(ids, existing) == count_with_id(ids),
    decreases ids.len(),
{
    if ids.len() > 0 {
        lemma_pending_and_present(ids.drop_last(), existing);
    }
}

/// When every path resolves, each pending candidate becomes one work item.
pub proof fn lemma_work_len(pending: Seq<Pending>, resolved: Seq<Option<String>>)
    requires
        resolved.len() == pending.len(),
        forall|i: int| 0 <= i < resolved.len() ==> (#[trigger] resolved[i]) is Some,
    ensures
        work_of(pending, resolved).len() == pending.len(),
    decreases pending.len(),
{
    if pending.len() > 0 {
        let r = resolved.drop_first();
        assert forall|i: int| 0 <= i < r.len() implies (#[trigger] r[i]) is Some by {
            assert(r[i] == resolved[i + 1]);
        }
        lemma_work_len(pending.drop_first(), r);
    }
}

/// Each pending candidate becomes a work item or a failed resolution.
pub proof fn lemma_work_len_or_unresolved(pending: Seq<Pending>, resolved: Seq<Option<String>>)
    requires
        resolved.len() == pending.len(),
    ensures
        work_of(pending, resolved).len() + count_unresolved(resolved) == pending.len(),
    decreases pending.len(),
{
    if pending.len() > 0 {
        lemma_work_len_or_unresolved(pending.drop_first(), resolved.drop_first());
    }
}

/// Every candidate carries an object id or it does not.
pub proof fn lemma_with_id_bounded(ids: Seq<Option<i32>>)
    ensures
        count_with_id(ids) <= ids.len(),
    decreases ids.len(),
{
    if ids.len() > 0 {
        lemma_with_id_bounded(ids.drop_last());
    }
}

/// Each work item lands in exactly one of decoded, skipped or errored.
pub proof fn lemma_outcomes_partition<M>(work: Seq<WorkItem>, results: Seq<Result<M, MediaDataError>>)
    requires
        results.len() == work.len(),
    ensures
        decoded_of(work, results).len() + skipped_of(work, results) + errors_of(work, results).len()
            == work.len(),
    decreases work.len(),
{
    if work.len() > 0 {
        lemma_outcomes_partition(work.drop_first(), results.drop_first());
    }
}

/// Sorting the outcomes of two runs of work one after the other is sorting them
/// together.
pub proof fn lemma_outcomes_concat<M>(
    w1: Seq<WorkItem>,
    r1: Seq<Result<M, MediaDataError>>,
    w2: Seq<WorkItem>,
    r2: Seq<Result<M, MediaDataError>>,
)
    requires
        r1.len() == w1.len(),
    ensures
        decoded_of(w1 + w2, r1 + r2) == decoded_of(w1, r1) + decoded_of(w2, r2),
        skipped_of(w1 + w2, r1 + r2) == skipped_of(w1, r1) + skipped_of(w2, r2),
        errors_of(w1 + w2, r1 + r2) == errors_of(w1, r1) + errors_of(w2, r2),
    decreases w1.len(),
{
    if w1.len() == 0 {
        assert(w1 + w2 =~= w2);
        assert(r1 + r2 =~= r2);
        assert(decoded_of(w1, r1) + decoded_of(w2, r2) =~= decoded_of(w2, r2));
        assert(errors_of(w1, r1) + errors_of(w2, r2) =~= errors_of(w2, r2));
    } else {
        lemma_outcomes_concat(w1.drop_first(), r1.drop_first(), w2, r2);
        assert((w1 + w2).drop_first() =~= w1.drop_first() + w2);
        assert((r1 + r2).drop_first() =~= r1.drop_first() + r2);
        assert((w1 + w2)[0] == w1[0]);
        assert((r1 + r2)[0] == r1[0]);
        let d = decoded_of(w1.drop_first() + w2, r1.drop_first() + r2);
        let e = errors_of(w1.drop_first() + w2, r1.drop_first() + r2);
        match r1[0] {
            Ok(m) => {
                assert(seq![(m, w1[0].object_id)] + d =~= decoded_of(w1, r1) + decoded_of(w2, r2));
            },
            Err(err) => {
                if !is_no_metadata(err) {
                    assert(seq![error_line_of(w1[0].path@, err)] + e =~= errors_of(w1, r1)
                        + errors_of(w2, r2));
                }
            },
        }
    }
}

/// The outcomes of a run, split around the work item at `i`: what comes before
/// it, what it adds by itself, and what comes after it.
pub proof fn lemma_outcomes_around<M>(
    work: Seq<WorkItem>,
    results: Seq<Result<M, MediaDataError>>,
    i: int,
)
    requires
        results.len() == work.len(),
        0 <= i < work.len(),
    ensures
        ({
            let n = work.len() as int;
            let (wa, ra) = (work.subrange(0, i), results.subrange(0, i));
            let (wi, ri) = (work.subrange(i, i + 1), results.subrange(i, i + 1));
            let (wb, rb) = (work.subrange(i + 1, n), results.subrange(i + 1, n));
            &&& decoded_of(work, results) == decoded_of(wa, ra) + decoded_of(wi, ri) + decoded_of(
                wb,
                rb,
            )
            &&& skipped_of(work, results) == skipped_of(wa, ra) + skipped_of(wi, ri) + skipped_of(
                wb,
                rb,
            )
            &&& errors_of(work, results) == errors_of(wa, ra) + errors_of(wi, ri) + errors_of(
                wb,
                rb,
            )
        }),
{
    let n = work.len() as int;
    let (wa, ra) = (work.subrange(0, i), results.subrange(0, i));
    let (wi, ri) = (work.subrange(i, i + 1), results.subrange(i, i + 1));
    let (wb, rb) = (work.subrange(i + 1, n), results.subrange(i + 1, n));
    lemma_outcomes_concat(wi, ri, wb, rb);
    lemma_outcomes_concat(wa, ra, wi + wb, ri + rb);
    assert(wa + (wi + wb) =~= work);
    assert(ra + (ri + rb) =~= results);
    assert(decoded_of(wa, ra) + (decoded_of(wi, ri) + decoded_of(wb, rb)) =~= decoded_of(wa, ra)
        + decoded_of(wi, ri) + decoded_of(wb, rb));
    assert(errors_of(wa, ra) + (errors_of(wi, ri) + errors_of(wb, rb)) =~= errors_of(wa, ra)
        + errors_of(wi, ri) + errors_of(wb, rb));
}

/// What a single work item contributes by itself.
pub proof fn lemma_single_outcome<M>(work: Seq<WorkItem>, results: Seq<Result<M, MediaDataError>>)
    requires
        work.len() == 1,
        results.len() == 1,
    ensures
        decoded_of(work, results) == match results[0] {
            Ok(m) => seq![(m, work[0].object_id)],
            Err(_) => Seq::<(M, i32)>::empty(),
        },
        skipped_of(work, results) == match results[0] {
            Ok(_) => 0nat,
            Err(e) => if is_no_metadata(e) {
                1nat
            } else {
                0nat
            },
        },
        errors_of(work, results) == match results[0] {
            Ok(_) => Seq::<Seq<char>>::empty(),
            Err(e) => if is_no_metadata(e) {
                Seq::<Seq<char>>::empty()
            } else {
                seq![error_line_of(work[0].path@, e)]
            },
        },
{
    assert(work.drop_first().len() == 0);
    assert(skipped_of(work.drop_first(), results.drop_first()) == 0);
    assert(decoded_of(work.drop_first(), results.drop_first()) =~= Seq::<(M, i32)>::empty());
    assert(errors_of(work.drop_first(), results.drop_first()) =~= Seq::<Seq<char>>::empty());
    match results[0] {
        Ok(m) => {
            assert(seq![(m, work[0].object_id)] + Seq::<(M, i32)>::empty() =~= seq![
                (m, work[0].object_id),
            ]);
        },
        Err(e) => {
            assert(seq![error_line_of(work[0].path@, e)] + Seq::<Seq<char>>::empty() =~= seq![
                error_line_of(work[0].path@, e),
            ]);
        },
    }
}

/// Every candidate carries an object id.
pub proof fn lemma_all_with_id(ids: Seq<Option<i32>>)
    requires
        forall|i: int| 0 <= i < ids.len() ==> (#[trigger] ids[i]) is Some,
    ensures
        count_with_id(ids) == ids.len(),
    decreases ids.len(),
{
    if ids.len() > 0 {
        let d = ids.drop_last();
        assert forall|i: int| 0 <= i < d.len() implies (#[trigger] d[i]) is Some by {
            assert(d[i] == ids[i]);
        }
        lemma_all_with_id(d);
        assert(ids.last() == ids[ids.len() - 1]);
    }
}

/// Positions strictly increase along `p` and lie in `[lo, hi)`.
pub open spec fn pending_sorted_in(p: Seq<Pending>, lo: int, hi: int) -> bool {
    &&& forall|i: int, j: int| 0 <= i < j < p.len() ==> #[trigger] p[i].index < #[trigger] p[j].index
    &&& forall|i: int| 0 <= i < p.len() ==> lo <= #[trigger] p[i].index < hi
}

/// Positions strictly increase along `w` and lie in `[lo, hi)`.
pub open spec fn work_sorted_in(w: Seq<WorkItem>, lo: int, hi: int) -> bool {
    &&& forall|i: int, j: int| 0 <= i < j < w.len() ==> #[trigger] w[i].index < #[trigger] w[j].index
    &&& forall|i: int| 0 <= i < w.len() ==> lo <= #[trigger] w[i].index < hi
}

/// Pending candidates keep the order of the candidate list.
pub proof fn lemma_pending_sorted(ids: Seq<Option<i32>>, existing: Seq<i32>)
    requires
        ids.len() <= usize::MAX,
    ensures
        pending_sorted_in(pending_of(ids, existing), 0, ids.len() as int),
    decreases ids.len(),
{
    if ids.len() > 0 {
        let d = ids.drop_last();
        lemma_pending_sorted(d, existing);
        let rest = pending_of(d, existing);
        if let Some(id) = ids.last() {
            if !existing.contains(id) {
                let x = Pending { index: (ids.len() - 1) as usize, object_id: id };
                let p = rest.push(x);
                assert forall|i: int, j: int| 0 <= i < j < p.len() implies #[trigger] p[i].index
                    < #[trigger] p[j].index by {
                    assert(p[i] == rest[i]);
                    if j < rest.len() {
                        assert(p[j] == rest[j]);
                    }
                }
                assert forall|i: int| 0 <= i < p.len() implies 0 <= #[trigger] p[i].index
                    < ids.len() by {
                    if i < rest.len() {
                        assert(p[i] == rest[i]);
                    }
                }
            }
        }
    }
}

/// Work items keep the order of the pending candidates.
pub proof fn lemma_work_sorted(pending: Seq<Pending>, resolved: Seq<Option<String>>, lo: int, hi: int)
    requires
        pending_sorted_in(pending, lo, hi),
    ensures
        work_sorted_in(work_of(pending, resolved), lo, hi),
    decreases pending.len(),
{
    if pending.len() > 0 && resolved.len() > 0 {
        let p = pending.drop_first();
        let first = pending[0].index as int;
        assert forall|i: int| 0 <= i < p.len() implies first + 1 <= #[trigger] p[i].index < hi by {
            assert(p[i] == pending[i + 1]);
        }
        assert forall|i: int, j: int| 0 <= i < j < p.len() implies #[trigger] p[i].index
            < #[trigger] p[j].index by {
            assert(p[i] == pending[i + 1]);
            assert(p[j] == pending[j + 1]);
        }
        lemma_work_sorted(p, resolved.drop_first(), first + 1, hi);
    }
}

/// A strictly increasing run of `n` positions below `n` is `0, 1, ..., n - 1`.
pub proof fn lemma_sorted_full_is_identity(w: Seq<WorkItem>, n: int, i: int)
    requires
        work_sorted_in(w, 0, n),
        w.len() == n,
        0 <= i < n,
    ensures
        w[i].index == i,
{
    lemma_index_at_least(w, n, i);
    lemma_index_at_most(w, n, i);
}

proof fn lemma_index_at_least(w: Seq<WorkItem>, n: int, i: int)
    requires
        work_sorted_in(w, 0, n),
        0 <= i < w.len(),
    ensures
        w[i].index >= i,
    decreases i,
{
    if i > 0 {
        lemma_index_at_least(w, n, i - 1);
    }
}

proof fn lemma_index_at_most(w: Seq<WorkItem>, n: int, i: int)
    requires
        work_sorted_in(w, 0, n),
        w.len() == n,
        0 <= i < n,
    ensures
        w[i].index <= i,
    decreases n - i,
{
    if i < n - 1 {
        lemma_index_at_most(w, n, i + 1);
    }
}

} // verus!
