use vstd::prelude::*;

use crate::errors::{error_line_of, is_no_metadata, MediaDataError};
use crate::lemmas::{
    lemma_all_with_id,
    lemma_outcomes_around,
    lemma_outcomes_partition,
    lemma_pending_and_present,
    lemma_pending_sorted,
    lemma_single_outcome,
    lemma_with_id_bounded,
    lemma_work_len_or_unresolved,
    lemma_sorted_full_is_identity,
    lemma_work_len,
    lemma_work_sorted,
};
use crate::pipeline::{
    count_present,
    count_unresolved,
    count_with_id,
    decoded_of,
    errors_of,
    pending_of,
    skipped_of,
    work_of,
    WorkItem,
};

verus! {

/// Every candidate ends in exactly one place: decoded, already present, no
/// metadata, failed, without an object id, or with a path that did not resolve.
/// What is written is then the decoded items less those whose transform failed
/// or that the store skipped as duplicates.
pub proof fn law_every_candidate_accounted<M>(
    candidates: Seq<Option<i32>>,
    existing: Seq<i32>,
    resolved: Seq<Option<String>>,
    results: Seq<Result<M, MediaDataError>>,
)
    requires
        resolved.len() == pending_of(candidates, existing).len(),
        results.len() == work_of(pending_of(candidates, existing), resolved).len(),
    ensures
        ({
            let work = work_of(pending_of(candidates, existing), resolved);
            decoded_of(work, results).len() + count_present(candidates, existing) + skipped_of(
                work,
                results,
            ) + errors_of(work, results).len() + (candidates.len() - count_with_id(candidates))
                + count_unresolved(resolved) == candidates.len()
        }),
{
    let pending = pending_of(candidates, existing);
    let work = work_of(pending, resolved);
    lemma_with_id_bounded(candidates);
    lemma_pending_and_present(candidates, existing);
    lemma_work_len_or_unresolved(pending, resolved);
    lemma_outcomes_partition(work, results);
}

/// Every candidate is counted exactly once, as written, skipped or errored:
/// `extracted + skipped + errors == candidates`, where `skipped` is the
/// candidates whose object already had a record plus the files that held no
/// metadata. This holds when each candidate carries an object id, each path
/// resolves and each decoded file is written (`inserted` rows); a candidate
/// dropped for a failed resolution, a failed transform or a duplicate at write
/// time is counted nowhere.
pub proof fn law_every_candidate_counted<M>(
    candidates: Seq<Option<i32>>,
    existing: Seq<i32>,
    resolved: Seq<Option<String>>,
    results: Seq<Result<M, MediaDataError>>,
    inserted: nat,
)
    requires
        forall|i: int| 0 <= i < candidates.len() ==> (#[trigger] candidates[i]) is Some,
        resolved.len() == pending_of(candidates, existing).len(),
        forall|i: int| 0 <= i < resolved.len() ==> (#[trigger] resolved[i]) is Some,
        results.len() == work_of(pending_of(candidates, existing), resolved).len(),
        inserted == decoded_of(work_of(pending_of(candidates, existing), resolved), results).len(),
    ensures
        ({
            let work = work_of(pending_of(candidates, existing), resolved);
            inserted + count_present(candidates, existing) + skipped_of(work, results) + errors_of(
                work,
                results,
            ).len() == candidates.len()
        }),
{
    let pending = pending_of(candidates, existing);
    let work = work_of(pending, resolved);
    lemma_all_with_id(candidates);
    lemma_pending_and_present(candidates, existing);
    lemma_work_len(pending, resolved);
    lemma_outcomes_partition(work, results);
}

/// A run over candidates whose object ids all have records already (as after a
/// run that wrote every one of them) decodes nothing and writes nothing, and
/// counts every candidate with an object id as skipped.
pub proof fn law_rerun_skips_recorded<M>(
    candidates: Seq<Option<i32>>,
    existing: Seq<i32>,
    resolved: Seq<Option<String>>,
    results: Seq<Result<M, MediaDataError>>,
)
    requires
        forall|i: int|
            0 <= i < candidates.len() && (#[trigger] candidates[i]) is Some ==> existing.contains(
                candidates[i]->0,
            ),
    ensures
        pending_of(candidates, existing).len() == 0,
        work_of(pending_of(candidates, existing), resolved).len() == 0,
        decoded_of(work_of(pending_of(candidates, existing), resolved), results).len() == 0,
        count_present(candidates, existing) == count_with_id(candidates),
    decreases candidates.len(),
{
    if candidates.len() > 0 {
        let d = candidates.drop_last();
        assert forall|i: int|
            0 <= i < d.len() && (#[trigger] d[i]) is Some implies existing.contains(d[i]->0) by {
            assert(d[i] == candidates[i]);
        }
        law_rerun_skips_recorded(d, existing, resolved, results);
        assert(candidates.last() == candidates[candidates.len() - 1]);
    }
}

/// Where every candidate already has a record, none is decoded and all are
/// counted as skipped.
pub proof fn law_all_recorded_all_skipped(candidates: Seq<Option<i32>>, existing: Seq<i32>)
    requires
        forall|i: int|
            0 <= i < candidates.len() ==> ((#[trigger] candidates[i]) matches Some(id)
                && existing.contains(id)),
    ensures
        pending_of(candidates, existing).len() == 0,
        count_present(candidates, existing) == candidates.len(),
{
    assert forall|i: int| 0 <= i < candidates.len() implies (#[trigger] candidates[i]) is Some by {}
    law_rerun_skips_recorded::<()>(candidates, existing, seq![], seq![]);
    lemma_all_with_id(candidates);
}

/// A file that holds no metadata adds one to the skipped count, and nothing to
/// the errors or to what is written.
pub proof fn law_no_metadata_is_skipped<M>(
    work: Seq<WorkItem>,
    results: Seq<Result<M, MediaDataError>>,
    i: int,
)
    requires
        results.len() == work.len(),
        0 <= i < work.len(),
        (results[i] matches Err(e) && is_no_metadata(e)),
    ensures
        ({
            let n = work.len() as int;
            let (wa, ra) = (work.subrange(0, i), results.subrange(0, i));
            let (wb, rb) = (work.subrange(i + 1, n), results.subrange(i + 1, n));
            &&& skipped_of(work, results) == skipped_of(wa, ra) + 1 + skipped_of(wb, rb)
            &&& errors_of(work, results) == errors_of(wa, ra) + errors_of(wb, rb)
            &&& decoded_of(work, results) == decoded_of(wa, ra) + decoded_of(wb, rb)
        }),
{
    let n = work.len() as int;
    let (wi, ri) = (work.subrange(i, i + 1), results.subrange(i, i + 1));
    lemma_outcomes_around(work, results, i);
    lemma_single_outcome(wi, ri);
    assert(ri[0] == results[i]);
    let (wa, ra) = (work.subrange(0, i), results.subrange(0, i));
    let (wb, rb) = (work.subrange(i + 1, n), results.subrange(i + 1, n));
    assert(errors_of(wa, ra) + Seq::<Seq<char>>::empty() =~= errors_of(wa, ra));
    assert(decoded_of(wa, ra) + Seq::<(M, i32)>::empty() =~= decoded_of(wa, ra));
}

/// A file that fails for any other reason adds exactly one error, naming its
/// resolved path, and nothing to the skipped count or to what is written.
pub proof fn law_failure_is_reported<M>(
    work: Seq<WorkItem>,
    results: Seq<Result<M, MediaDataError>>,
    i: int,
)
    requires
        results.len() == work.len(),
        0 <= i < work.len(),
        (results[i] matches Err(e) && !is_no_metadata(e)),
    ensures
        ({
            let n = work.len() as int;
            let (wa, ra) = (work.subrange(0, i), results.subrange(0, i));
            let (wb, rb) = (work.subrange(i + 1, n), results.subrange(i + 1, n));
            &&& errors_of(work, results) == errors_of(wa, ra) + seq![
                error_line_of(work[i].path@, results[i]->Err_0),
            ] + errors_of(wb, rb)
            &&& skipped_of(work, results) == skipped_of(wa, ra) + skipped_of(wb, rb)
            &&& decoded_of(work, results) == decoded_of(wa, ra) + decoded_of(wb, rb)
        }),
{
    let n = work.len() as int;
    let (wi, ri) = (work.subrange(i, i + 1), results.subrange(i, i + 1));
    lemma_outcomes_around(work, results, i);
    lemma_single_outcome(wi, ri);
    assert(ri[0] == results[i]);
    assert(wi[0] == work[i]);
    let (wa, ra) = (work.subrange(0, i), results.subrange(0, i));
    assert(decoded_of(wa, ra) + Seq::<(M, i32)>::empty() =~= decoded_of(wa, ra));
}

/// The progress positions of a run (each work item's 1-based place in the
/// candidate list) are distinct, increase along the work list and lie in
/// `1..=candidates.len()`; where no candidate was dropped, they are exactly
/// `1..=candidates.len()`, one per work item.
pub proof fn law_progress_positions(
    candidates: Seq<Option<i32>>,
    existing: Seq<i32>,
    resolved: Seq<Option<String>>,
)
    requires
        candidates.len() <= usize::MAX,
    ensures
        ({
            let work = work_of(pending_of(candidates, existing), resolved);
            &&& forall|i: int|
                0 <= i < work.len() ==> 1 <= #[trigger] work[i].index + 1 <= candidates.len()
            &&& forall|i: int, j: int|
                0 <= i < j < work.len() ==> #[trigger] work[i].index + 1 < #[trigger] work[j].index
                    + 1
            &&& work.len() == candidates.len() ==> forall|i: int|
                0 <= i < work.len() ==> #[trigger] work[i].index + 1 == i + 1
        }),
{
    let n = candidates.len() as int;
    let pending = pending_of(candidates, existing);
    let work = work_of(pending, resolved);
    lemma_pending_sorted(candidates, existing);
    lemma_work_sorted(pending, resolved, 0, n);
    if work.len() == n {
        assert forall|i: int| 0 <= i < work.len() implies #[trigger] work[i].index + 1 == i + 1 by {
            lemma_sorted_full_is_identity(work, n, i);
        }
    }
}

} // verus!
