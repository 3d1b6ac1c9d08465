use std::collections::HashSet;
use vstd::prelude::*;

use crate::errors::{error_line, error_line_of, is_no_metadata, MediaDataError};

verus! {

/// A candidate that has an object id with no persisted record yet: its position
/// in the candidate list and its object id.
#[derive(Clone, Copy, Debug, PartialEq, Eq, Structural)]
pub struct Pending {
    pub index: usize,
    pub object_id: i32,
}

/// A pending candidate whose path was resolved: one unit of decode work.
#[derive(Clone, Debug)]
pub struct WorkItem {
    pub index: usize,
    pub path: String,
    pub object_id: i32,
}

impl WorkItem {
    /// The 1-based place of this item in the candidate list, as reported to the
    /// progress callback once its decode has finished.
    pub fn position(&self) -> (r: usize)
        requires
            self.index < usize::MAX,
        ensures
            r == self.index + 1,
    {
        self.index + 1
    }
}

/// The object ids that the candidates carry, in order.
pub open spec fn present_ids(ids: Seq<Option<i32>>) -> Seq<i32>
    decreases ids.len(),
{
    if ids.len() == 0 {
        seq![]
    } else {
        let rest = present_ids(ids.drop_last());
        match ids.last() {
            Some(id) => rest.push(id),
            None => rest,
        }
    }
}

/// How many candidates carry an object id.
pub open spec fn count_with_id(ids: Seq<Option<i32>>) -> nat
    decreases ids.len(),
{
    if ids.len() == 0 {
        0
    } else {
        count_with_id(ids.drop_last()) + if ids.last() is Some {
            1nat
        } else {
            0nat
        }
    }
}

/// How many candidates carry an object id that already has a record.
pub open spec fn count_present(ids: Seq<Option<i32>>, existing: Seq<i32>) -> nat
    decreases ids.len(),
{
    if ids.len() == 0 {
        0
    } else {
        count_present(ids.drop_last(), existing) + match ids.last() {
            Some(id) => if existing.contains(id) {
                1nat
            } else {
                0nat
            },
            None => 0nat,
        }
    }
}

/// The candidates that carry an object id with no record, in order, each with
/// its position.
pub open spec fn pending_of(ids: Seq<Option<i32>>, existing: Seq<i32>) -> Seq<Pending>
    decreases ids.len(),
{
    if ids.len() == 0 {
        seq![]
    } else {
        let rest = pending_of(ids.drop_last(), existing);
        match ids.last() {
            Some(id) => if existing.contains(id) {
                rest
            } else {
                rest.push(Pending { index: (ids.len() - 1) as usize, object_id: id })
            },
            None => rest,
        }
    }
}

/// The pending candidates whose path resolved, in order, with that path.
pub open spec fn work_of(pending: Seq<Pending>, resolved: Seq<Option<String>>) -> Seq<WorkItem>
    decreases pending.len(),
{
    if pending.len() == 0 || resolved.len() == 0 {
        seq![]
    } else {
        let rest = work_of(pending.drop_first(), resolved.drop_first());
        match resolved[0] {
            Some(path) => seq![
                WorkItem { index: pending[0].index, path, object_id: pending[0].object_id },
            ] + rest,
            None => rest,
        }
    }
}

/// How many path resolutions failed.
pub open spec fn count_unresolved(resolved: Seq<Option<String>>) -> nat
    decreases resolved.len(),
{
    if resolved.len() == 0 {
        0
    } else {
        count_unresolved(resolved.drop_first()) + if resolved[0] is None {
            1nat
        } else {
            0nat
        }
    }
}

/// The decoded metadata of the work items, in order, each with its object id.
pub open spec fn decoded_of<M>(work: Seq<WorkItem>, results: Seq<Result<M, MediaDataError>>) -> Seq<
    (M, i32),
>
    decreases work.len(),
{
    if work.len() == 0 || results.len() == 0 {
        seq![]
    } else {
        let rest = decoded_of(work.drop_first(), results.drop_first());
        match results[0] {
            Ok(m) => seq![(m, work[0].object_id)] + rest,
            Err(_) => rest,
        }
    }
}

/// How many work items turned out to hold no metadata.
pub open spec fn skipped_of<M>(work: Seq<WorkItem>, results: Seq<Result<M, MediaDataError>>) -> nat
    decreases work.len(),
{
    if work.len() == 0 || results.len() == 0 {
        0
    } else {
        skipped_of(work.drop_first(), results.drop_first()) + match results[0] {
            Err(e) => if is_no_metadata(e) {
                1nat
            } else {
                0nat
            },
            Ok(_) => 0nat,
        }
    }
}

/// The error lines of the work items that failed otherwise, in order.
pub open spec fn errors_of<M>(work: Seq<WorkItem>, results: Seq<Result<M, MediaDataError>>) -> Seq<
    Seq<char>,
>
    decreases work.len(),
{
    if work.len() == 0 || results.len() == 0 {
        seq![]
    } else {
        let rest = errors_of(work.drop_first(), results.drop_first());
        match results[0] {
            Err(e) => if is_no_metadata(e) {
                rest
            } else {
                seq![error_line_of(work[0].path@, e)] + rest
            },
            Ok(_) => rest,
        }
    }
}

/// The views of a sequence of strings.
pub open spec fn views_of(s: Seq<String>) -> Seq<Seq<char>> {
    s.map_values(|x: String| x@)
}

/// The object ids to look up in the store, or `None` where there are no
/// candidates: the run then ends at once with an empty summary and makes no
/// store call.
pub fn probe_ids(candidates: &Vec<Option<i32>>) -> (r: Option<Vec<i32>>)
    ensures
        r is None <==> candidates@.len() == 0,
        r matches Some(v) ==> v@ == present_ids(candidates@),
{
    if candidates.len() == 0 {
        return None;
    }
    let mut out: Vec<i32> = Vec::new();
    let mut i: usize = 0;
    while i < candidates.len()
        invariant
            i <= candidates@.len(),
            out@ == present_ids(candidates@.subrange(0, i as int)),
        decreases candidates@.len() - i,
    {
        proof {
            assert(candidates@.subrange(0, i + 1).drop_last() =~= candidates@.subrange(0, i as int));
        }
        if let Some(id) = candidates[i] {
            out.push(id);
        }
        i += 1;
    }
    proof {
        assert(candidates@.subrange(0, candidates@.len() as int) =~= candidates@);
    }
    Some(out)
}

/// The ids that already have a record, as a set for lookups.
pub fn record_set(existing: &Vec<i32>) -> (r: HashSet<i32>)
    ensures
        forall|id: i32| r@.contains(id) <==> existing@.contains(id),
{
    broadcast use vstd::std_specs::hash::group_hash_axioms;

    let mut set: HashSet<i32> = HashSet::new();
    let mut i: usize = 0;
    while i < existing.len()
        invariant
            i <= existing@.len(),
            forall|id: i32| set@.contains(id) <==> existing@.subrange(0, i as int).contains(id),
        decreases existing@.len() - i,
    {
        let ghost before = set@;
        set.insert(existing[i]);
        proof {
            let next = existing@.subrange(0, i + 1);
            let prev = existing@.subrange(0, i as int);
            assert forall|id: i32| set@.contains(id) <==> next.contains(id) by {
                if next.contains(id) {
                    let k = choose|k: int| 0 <= k < next.len() && next[k] == id;
                    if k < i {
                        assert(prev[k] == id);
                    }
                }
                if prev.contains(id) {
                    let k = choose|k: int| 0 <= k < prev.len() && prev[k] == id;
                    assert(next[k] == id);
                }
                assert(next[i as int] == existing@[i as int]);
            }
        }
        i += 1;
    }
    assert(existing@.subrange(0, existing@.len() as int) =~= existing@);
    set
}

/// Splits the candidates into those still to be decoded and a count of those
/// whose object already has a record. A candidate without an object id is in
/// neither.
pub fn select_pending(candidates: &Vec<Option<i32>>, existing: &Vec<i32>) -> (r: (
    Vec<Pending>,
    usize,
))
    ensures
        r.0@ == pending_of(candidates@, existing@),
        r.1 == count_present(candidates@, existing@),
{
    broadcast use vstd::std_specs::hash::group_hash_axioms;

    let recorded = record_set(existing);
    let mut pending: Vec<Pending> = Vec::new();
    let mut present: usize = 0;
    let mut i: usize = 0;
    while i < candidates.len()
        invariant
            i <= candidates@.len(),
            pending@ == pending_of(candidates@.subrange(0, i as int), existing@),
            present == count_present(candidates@.subrange(0, i as int), existing@),
            present <= i,
            forall|id: i32| recorded@.contains(id) <==> existing@.contains(id),
        decreases candidates@.len() - i,
    {
        proof {
            assert(candidates@.subrange(0, i + 1).drop_last() =~= candidates@.subrange(0, i as int));
        }
        if let Some(id) = candidates[i] {
            if recorded.contains(&id) {
                present += 1;
            } else {
                pending.push(Pending { index: i, object_id: id });
            }
        }
        i += 1;
    }
    proof {
        assert(candidates@.subrange(0, candidates@.len() as int) =~= candidates@);
    }
    (pending, present)
}

/// Pairs each pending candidate with the outcome of resolving its path, and
/// keeps those that resolved, in order.
pub fn work_list(pending: &Vec<Pending>, resolved: Vec<Option<String>>) -> (r: Vec<WorkItem>)
    requires
        resolved@.len() == pending@.len(),
    ensures
        r@ == work_of(pending@, resolved@),
{
    let ghost p0 = pending@;
    let ghost r0 = resolved@;
    let ghost n = r0.len() as int;
    let mut resolved = resolved;
    let mut out: Vec<WorkItem> = Vec::new();
    let mut k: usize = resolved.len();
    while k > 0
        invariant
            k <= n,
            n == p0.len(),
            n == r0.len(),
            p0 == pending@,
            resolved@ == r0.subrange(0, k as int),
            out@ == work_of(p0.subrange(k as int, n), r0.subrange(k as int, n)),
        decreases k,
    {
        k -= 1;
        proof {
            assert(p0.subrange(k as int, n).drop_first() =~= p0.subrange(k + 1, n));
            assert(r0.subrange(k as int, n).drop_first() =~= r0.subrange(k + 1, n));
            assert(resolved@.last() == r0[k as int]);
        }
        let entry = resolved.pop().unwrap();
        if let Some(path) = entry {
            let p = pending[k];
            out.insert(0, WorkItem { index: p.index, path, object_id: p.object_id });
        }
        proof {
            assert(r0.subrange(0, k as int) =~= resolved@);
        }
    }
    proof {
        assert(p0.subrange(0, n) =~= p0);
        assert(r0.subrange(0, n) =~= r0);
    }
    out
}

/// Counters of one run: rows written and candidates skipped.
#[derive(Clone, Copy, Debug, PartialEq, Eq, Structural)]
pub struct OldMediaDataExtractorMetadata {
    pub extracted: u32,
    pub skipped: u32,
}

impl Default for OldMediaDataExtractorMetadata {
    fn default() -> (r: Self)
        ensures
            r.extracted == 0,
            r.skipped == 0,
    {
        OldMediaDataExtractorMetadata { extracted: 0, skipped: 0 }
    }
}

/// What a run hands back: its counters and one line per file that failed.
#[derive(Clone, Debug)]
pub struct RunSummary {
    pub metadata: OldMediaDataExtractorMetadata,
    pub errors: Vec<String>,
}

impl RunSummary {
    /// The summary of a run that had nothing to do.
    pub fn empty() -> (r: RunSummary)
        ensures
            r.metadata.extracted == 0,
            r.metadata.skipped == 0,
            r.errors@.len() == 0,
    {
        RunSummary { metadata: OldMediaDataExtractorMetadata::default(), errors: Vec::new() }
    }
}

/// The decode outcomes of a run, sorted: metadata to persist with its object
/// id, a count of files with no metadata, and a line for each other failure.
pub struct Classified<M> {
    pub decoded: Vec<(M, i32)>,
    pub skipped: usize,
    pub errors: Vec<String>,
}

/// Sorts each work item's decode outcome into exactly one of: decoded (kept for
/// persistence), skipped (no metadata in the file) or errored (reported with its
/// path). Order is kept within each.
pub fn classify<M>(work: Vec<WorkItem>, results: Vec<Result<M, MediaDataError>>) -> (r: Classified<M>)
    requires
        results@.len() == work@.len(),
    ensures
        r.decoded@ == decoded_of(work@, results@),
        r.skipped == skipped_of(work@, results@),
        views_of(r.errors@) == errors_of(work@, results@),
{
    let ghost w0 = work@;
    let ghost r0 = results@;
    let ghost n = w0.len() as int;
    let mut work = work;
    let mut results = results;
    let mut decoded: Vec<(M, i32)> = Vec::new();
    let mut skipped: usize = 0;
    let mut errors: Vec<String> = Vec::new();
    let mut k: usize = work.len();
    while k > 0
        invariant
            k <= n,
            n == w0.len(),
            n == r0.len(),
            n <= usize::MAX,
            work@ == w0.subrange(0, k as int),
            results@ == r0.subrange(0, k as int),
            decoded@ == decoded_of(w0.subrange(k as int, n), r0.subrange(k as int, n)),
            skipped == skipped_of(w0.subrange(k as int, n), r0.subrange(k as int, n)),
            skipped <= n - k,
            views_of(errors@) == errors_of(w0.subrange(k as int, n), r0.subrange(k as int, n)),
        decreases k,
    {
        k -= 1;
        proof {
            assert(w0.subrange(k as int, n).drop_first() =~= w0.subrange(k + 1, n));
            assert(r0.subrange(k as int, n).drop_first() =~= r0.subrange(k + 1, n));
            assert(work@.last() == w0[k as int]);
            assert(results@.last() == r0[k as int]);
        }
        let item = work.pop().unwrap();
        let outcome = results.pop().unwrap();
        match outcome {
            Ok(m) => {
                decoded.insert(0, (m, item.object_id));
            },
            Err(e) => {
                if e.is_no_metadata() {
                    skipped += 1;
                } else {
                    let line = error_line(&item.path, &e);
                    let ghost before = errors@;
                    errors.insert(0, line);
                    proof {
                        assert(views_of(errors@) =~= seq![line@] + views_of(before));
                    }
                }
            },
        }
        proof {
            assert(w0.subrange(0, k as int) =~= work@);
            assert(r0.subrange(0, k as int) =~= results@);
        }
    }
    proof {
        assert(w0.subrange(0, n) =~= w0);
        assert(r0.subrange(0, n) =~= r0);
    }
    Classified { decoded, skipped, errors }
}

/// The summary of a run: `inserted` rows written by the bulk insert, the
/// candidates whose object already had a record and those with no metadata
/// counted as skipped, and the error lines as they are.
pub fn finish(already_present: usize, no_metadata: usize, errors: Vec<String>, inserted: u32) -> (r:
    RunSummary)
    requires
        already_present + no_metadata <= u32::MAX,
    ensures
        r.metadata.extracted == inserted,
        r.metadata.skipped == already_present + no_metadata,
        r.errors@ == errors@,
{
    RunSummary {
        metadata: OldMediaDataExtractorMetadata {
            extracted: inserted,
            skipped: (already_present + no_metadata) as u32,
        },
        errors,
    }
}

} // verus!
