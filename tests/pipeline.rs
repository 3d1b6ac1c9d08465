use media_data_extractor::errors::{error_line, MediaDataError, MediaMetadataError};
use media_data_extractor::pipeline::{
    classify, finish, probe_ids, select_pending, work_list, record_set, OldMediaDataExtractorMetadata,
    Pending, RunSummary, WorkItem,
};

fn no_exif(path: &str) -> MediaDataError {
    MediaDataError::MediaData(MediaMetadataError::NoExifDataOnPath(path.to_string()))
}

fn io_error(msg: &str) -> MediaDataError {
    MediaDataError::FileIO(msg.to_string())
}

fn item(index: usize, path: &str, object_id: i32) -> WorkItem {
    WorkItem { index, path: path.to_string(), object_id }
}

/// Runs every stage over the given store contents, resolving each pending path
/// with `resolve` and decoding with `decode`; every decoded item is written.
fn run(
    candidates: &Vec<Option<i32>>,
    existing: &Vec<i32>,
    resolve: impl Fn(&Pending) -> Option<String>,
    decode: impl Fn(&WorkItem) -> Result<String, MediaDataError>,
) -> (RunSummary, Vec<usize>, Vec<(String, i32)>) {
    let Some(_ids) = probe_ids(candidates) else {
        return (RunSummary::empty(), vec![], vec![]);
    };
    let (pending, present) = select_pending(candidates, existing);
    let resolved: Vec<Option<String>> = pending.iter().map(|p| resolve(p)).collect();
    let work = work_list(&pending, resolved);
    let positions: Vec<usize> = work.iter().map(|w| w.position()).collect();
    let results: Vec<Result<String, MediaDataError>> = work.iter().map(|w| decode(w)).collect();
    let classified = classify(work, results);
    let inserted = classified.decoded.len() as u32;
    let summary = finish(present, classified.skipped, classified.errors, inserted);
    (summary, positions, classified.decoded)
}

#[test]
fn probe_of_no_candidates_is_none() {
    assert!(probe_ids(&vec![]).is_none());
}

#[test]
fn probe_lists_present_ids_in_order() {
    assert_eq!(probe_ids(&vec![Some(3), None, Some(1)]), Some(vec![3, 1]));
}

#[test]
fn record_set_holds_each_id() {
    let set = record_set(&vec![4, 9, 4]);
    assert_eq!(set.len(), 2);
    assert!(set.contains(&9));
    assert!(set.contains(&4));
    assert!(!set.contains(&5));
    assert!(record_set(&vec![]).is_empty());
}

#[test]
fn select_pending_skips_recorded_and_idless() {
    let (pending, present) = select_pending(&vec![Some(1), None, Some(2), Some(3)], &vec![2]);
    assert_eq!(present, 1);
    assert_eq!(
        pending,
        vec![Pending { index: 0, object_id: 1 }, Pending { index: 3, object_id: 3 }]
    );
}

#[test]
fn work_list_drops_unresolved_paths() {
    let pending = vec![Pending { index: 0, object_id: 1 }, Pending { index: 2, object_id: 7 }];
    let work = work_list(&pending, vec![None, Some("/a/b.jpg".to_string())]);
    assert_eq!(work.len(), 1);
    assert_eq!(work[0].index, 2);
    assert_eq!(work[0].path, "/a/b.jpg");
    assert_eq!(work[0].object_id, 7);
}

#[test]
fn classify_sorts_each_outcome() {
    let work = vec![item(0, "/x/a.jpg", 10), item(1, "/x/b.png", 11), item(2, "/x/c.tif", 12)];
    let results = vec![Ok("meta-a".to_string()), Err(no_exif("/x/b.png")), Err(io_error("denied"))];
    let c = classify(work, results);
    assert_eq!(c.decoded, vec![("meta-a".to_string(), 10)]);
    assert_eq!(c.skipped, 1);
    assert_eq!(c.errors, vec!["Couldn't process file: \"/x/c.tif\"; Error: denied".to_string()]);
}

#[test]
fn classify_keeps_order_of_errors() {
    let work = vec![item(0, "/p", 1), item(1, "/q", 2)];
    let results: Vec<Result<u8, MediaDataError>> = vec![
        Err(MediaDataError::TokioJoinHandle("panicked".to_string())),
        Err(MediaDataError::MediaData(MediaMetadataError::Other("bad tag".to_string()))),
    ];
    let c = classify(work, results);
    assert!(c.decoded.is_empty());
    assert_eq!(c.skipped, 0);
    assert_eq!(
        c.errors,
        vec![
            "Couldn't process file: \"/p\"; Error: failed to join tokio task: panicked".to_string(),
            "Couldn't process file: \"/q\"; Error: bad tag".to_string(),
        ]
    );
}

#[test]
fn error_messages() {
    assert_eq!(MediaDataError::Database("gone".to_string()).message(), "database error: gone");
    assert_eq!(io_error("denied").message(), "denied");
    assert_eq!(no_exif("/f").message(), "no exif data on path: /f");
    assert!(no_exif("/f").is_no_metadata());
    assert!(!io_error("x").is_no_metadata());
    assert_eq!(
        error_line(&"/d/e.heic".to_string(), &MediaDataError::Database("locked".to_string())),
        "Couldn't process file: \"/d/e.heic\"; Error: database error: locked"
    );
}

#[test]
fn finish_sums_skips() {
    let s = finish(2, 3, vec!["e".to_string()], 4);
    assert_eq!(s.metadata, OldMediaDataExtractorMetadata { extracted: 4, skipped: 5 });
    assert_eq!(s.errors, vec!["e".to_string()]);
}

#[test]
fn default_metadata_is_zero() {
    let m = OldMediaDataExtractorMetadata::default();
    assert_eq!(m.extracted, 0);
    assert_eq!(m.skipped, 0);
}

#[test]
fn empty_run_is_empty_summary() {
    let (s, positions, _) = run(&vec![], &vec![], |_| panic!("no resolve"), |_| panic!("no decode"));
    assert_eq!(s.metadata, OldMediaDataExtractorMetadata { extracted: 0, skipped: 0 });
    assert!(s.errors.is_empty());
    assert!(positions.is_empty());
}

#[test]
fn every_candidate_counted_once() {
    let candidates = vec![Some(1), Some(2), Some(3), Some(4), Some(5)];
    let existing = vec![2];
    let (s, _, _) = run(
        &candidates,
        &existing,
        |p| Some(format!("/lib/{}", p.object_id)),
        |w| match w.object_id {
            3 => Err(no_exif(&w.path)),
            4 => Err(io_error("truncated")),
            _ => Ok(format!("m{}", w.object_id)),
        },
    );
    assert_eq!(s.metadata.extracted, 2);
    assert_eq!(s.metadata.skipped, 2);
    assert_eq!(s.errors, vec!["Couldn't process file: \"/lib/4\"; Error: truncated".to_string()]);
    let total = s.metadata.extracted as usize + s.metadata.skipped as usize + s.errors.len();
    assert_eq!(total, candidates.len());
}

#[test]
fn unresolved_candidates_are_counted_nowhere() {
    let candidates = vec![Some(1), Some(2), None];
    let (s, positions, _) = run(
        &candidates,
        &vec![],
        |p| if p.object_id == 1 { None } else { Some("/ok".to_string()) },
        |_| Ok("m".to_string()),
    );
    assert_eq!(s.metadata.extracted, 1);
    assert_eq!(s.metadata.skipped, 0);
    assert!(s.errors.is_empty());
    assert_eq!(positions, vec![2]);
    let without_id = 1;
    let unresolved = 1;
    let total = s.metadata.extracted as usize
        + s.metadata.skipped as usize
        + s.errors.len()
        + without_id
        + unresolved;
    assert_eq!(total, candidates.len());
}

#[test]
fn second_run_extracts_nothing() {
    let candidates = vec![Some(1), None, Some(2)];
    let (first, _, written) =
        run(&candidates, &vec![], |p| Some(format!("/f{}", p.object_id)), |_| Ok("m".to_string()));
    assert_eq!(first.metadata.extracted, 2);
    let store: Vec<i32> = written.iter().map(|(_, id)| *id).collect();
    let (second, positions, _) =
        run(&candidates, &store, |_| panic!("no resolve"), |_| panic!("no decode"));
    assert_eq!(second.metadata.extracted, 0);
    assert_eq!(second.metadata.skipped, 2);
    assert!(second.errors.is_empty());
    assert!(positions.is_empty());
}

#[test]
fn all_recorded_all_skipped() {
    let candidates = vec![Some(7), Some(8), Some(9)];
    let (s, positions, _) =
        run(&candidates, &vec![9, 8, 7], |_| panic!("no resolve"), |_| panic!("no decode"));
    assert_eq!(s.metadata, OldMediaDataExtractorMetadata { extracted: 0, skipped: 3 });
    assert!(s.errors.is_empty());
    assert!(positions.is_empty());
}

#[test]
fn no_metadata_is_a_skip_not_an_error() {
    let (s, _, _) = run(&vec![Some(1)], &vec![], |_| Some("/n.png".to_string()), |w| {
        Err(no_exif(&w.path))
    });
    assert_eq!(s.metadata, OldMediaDataExtractorMetadata { extracted: 0, skipped: 1 });
    assert!(s.errors.is_empty());
}

#[test]
fn other_failure_is_one_error_with_path() {
    let (s, _, _) = run(&vec![Some(1), Some(2)], &vec![], |p| Some(format!("/d/{}.jpg", p.object_id)), |w| {
        if w.object_id == 2 { Err(io_error("unreadable")) } else { Ok("m".to_string()) }
    });
    assert_eq!(s.metadata.extracted, 1);
    assert_eq!(s.metadata.skipped, 0);
    assert_eq!(s.errors, vec!["Couldn't process file: \"/d/2.jpg\"; Error: unreadable".to_string()]);
}

#[test]
fn progress_positions_cover_all_candidates() {
    let candidates = vec![Some(5), Some(6), Some(7), Some(8)];
    let (_, mut positions, _) =
        run(&candidates, &vec![], |_| Some("/p".to_string()), |_| Ok("m".to_string()));
    positions.sort();
    assert_eq!(positions, vec![1, 2, 3, 4]);
}

#[test]
fn progress_positions_are_candidate_places() {
    let candidates = vec![Some(5), Some(6), None, Some(8)];
    let (_, positions, _) =
        run(&candidates, &vec![6], |_| Some("/p".to_string()), |_| Ok("m".to_string()));
    assert_eq!(positions, vec![1, 4]);
}

#[test]
fn work_item_position_is_one_based() {
    assert_eq!(item(0, "/a", 1).position(), 1);
    assert_eq!(item(41, "/a", 1).position(), 42);
}
