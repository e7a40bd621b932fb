use ossfs::block_read::BlockRead;
use ossfs::budget::{upload_budget_units, whole_units, DirtyBudget, UploadBudget, BUDGET_UNIT};
use ossfs::config::{READ_CACHE_MAX_BYTES, RETRY_MAX_ATTEMPTS};
use ossfs::error::{FsError, Step};
use ossfs::etags::{EtagChecks, EtagNext};
use ossfs::fetching::{
    get_range, got_range, is_s3_invalid_range, is_s3_not_found, slice_at, GetReply,
};
use ossfs::keymap::KeyMap;
use ossfs::metrics::Metrics;
use ossfs::prefetch::{
    block_range, prefetch_begin, prefetch_ended, Inflight, PrefetchNext, PrefetchOutcome,
};
use ossfs::read_cache::ReadCache;
use ossfs::reading::{ReadHints, ReadNext, Reader};
use ossfs::retry::{RetryOutcome, RetryQueue, RetrySource, RetryUpload};
use ossfs::stat_cache::TimedCache;
use ossfs::trash::TombstoneIndex;

#[test]
fn dirty_budget_rounds_up_and_disables_on_zero() {
    assert!(DirtyBudget::new(0).is_none());
    let budget = DirtyBudget::new(BUDGET_UNIT + 1).unwrap();
    assert_eq!(budget.max_units(), 2);
}

#[test]
fn write_buffers_hold_units() {
    let budget = DirtyBudget::new(2 * BUDGET_UNIT).unwrap();
    assert_eq!(budget.unit(), BUDGET_UNIT);
    assert_eq!(budget.units_for(BUDGET_UNIT + 1), Ok(2));
    assert_eq!(budget.units_for(0), Ok(0));
    let e = budget.units_for(2 * BUDGET_UNIT + 1).unwrap_err();
    assert_eq!(e.message(), "2097153 bytes exceeds max-dirty-bytes budget");
    let held = budget.try_acquire_units(2);
    assert!(held.is_some());
    assert!(budget.try_acquire_units(1).is_none());
    assert!(budget.try_acquire_units(0).is_some());
    drop(held);
    assert_eq!(budget.semaphore().available_permits(), 2);
    assert!(budget.try_acquire_units(3).is_none());
    assert!(DirtyBudget::acquire_units(0, None).is_ok());
    let permit = budget.semaphore().clone().try_acquire_owned().ok();
    assert!(DirtyBudget::acquire_units(1, permit).is_ok());
    match DirtyBudget::acquire_units(1, None) {
        Ok(_) => panic!("granted"),
        Err(e) => assert_eq!(e.message(), "dirty buffer budget closed"),
    }
}

#[test]
fn upload_budgets_come_in_whole_units() {
    assert_eq!(upload_budget_units(None), None);
    assert_eq!(upload_budget_units(Some(0)), None);
    assert_eq!(upload_budget_units(Some(1)), Some(1));
    assert_eq!(upload_budget_units(Some(BUDGET_UNIT + 1)), Some(2));
    assert_eq!(whole_units(usize::MAX), usize::MAX / BUDGET_UNIT + 1);
    let free = UploadBudget::new(None);
    assert!(!free.is_limited());
    assert!(matches!(free.acquire_upload_budget(usize::MAX), Ok(None)));
    let small = UploadBudget::new(Some(1));
    assert!(matches!(small.acquire_upload_budget(0), Ok(None)));
    assert_eq!(small.grow(1).map(|p| p.num_permits()), Some(1));
    assert!(small.grow(2).is_none());
}

#[test]
fn growing_takes_units_of_this_budget_alone() {
    let budget = UploadBudget::new(Some(2 * BUDGET_UNIT));
    let other = UploadBudget::new(Some(2 * BUDGET_UNIT));
    let held = budget.grow(2);
    assert_eq!(held.as_ref().map(|p| p.num_permits()), Some(2));
    assert!(budget.grow(1).is_none());
    assert!(other.grow(2).is_some());
    drop(held);
    assert!(budget.grow(2).is_some());
    assert!(UploadBudget::new(None).grow(1).is_none());
}

#[test]
fn units_come_out_of_the_budget_that_is_asked() {
    let budget = DirtyBudget::new(3 * BUDGET_UNIT).unwrap();
    let other = DirtyBudget::new(3 * BUDGET_UNIT).unwrap();
    let held = budget.try_acquire_units(2);
    assert!(held.is_some());
    assert_eq!(budget.semaphore().available_permits(), 1);
    assert_eq!(other.semaphore().available_permits(), 3);
    assert!(budget.try_acquire_units(2).is_none());
    assert_eq!(budget.semaphore().available_permits(), 1);
    drop(held);
    assert_eq!(budget.semaphore().available_permits(), 3);

    let waited = budget.semaphore().clone().try_acquire_many_owned(3).ok();
    let held = DirtyBudget::acquire_units(3, waited).ok();
    assert!(budget.try_acquire_units(1).is_none());
    drop(held);
    assert!(budget.try_acquire_units(3).is_some());

    let uploads = UploadBudget::new(Some(2 * BUDGET_UNIT));
    let held = uploads.acquire_upload_budget(BUDGET_UNIT + 1).unwrap();
    assert_eq!(held.as_ref().map(|p| p.num_permits()), Some(2));
    assert!(matches!(
        uploads.acquire_upload_budget(1),
        Err(FsError::UploadBudgetHeld { bytes: 1 })
    ));
    drop(held);
    assert!(matches!(uploads.acquire_upload_budget(1), Ok(Some(_))));
}

#[test]
fn read_windows_are_evicted_by_use() {
    let mut cache = ReadCache::new(6);
    cache.insert("/a", 0, vec![1, 2, 3], 1);
    cache.insert("/b", 0, vec![4, 5, 6], 2);
    assert_eq!(cache.hit("/a", 1, 2, 3), Some(vec![2, 3]));
    cache.insert("/c", 0, vec![7], 4);
    assert_eq!(cache.hit("/b", 0, 1, 5), None);
    assert_eq!(cache.hit("/a", 0, 1, 5), Some(vec![1]));
    assert_eq!(cache.hit("/c", 0, 1, 5), Some(vec![7]));
    cache.insert("/big", 0, vec![0; 7], 6);
    assert_eq!(cache.hit("/big", 0, 1, 7), None);
    assert_eq!(cache.hit("/a", 0, 4, 7), None);
    assert_eq!(cache.hit("/a", u64::MAX, 1, 7), None);
    cache.clear();
    assert_eq!(cache.hit("/a", 0, 1, 8), None);
    assert!(READ_CACHE_MAX_BYTES > 0);
}

#[test]
fn a_reader_without_a_window_fetches_what_is_asked() {
    let mut reader = Reader::new(0, 100);
    let mut m = Metrics::default();
    for offset in [0, 4] {
        match reader.begin("/f", offset, 4, 1, &mut m) {
            ReadNext::Fetch { len, sequential } => assert_eq!((len, sequential), (4, false)),
            other => panic!("{other:?}"),
        }
        assert_eq!(reader.complete("/f", offset, 4, 4, vec![1, 2], 1), vec![1, 2]);
    }
    assert_eq!(m, Metrics::default());
}

#[test]
fn hints_are_forgotten() {
    let mut hints = ReadHints::new();
    hints.note_read_end("/f", 8);
    assert!(hints.continues("/f", 8));
    assert!(!hints.continues("/f", 9));
    hints.forget("/f");
    assert!(!hints.continues("/f", 8));
    let mut reader = Reader::new(4, 100);
    reader.hints.note_read_end("/f", 8);
    reader.invalidate("/f");
    assert!(!reader.hints.continues("/f", 8));
    reader.hints.note_read_end("/g", 1);
    reader.clear();
    assert!(!reader.hints.continues("/g", 1));
}

#[test]
fn timed_caches_drop_the_oldest() {
    let mut cache: TimedCache<u8> = TimedCache::new(10, 2);
    cache.insert("a", 1, 5);
    cache.insert("b", 2, 3);
    cache.insert("c", 3, 6);
    assert_eq!(cache.len(), 2);
    assert!(!cache.holds("b"));
    assert_eq!(cache.get("a", 14), Some(&1));
    assert_eq!(cache.get("a", 15), None);
    cache.insert("a", 9, 20);
    assert_eq!(cache.get("a", 20), Some(&9));
    cache.invalidate_under("a");
    assert!(!cache.holds("a"));
    cache.clear();
    assert_eq!(cache.len(), 0);
}

#[test]
fn maps_keep_one_value_per_key() {
    let mut map: KeyMap<u8> = KeyMap::new();
    map.insert("a", 1);
    map.insert("a", 2);
    map.insert("b/x", 3);
    map.insert("b/y", 4);
    assert_eq!(map.len(), 3);
    assert_eq!(map.get("a"), Some(&2));
    map.remove_under("b/");
    assert_eq!(map.len(), 1);
    assert_eq!(map.remove("a"), Some(2));
    assert_eq!(map.remove("a"), None);
}

#[test]
fn tombstones_cover_files_and_trees() {
    let mut index = TombstoneIndex::new();
    assert!(index.is_empty());
    index.insert("f", false);
    index.insert("d", true);
    index.insert("e/", true);
    assert_eq!(index.len(), 3);
    for key in ["f", "d", "d/", "d/x", "e/y", "e"] {
        assert!(index.is_covered(key), "{key}");
    }
    for key in ["f/x", "dx", "", "ex"] {
        assert!(!index.is_covered(key), "{key}");
    }
    index.remove("d", true);
    index.remove("f", true);
    assert!(!index.is_covered("d/x"));
    assert!(index.is_covered("f"));
}

/// Reads through blocks of four bytes, with the blocks in `cached` at hand.
fn read(object: &[u8], offset: u64, len: usize, cached: &[u64]) -> (Vec<u8>, Metrics, Vec<u64>) {
    let mut m = Metrics::default();
    let mut read = BlockRead::new(offset, len, 4);
    let mut stored = Vec::new();
    while let Some((block, start)) = read.next() {
        let from = (start as usize).min(object.len());
        let to = (from + 4).min(object.len());
        if cached.contains(&block) {
            read.hit(&object[from..to], &mut m);
        } else {
            read.miss(&mut m);
            if read.fetched(&object[from..to]) {
                stored.push(block);
            }
        }
    }
    (read.out, m, stored)
}

#[test]
fn block_reads_are_exact() {
    let object: Vec<u8> = (0..10).collect();
    for offset in 0..12u64 {
        for len in 0..12usize {
            let (out, _, _) = read(&object, offset, len, &[1]);
            let from = (offset as usize).min(10);
            let to = (from + len).min(10);
            assert_eq!(out, object[from..to], "{offset} {len}");
        }
    }
    let (out, m, stored) = read(&object, 2, 7, &[1]);
    assert_eq!(out, vec![2, 3, 4, 5, 6, 7, 8]);
    assert_eq!((m.disk_cache_hits, m.disk_cache_misses), (1, 2));
    assert_eq!(stored, vec![0, 2]);
    let (out, _, _) = read(&object, 0, usize::MAX, &[]);
    assert_eq!(out, object);
}

#[test]
fn sequential_block_reads_look_ahead() {
    let mut m = Metrics::default();
    let mut whole = BlockRead::new(0, 4, 4);
    whole.fetched(&[0, 1, 2, 3]);
    assert_eq!(whole.prefetch(true, 2, &mut m), Some((1, 2)));
    assert_eq!(m.prefetch_started, 1);
    assert_eq!(whole.prefetch(false, 2, &mut m), None);
    assert_eq!(whole.prefetch(true, 0, &mut m), None);
    let mut short = BlockRead::new(0, 4, 4);
    short.fetched(&[0, 1]);
    assert_eq!(short.prefetch(true, 2, &mut m), None);
}

#[test]
fn a_block_is_fetched_ahead_once() {
    let mut inflight = Inflight::new();
    let mut m = Metrics::default();
    assert!(prefetch_begin(&mut inflight, "k", 1, &mut m));
    assert!(!prefetch_begin(&mut inflight, "k", 1, &mut m));
    assert!(prefetch_begin(&mut inflight, "k", 2, &mut m));
    assert_eq!((inflight.len(), m.prefetch_skipped), (2, 1));
    inflight.end("k", 1);
    assert!(inflight.begin("k", 1));
    inflight.end("absent", 1);
    assert_eq!(inflight.len(), 2);
    assert_eq!(block_range(2, 4), "bytes=8-11");
}

#[test]
fn fetching_ahead_stops_at_trouble() {
    let mut m = Metrics::default();
    assert_eq!(prefetch_ended(PrefetchOutcome::Received, &mut m), PrefetchNext::Store);
    assert_eq!(prefetch_ended(PrefetchOutcome::Empty, &mut m), PrefetchNext::Stop);
    assert_eq!(prefetch_ended(PrefetchOutcome::NoPermit, &mut m), PrefetchNext::Stop);
    assert_eq!(m, Metrics::default());
    assert_eq!(prefetch_ended(PrefetchOutcome::RequestFailed, &mut m), PrefetchNext::Stop);
    assert_eq!(prefetch_ended(PrefetchOutcome::BodyFailed, &mut m), PrefetchNext::Skip);
    assert_eq!((m.prefetch_failed, m.s3_errors), (2, 0));
    assert_eq!(prefetch_ended(PrefetchOutcome::TimedOut, &mut m), PrefetchNext::Stop);
    assert_eq!((m.prefetch_failed, m.s3_errors), (3, 1));
}

#[test]
fn tags_are_compared_when_they_are_due() {
    let mut checks = EtagChecks::new(10);
    let mut m = Metrics::default();
    assert!(checks.due("k", 5, &mut m));
    assert_eq!((m.s3_heads, m.s3_etag_heads), (1, 1));
    assert_eq!(checks.answered("k", None, Some("e1"), 5), EtagNext::Changed);
    assert!(!checks.due("k", 14, &mut m));
    assert!(checks.due("k", 15, &mut m));
    assert_eq!(checks.answered("k", Some("e1"), Some("e1"), 15), EtagNext::Same);
    assert!(!checks.due("k", 24, &mut m));
    assert_eq!(checks.answered("k", Some("e1"), Some("e2"), 30), EtagNext::Changed);
    assert_eq!(checks.answered("j", Some("e1"), None, 30), EtagNext::Unknown);
    assert_eq!(checks.answered("j", Some("e1"), Some(""), 30), EtagNext::Unknown);
    assert!(checks.due("j", 30, &mut m));
    checks.clear();
    assert!(checks.due("k", 30, &mut m));
}

#[test]
fn ranges_are_asked_for_and_counted() {
    let mut m = Metrics::default();
    assert_eq!(get_range(0, usize::MAX, &mut m), "bytes=0-");
    assert_eq!(get_range(0, 4, &mut m), "bytes=0-3");
    assert_eq!(get_range(10, 5, &mut m), "bytes=10-14");
    assert_eq!(m.s3_gets, 3);
    assert!(is_s3_not_found(Some(404)) && !is_s3_not_found(Some(403)) && !is_s3_not_found(None));
    assert!(is_s3_invalid_range(Some(416), b""));
    assert!(is_s3_invalid_range(Some(400), b"<Code>InvalidRange</Code>\xff"));
    assert!(!is_s3_invalid_range(Some(400), b"<Code>Other</Code>"));
    assert!(!is_s3_invalid_range(Some(404), b"InvalidRange"));
    assert!(!is_s3_invalid_range(None, b"InvalidRange"));
    assert_eq!(slice_at(&[1, 2, 3], 1, 1), vec![2]);
    assert_eq!(slice_at(&[1, 2, 3], 9, 1), Vec::<u8>::new());
}

#[test]
fn replies_to_a_range() {
    let mut m = Metrics::default();
    assert_eq!(got_range(4, GetReply::Body { bytes: vec![1, 2] }, &mut m), Ok(vec![1, 2]));
    assert_eq!(got_range(4, GetReply::BehindEnd, &mut m), Ok(vec![]));
    assert_eq!((m.download_bytes_total, m.s3_errors), (2, 0));
    assert_eq!(
        got_range(4, GetReply::Refused { cause: vec![] }, &mut m),
        Err(FsError::Failed { step: Step::Get, cause: vec![] })
    );
    assert_eq!(
        got_range(4, GetReply::BodyFailed { cause: vec![] }, &mut m),
        Err(FsError::Failed { step: Step::GetBody, cause: vec![] })
    );
    let e = got_range(4, GetReply::TimedOut, &mut m).unwrap_err();
    assert_eq!(e.message(), "s3 get body stalled past its budget (4 bytes requested)");
    assert_eq!((m.s3_errors, m.s3_get_errors), (3, 3));
}

fn upload(attempts: u32) -> RetryUpload {
    RetryUpload { path: "/f".into(), spool: None, buf: Some(vec![1]), attempts }
}

#[test]
fn failed_uploads_are_tried_again_and_given_up() {
    let mut queue = RetryQueue::new();
    queue.push_back(upload(0));
    queue.push_back(upload(1));
    let item = queue.pop_front().unwrap();
    assert_eq!(item.source(), RetrySource::Memory);
    assert_eq!(item.wait_secs(), 5);
    match item.tried(false) {
        RetryOutcome::Again { item } => assert_eq!((item.attempts, item.wait_secs()), (1, 15)),
        other => panic!("{other:?}"),
    }
    assert_eq!(
        upload(RETRY_MAX_ATTEMPTS - 1).tried(false),
        RetryOutcome::GaveUp { item: upload(RETRY_MAX_ATTEMPTS) }
    );
    assert_eq!(queue.pop_front(), Some(upload(1)));
    assert_eq!(queue.pop_front(), None);
    let spool = Some(std::path::PathBuf::from("spool"));
    let item = RetryUpload { path: "/f".into(), spool: spool.clone(), buf: None, attempts: 3 };
    assert_eq!(item.source(), RetrySource::File);
    assert_eq!(item.tried(true), RetryOutcome::Succeeded { spool });
    let nothing = RetryUpload { path: "/f".into(), spool: None, buf: None, attempts: 0 };
    assert_eq!(nothing.source(), RetrySource::Nothing);
}
