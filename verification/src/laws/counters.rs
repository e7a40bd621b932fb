//! Every request and every answer is counted once, where it belongs.

use crate::block_read::BlockRead;
use crate::deletion::object_deleted;
use crate::error::FsError;
use crate::etags::EtagChecks;
use crate::fetching::{get_range, got_range, GetReply};
use crate::fs::ObjectFs;
use crate::listing::{DirEntry, Listing};
use crate::metrics::{Metrics, MetricsSnapshot};
use crate::multipart::{
    check_crc64_response, head_reports_size, upload_started, CompleteReply, Completion,
    CreateReply, Verdict,
};
use crate::operations::{BinRead, RangeNext, WritePlan};
use crate::prefetch::{prefetch_begin, prefetch_ended, Inflight, PrefetchNext, PrefetchOutcome};
use crate::reading::{ReadNext, Reader};
use crate::stat::{HeadReply, Lookup, LookupNext};
use crate::stat_cache::{Cached, StatCaches};
use crate::streaming::StreamingUpload;
use crate::trash::TrashState;
use crate::writing::{put_done, PutReply};
use vstd::prelude::*;

verus! {

/// `b` is `a` with `n` more counted; a counter that is full begins anew.
pub open spec fn grown(a: u64, b: u64, n: int) -> bool {
    b == (a + n) % 0x1_0000_0000_0000_0000
}

/// `b` is one more than `a` where `yes`, and the same where not.
pub open spec fn counted_if(yes: bool, a: u64, b: u64) -> bool {
    grown(
        a,
        b,
        if yes {
            1
        } else {
            0
        },
    )
}

/// What is shown of the counters is what they count.
pub proof fn snapshots_show_the_counters(m: &Metrics, r: MetricsSnapshot)
    requires
        call_ensures(Metrics::snapshot, (m,), r),
    ensures
        r.reads == m.reads,
        r.writes == m.writes,
        r.s3_gets == m.s3_gets,
        r.s3_heads == m.s3_heads,
        r.s3_stat_heads == m.s3_stat_heads,
        r.stat_cache_hits == m.stat_cache_hits,
        r.stat_positive_cache_hits == m.stat_positive_cache_hits,
        r.stat_negative_cache_hits == m.stat_negative_cache_hits,
        r.s3_etag_heads == m.s3_etag_heads,
        r.s3_lists == m.s3_lists,
        r.s3_puts == m.s3_puts,
        r.s3_errors == m.s3_errors,
        r.s3_get_errors == m.s3_get_errors,
        r.s3_list_errors == m.s3_list_errors,
        r.s3_put_errors == m.s3_put_errors,
        r.s3_delete_errors == m.s3_delete_errors,
        r.s3_multipart_errors == m.s3_multipart_errors,
        r.upload_bytes_total == m.upload_bytes_total,
        r.download_bytes_total == m.download_bytes_total,
        r.read_cache_hits == m.read_cache_hits,
        r.read_cache_misses == m.read_cache_misses,
        r.disk_cache_hits == m.disk_cache_hits,
        r.disk_cache_misses == m.disk_cache_misses,
        r.prefetch_started == m.prefetch_started,
        r.prefetch_skipped == m.prefetch_skipped,
        r.prefetch_failed == m.prefetch_failed,
        r.list_throttled == m.list_throttled,
        r.crc64_mismatches == m.crc64_mismatches,
        r.trash_tombstones_written == m.trash_tombstones_written,
        r.trash_refresh_incrementals == m.trash_refresh_incrementals,
        r.trash_refresh_rebuilds == m.trash_refresh_rebuilds,
        r.trash_refresh_errors == m.trash_refresh_errors,
        r.trash_start_after_ignored == m.trash_start_after_ignored,
        r.trash_bootstrap_failures == m.trash_bootstrap_failures,
        r.trash_gc_etag_skips == m.trash_gc_etag_skips,
        r.prefetch_inflight == 0,
        r.trash_index_entries == 0,
{
}

/// Nothing is counted to begin with.
pub proof fn counting_begins_at_nothing(
    config: crate::config::OssConfig,
    read_share: usize,
    macos: bool,
    r: Result<ObjectFs, FsError>,
)
    requires
        call_ensures(ObjectFs::connect, (config, read_share, macos), r),
    ensures
        r matches Ok(fs) ==> {
            let m = fs.metrics;
            &&& m.reads == 0
            &&& m.writes == 0
            &&& m.s3_gets == 0
            &&& m.s3_heads == 0
            &&& m.s3_stat_heads == 0
            &&& m.stat_cache_hits == 0
            &&& m.stat_positive_cache_hits == 0
            &&& m.stat_negative_cache_hits == 0
            &&& m.s3_etag_heads == 0
            &&& m.s3_lists == 0
            &&& m.s3_puts == 0
            &&& m.s3_errors == 0
            &&& m.s3_get_errors == 0
            &&& m.s3_list_errors == 0
            &&& m.s3_put_errors == 0
            &&& m.s3_delete_errors == 0
            &&& m.s3_multipart_errors == 0
            &&& m.upload_bytes_total == 0
            &&& m.download_bytes_total == 0
            &&& m.read_cache_hits == 0
            &&& m.read_cache_misses == 0
            &&& m.disk_cache_hits == 0
            &&& m.disk_cache_misses == 0
            &&& m.prefetch_started == 0
            &&& m.prefetch_skipped == 0
            &&& m.prefetch_failed == 0
            &&& m.list_throttled == 0
            &&& m.crc64_mismatches == 0
            &&& m.trash_tombstones_written == 0
            &&& m.trash_refresh_incrementals == 0
            &&& m.trash_refresh_rebuilds == 0
            &&& m.trash_refresh_errors == 0
            &&& m.trash_start_after_ignored == 0
            &&& m.trash_bootstrap_failures == 0
            &&& m.trash_gc_etag_skips == 0
        },
{
}

/// What a mount shows are its counters, the blocks that are being fetched
/// ahead and the tombstones that are known.
pub proof fn mounts_show_their_counters(fs: &ObjectFs, r: MetricsSnapshot)
    requires
        fs.wf(),
        call_ensures(ObjectFs::metrics, (fs,), r),
        fs.prefetch_inflight@.len() <= usize::MAX,
        fs.trash is Some ==> fs.trash->0.index.files().len() + fs.trash->0.index.dirs().len()
            <= usize::MAX,
    ensures
        r.reads == fs.metrics.reads,
        r.writes == fs.metrics.writes,
        r.s3_gets == fs.metrics.s3_gets,
        r.s3_puts == fs.metrics.s3_puts,
        r.s3_errors == fs.metrics.s3_errors,
        r.prefetch_inflight == fs.prefetch_inflight@.len(),
        fs.trash is None ==> r.trash_index_entries == 0,
        fs.trash matches Some(t) ==> r.trash_index_entries == t.index.files().len()
            + t.index.dirs().len(),
{
}

/// A read of a mount with a window is a hit or a miss: a hit where it is
/// answered at once. Without a window neither is counted.
pub proof fn reads_are_hits_or_misses(
    reader: &mut Reader,
    path: &str,
    offset: u64,
    len: usize,
    now: u64,
    m: &mut Metrics,
    r: ReadNext,
)
    requires
        call_ensures(Reader::begin, (reader, path, offset, len, now, m), r),
    ensures
        counted_if(r is Ready, old(m).read_cache_hits, final(m).read_cache_hits),
        counted_if(
            r is Fetch && old(reader).window > 0,
            old(m).read_cache_misses,
            final(m).read_cache_misses,
        ),
        *final(m) == (Metrics {
            read_cache_hits: final(m).read_cache_hits,
            read_cache_misses: final(m).read_cache_misses,
            ..*old(m)
        }),
{
}

/// Every read of a mount counts, whatever comes of it.
pub proof fn every_read_counts(
    fs: &mut ObjectFs,
    path: &str,
    offset: u64,
    len: usize,
    bin: BinRead,
    now: u64,
    r: RangeNext,
)
    requires
        call_ensures(ObjectFs::read_range, (fs, path, offset, len, bin, now), r),
    ensures
        grown(old(fs).metrics.reads, final(fs).metrics.reads, 1),
        final(fs).metrics.s3_gets == old(fs).metrics.s3_gets,
        final(fs).metrics.writes == old(fs).metrics.writes,
{
}

/// An answer from memory is a hit, of its kind; where nothing is known none is
/// counted.
pub proof fn answers_from_memory_are_hits(
    caches: &StatCaches,
    path: &str,
    now: u64,
    m: &mut Metrics,
    r: Cached,
)
    requires
        caches.wf(),
        call_ensures(StatCaches::lookup, (caches, path, now, m), r),
    ensures
        counted_if(!(r is Unknown), old(m).stat_cache_hits, final(m).stat_cache_hits),
        counted_if(
            r is Present,
            old(m).stat_positive_cache_hits,
            final(m).stat_positive_cache_hits,
        ),
        counted_if(
            r is Absent,
            old(m).stat_negative_cache_hits,
            final(m).stat_negative_cache_hits,
        ),
        *final(m) == (Metrics {
            stat_cache_hits: final(m).stat_cache_hits,
            stat_positive_cache_hits: final(m).stat_positive_cache_hits,
            stat_negative_cache_hits: final(m).stat_negative_cache_hits,
            ..*old(m)
        }),
{
}

/// A request for a range counts, and so do the bytes that came; a range that
/// did not come is an error of its kind, and one behind the end is none.
pub proof fn ranges_count(
    offset: u64,
    len: usize,
    m: &mut Metrics,
    header: String,
    reply: GetReply,
    m2: &mut Metrics,
    r: Result<Vec<u8>, FsError>,
)
    requires
        call_ensures(get_range, (offset, len, m), header),
        call_ensures(got_range, (len, reply, m2), r),
        r is Ok ==> r->Ok_0@.len() <= u64::MAX,
    ensures
        grown(old(m).s3_gets, final(m).s3_gets, 1),
        *final(m) == (Metrics { s3_gets: final(m).s3_gets, ..*old(m) }),
        r matches Ok(bytes) ==> grown(
            old(m2).download_bytes_total,
            final(m2).download_bytes_total,
            bytes@.len() as int,
        ),
        counted_if(r is Err, old(m2).s3_errors, final(m2).s3_errors),
        counted_if(r is Err, old(m2).s3_get_errors, final(m2).s3_get_errors),
        *final(m2) == (Metrics {
            download_bytes_total: final(m2).download_bytes_total,
            s3_errors: final(m2).s3_errors,
            s3_get_errors: final(m2).s3_get_errors,
            ..*old(m2)
        }),
{
}

/// A checksum that differs counts; one that is missing does not.
pub proof fn wrong_checksums_count(
    reported: Option<u64>,
    expected: u64,
    m: &mut Metrics,
    r: Result<(), FsError>,
)
    requires
        call_ensures(check_crc64_response, (reported, expected, m), r),
    ensures
        counted_if(
            reported is Some && reported->0 != expected,
            old(m).crc64_mismatches,
            final(m).crc64_mismatches,
        ),
        *final(m) == (Metrics { crc64_mismatches: final(m).crc64_mismatches, ..*old(m) }),
{
}

/// A write counts with all its bytes before it is sent, and a write that was
/// refused is an error.
pub proof fn writes_count_with_their_bytes(
    fs: &mut ObjectFs,
    path: &str,
    size: u64,
    plan: Result<WritePlan, FsError>,
    expected: Option<u64>,
    reply: PutReply,
    m: &mut Metrics,
    r: Result<(), FsError>,
)
    requires
        old(fs).wf(),
        call_ensures(ObjectFs::write, (fs, path, size), plan),
        call_ensures(put_done, (expected, reply, m), r),
    ensures
        counted_if(!old(fs).read_only, old(fs).metrics.writes, final(fs).metrics.writes),
        counted_if(!old(fs).read_only, old(fs).metrics.s3_puts, final(fs).metrics.s3_puts),
        grown(
            old(fs).metrics.upload_bytes_total,
            final(fs).metrics.upload_bytes_total,
            if old(fs).read_only {
                0
            } else {
                size as int
            },
        ),
        counted_if(reply is Refused, old(m).s3_errors, final(m).s3_errors),
        counted_if(reply is Refused, old(m).s3_put_errors, final(m).s3_put_errors),
        final(m).s3_puts == old(m).s3_puts,
{
}

/// A stream counts once, with all its bytes, when the store has it and not
/// before.
pub proof fn streams_count_when_stored(
    stream: &mut StreamingUpload,
    expected: Option<u64>,
    reply: CompleteReply,
    m: &mut Metrics,
    r: Completion,
    other: &mut StreamingUpload,
    cause: Vec<String>,
    same_size: Option<bool>,
    m2: &mut Metrics,
    v: Verdict,
)
    requires
        call_ensures(StreamingUpload::completed, (stream, expected, reply, m), r),
        call_ensures(StreamingUpload::verified, (other, cause, same_size, m2), v),
    ensures
        ({
            let stored = r is Finished && r->result is Ok;
            &&& counted_if(stored, old(m).s3_puts, final(m).s3_puts)
            &&& grown(
                old(m).upload_bytes_total,
                final(m).upload_bytes_total,
                if stored {
                    old(stream).total_bytes as int
                } else {
                    0
                },
            )
        }),
        counted_if(v is Finished, old(m2).s3_puts, final(m2).s3_puts),
        grown(
            old(m2).upload_bytes_total,
            final(m2).upload_bytes_total,
            if v is Finished {
                old(other).total_bytes as int
            } else {
                0
            },
        ),
{
}

/// An upload that cannot be started, an object that cannot be deleted and a
/// page that does not come are errors of their kinds; a listing counts once,
/// and so does the question for a size.
pub proof fn failures_count_as_their_kind(
    reply: CreateReply,
    m: &mut Metrics,
    started: Result<String, FsError>,
    refused: Option<Vec<String>>,
    m2: &mut Metrics,
    deleted: Result<(), FsError>,
    prefix: String,
    skip: bool,
    m3: &mut Metrics,
    listing: Listing,
    cause: Vec<String>,
    m4: &mut Metrics,
    failed: FsError,
    length: Option<i64>,
    bytes: u64,
    m5: &mut Metrics,
    same: Option<bool>,
)
    requires
        call_ensures(upload_started, (reply, m), started),
        call_ensures(object_deleted, (refused, m2), deleted),
        call_ensures(Listing::start, (prefix, skip, m3), listing),
        call_ensures(Listing::failed, (cause, m4), failed),
        call_ensures(head_reports_size, (length, bytes, m5), same),
    ensures
        counted_if(reply is Refused, old(m).s3_errors, final(m).s3_errors),
        counted_if(reply is Refused, old(m).s3_multipart_errors, final(m).s3_multipart_errors),
        counted_if(refused is Some, old(m2).s3_errors, final(m2).s3_errors),
        counted_if(refused is Some, old(m2).s3_delete_errors, final(m2).s3_delete_errors),
        grown(old(m3).s3_lists, final(m3).s3_lists, 1),
        grown(old(m4).s3_errors, final(m4).s3_errors, 1),
        grown(old(m4).s3_list_errors, final(m4).s3_list_errors, 1),
        grown(old(m5).s3_heads, final(m5).s3_heads, 1),
{
}

/// A lookup counts each request that it sends, and none that it does not.
pub proof fn lookups_count_their_requests(
    lookup: &Lookup,
    trash: &Option<TrashState>,
    made_up: Option<DirEntry>,
    m: &mut Metrics,
    first: LookupNext,
    reply: HeadReply,
    m2: &mut Metrics,
    second: LookupNext,
    other: HeadReply,
    m3: &mut Metrics,
    third: LookupNext,
)
    requires
        trash is Some ==> trash->0.wf(),
        call_ensures(Lookup::start, (lookup, trash, made_up, m), first),
        call_ensures(Lookup::head, (lookup, reply, m2), second),
        call_ensures(Lookup::marker, (lookup, other, m3), third),
    ensures
        counted_if(first is Head, old(m).s3_heads, final(m).s3_heads),
        counted_if(first is Head, old(m).s3_stat_heads, final(m).s3_stat_heads),
        counted_if(second is HeadMarker, old(m2).s3_heads, final(m2).s3_heads),
        counted_if(second is HeadMarker, old(m2).s3_stat_heads, final(m2).s3_stat_heads),
        counted_if(second is Probe, old(m2).s3_lists, final(m2).s3_lists),
        counted_if(third is Probe, old(m3).s3_lists, final(m3).s3_lists),
        final(m3).s3_heads == old(m3).s3_heads,
{
}

/// A block is a hit or a miss of the disk cache, a comparison of tags that is
/// due is a request, and fetching ahead counts what it begins, passes over and
/// loses.
pub proof fn blocks_count(
    read: &mut BlockRead,
    data: &[u8],
    m: &mut Metrics,
    missed: &BlockRead,
    m2: &mut Metrics,
    sequential: bool,
    depth: usize,
    m3: &mut Metrics,
    ahead: Option<(u64, usize)>,
    checks: &EtagChecks,
    key: &str,
    now: u64,
    m4: &mut Metrics,
    due: bool,
    inflight: &mut Inflight,
    block: u64,
    m5: &mut Metrics,
    begun: bool,
    outcome: PrefetchOutcome,
    m6: &mut Metrics,
    next: PrefetchNext,
)
    requires
        call_ensures(BlockRead::hit, (read, data, m), ()),
        call_ensures(BlockRead::miss, (missed, m2), ()),
        call_ensures(BlockRead::prefetch, (missed, sequential, depth, m3), ahead),
        call_ensures(EtagChecks::due, (checks, key, now, m4), due),
        call_ensures(prefetch_begin, (inflight, key, block, m5), begun),
        call_ensures(prefetch_ended, (outcome, m6), next),
    ensures
        grown(old(m).disk_cache_hits, final(m).disk_cache_hits, 1),
        final(m).disk_cache_misses == old(m).disk_cache_misses,
        grown(old(m2).disk_cache_misses, final(m2).disk_cache_misses, 1),
        final(m2).disk_cache_hits == old(m2).disk_cache_hits,
        counted_if(ahead is Some, old(m3).prefetch_started, final(m3).prefetch_started),
        counted_if(due, old(m4).s3_heads, final(m4).s3_heads),
        counted_if(due, old(m4).s3_etag_heads, final(m4).s3_etag_heads),
        counted_if(!begun, old(m5).prefetch_skipped, final(m5).prefetch_skipped),
        counted_if(
            outcome is RequestFailed || outcome is TimedOut || outcome is BodyFailed,
            old(m6).prefetch_failed,
            final(m6).prefetch_failed,
        ),
        counted_if(outcome is TimedOut, old(m6).s3_errors, final(m6).s3_errors),
{
}

/// A trash that cannot be read counts, where there is one.
pub proof fn trash_failures_count(
    fs: &mut ObjectFs,
    failed: bool,
    again: &mut ObjectFs,
    result: Result<(), FsError>,
    r: Result<(), FsError>,
)
    requires
        call_ensures(ObjectFs::trash_bootstrap, (fs, failed), ()),
        call_ensures(ObjectFs::trash_refresh_once, (again, result), r),
    ensures
        counted_if(
            failed && old(fs).trash is Some,
            old(fs).metrics.trash_bootstrap_failures,
            final(fs).metrics.trash_bootstrap_failures,
        ),
        counted_if(
            result is Err && old(again).trash is Some,
            old(again).metrics.trash_refresh_errors,
            final(again).metrics.trash_refresh_errors,
        ),
        old(again).trash is Some ==> r == result,
        old(again).trash is None ==> r is Ok,
{
}

} // verus!
