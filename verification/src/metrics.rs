//! Operation counters. They only ever grow, and wrap around at 64 bits.

use vstd::prelude::*;

verus! {

/// The counters of one mount.
#[derive(Clone, Copy, Debug, PartialEq, Eq, Structural)]
pub struct Metrics {
    pub reads: u64,
    pub writes: u64,
    pub s3_gets: u64,
    pub s3_heads: u64,
    pub s3_stat_heads: u64,
    pub stat_cache_hits: u64,
    pub stat_positive_cache_hits: u64,
    pub stat_negative_cache_hits: u64,
    pub s3_etag_heads: u64,
    pub s3_lists: u64,
    pub s3_puts: u64,
    pub s3_errors: u64,
    pub s3_get_errors: u64,
    pub s3_list_errors: u64,
    pub s3_put_errors: u64,
    pub s3_delete_errors: u64,
    pub s3_multipart_errors: u64,
    pub upload_bytes_total: u64,
    pub download_bytes_total: u64,
    pub read_cache_hits: u64,
    pub read_cache_misses: u64,
    pub disk_cache_hits: u64,
    pub disk_cache_misses: u64,
    pub prefetch_started: u64,
    pub prefetch_skipped: u64,
    pub prefetch_failed: u64,
    pub list_throttled: u64,
    pub crc64_mismatches: u64,
    pub trash_tombstones_written: u64,
    pub trash_refresh_incrementals: u64,
    pub trash_refresh_rebuilds: u64,
    pub trash_refresh_errors: u64,
    pub trash_start_after_ignored: u64,
    pub trash_bootstrap_failures: u64,
    pub trash_gc_etag_skips: u64,
}

/// The counters at one moment, with the two gauges that are held elsewhere.
#[derive(Clone, Copy, Debug, PartialEq, Eq, Structural)]
pub struct MetricsSnapshot {
    pub reads: u64,
    pub writes: u64,
    pub s3_gets: u64,
    pub s3_heads: u64,
    pub s3_stat_heads: u64,
    pub stat_cache_hits: u64,
    pub stat_positive_cache_hits: u64,
    pub stat_negative_cache_hits: u64,
    pub s3_etag_heads: u64,
    pub s3_lists: u64,
    pub s3_puts: u64,
    pub s3_errors: u64,
    pub s3_get_errors: u64,
    pub s3_list_errors: u64,
    pub s3_put_errors: u64,
    pub s3_delete_errors: u64,
    pub s3_multipart_errors: u64,
    pub upload_bytes_total: u64,
    pub download_bytes_total: u64,
    pub read_cache_hits: u64,
    pub read_cache_misses: u64,
    pub disk_cache_hits: u64,
    pub disk_cache_misses: u64,
    pub prefetch_started: u64,
    pub prefetch_inflight: usize,
    pub prefetch_skipped: u64,
    pub prefetch_failed: u64,
    pub list_throttled: u64,
    pub crc64_mismatches: u64,
    pub trash_tombstones_written: u64,
    pub trash_index_entries: usize,
    pub trash_refresh_incrementals: u64,
    pub trash_refresh_rebuilds: u64,
    pub trash_refresh_errors: u64,
    pub trash_start_after_ignored: u64,
    pub trash_bootstrap_failures: u64,
    pub trash_gc_etag_skips: u64,
}

impl Default for Metrics {
    fn default() -> (r: Self)
        ensures
            r == Metrics::zero(),
    {
        Metrics {
            reads: 0,
            writes: 0,
            s3_gets: 0,
            s3_heads: 0,
            s3_stat_heads: 0,
            stat_cache_hits: 0,
            stat_positive_cache_hits: 0,
            stat_negative_cache_hits: 0,
            s3_etag_heads: 0,
            s3_lists: 0,
            s3_puts: 0,
            s3_errors: 0,
            s3_get_errors: 0,
            s3_list_errors: 0,
            s3_put_errors: 0,
            s3_delete_errors: 0,
            s3_multipart_errors: 0,
            upload_bytes_total: 0,
            download_bytes_total: 0,
            read_cache_hits: 0,
            read_cache_misses: 0,
            disk_cache_hits: 0,
            disk_cache_misses: 0,
            prefetch_started: 0,
            prefetch_skipped: 0,
            prefetch_failed: 0,
            list_throttled: 0,
            crc64_mismatches: 0,
            trash_tombstones_written: 0,
            trash_refresh_incrementals: 0,
            trash_refresh_rebuilds: 0,
            trash_refresh_errors: 0,
            trash_start_after_ignored: 0,
            trash_bootstrap_failures: 0,
            trash_gc_etag_skips: 0,
        }
    }
}

impl Default for MetricsSnapshot {
    fn default() -> (r: Self)
        ensures
            r == Metrics::zero().with_gauges(0, 0),
    {
        Metrics::default().snapshot()
    }
}

impl Metrics {
    /// All counters at zero.
    pub open spec fn zero() -> Metrics {
        Metrics {
            reads: 0,
            writes: 0,
            s3_gets: 0,
            s3_heads: 0,
            s3_stat_heads: 0,
            stat_cache_hits: 0,
            stat_positive_cache_hits: 0,
            stat_negative_cache_hits: 0,
            s3_etag_heads: 0,
            s3_lists: 0,
            s3_puts: 0,
            s3_errors: 0,
            s3_get_errors: 0,
            s3_list_errors: 0,
            s3_put_errors: 0,
            s3_delete_errors: 0,
            s3_multipart_errors: 0,
            upload_bytes_total: 0,
            download_bytes_total: 0,
            read_cache_hits: 0,
            read_cache_misses: 0,
            disk_cache_hits: 0,
            disk_cache_misses: 0,
            prefetch_started: 0,
            prefetch_skipped: 0,
            prefetch_failed: 0,
            list_throttled: 0,
            crc64_mismatches: 0,
            trash_tombstones_written: 0,
            trash_refresh_incrementals: 0,
            trash_refresh_rebuilds: 0,
            trash_refresh_errors: 0,
            trash_start_after_ignored: 0,
            trash_bootstrap_failures: 0,
            trash_gc_etag_skips: 0,
        }
    }

    /// The counters with the gauges given.
    pub open spec fn with_gauges(
        self,
        prefetch_inflight: usize,
        trash_index_entries: usize,
    ) -> MetricsSnapshot {
        MetricsSnapshot {
            reads: self.reads,
            writes: self.writes,
            s3_gets: self.s3_gets,
            s3_heads: self.s3_heads,
            s3_stat_heads: self.s3_stat_heads,
            stat_cache_hits: self.stat_cache_hits,
            stat_positive_cache_hits: self.stat_positive_cache_hits,
            stat_negative_cache_hits: self.stat_negative_cache_hits,
            s3_etag_heads: self.s3_etag_heads,
            s3_lists: self.s3_lists,
            s3_puts: self.s3_puts,
            s3_errors: self.s3_errors,
            s3_get_errors: self.s3_get_errors,
            s3_list_errors: self.s3_list_errors,
            s3_put_errors: self.s3_put_errors,
            s3_delete_errors: self.s3_delete_errors,
            s3_multipart_errors: self.s3_multipart_errors,
            upload_bytes_total: self.upload_bytes_total,
            download_bytes_total: self.download_bytes_total,
            read_cache_hits: self.read_cache_hits,
            read_cache_misses: self.read_cache_misses,
            disk_cache_hits: self.disk_cache_hits,
            disk_cache_misses: self.disk_cache_misses,
            prefetch_started: self.prefetch_started,
            prefetch_inflight,
            prefetch_skipped: self.prefetch_skipped,
            prefetch_failed: self.prefetch_failed,
            list_throttled: self.list_throttled,
            crc64_mismatches: self.crc64_mismatches,
            trash_tombstones_written: self.trash_tombstones_written,
            trash_index_entries,
            trash_refresh_incrementals: self.trash_refresh_incrementals,
            trash_refresh_rebuilds: self.trash_refresh_rebuilds,
            trash_refresh_errors: self.trash_refresh_errors,
            trash_start_after_ignored: self.trash_start_after_ignored,
            trash_bootstrap_failures: self.trash_bootstrap_failures,
            trash_gc_etag_skips: self.trash_gc_etag_skips,
        }
    }

    /// The counters now; the gauges read zero.
    pub fn snapshot(&self) -> (r: MetricsSnapshot)
        ensures
            r == self.with_gauges(0, 0),
    {
        MetricsSnapshot {
            reads: self.reads,
            writes: self.writes,
            s3_gets: self.s3_gets,
            s3_heads: self.s3_heads,
            s3_stat_heads: self.s3_stat_heads,
            stat_cache_hits: self.stat_cache_hits,
            stat_positive_cache_hits: self.stat_positive_cache_hits,
            stat_negative_cache_hits: self.stat_negative_cache_hits,
            s3_etag_heads: self.s3_etag_heads,
            s3_lists: self.s3_lists,
            s3_puts: self.s3_puts,
            s3_errors: self.s3_errors,
            s3_get_errors: self.s3_get_errors,
            s3_list_errors: self.s3_list_errors,
            s3_put_errors: self.s3_put_errors,
            s3_delete_errors: self.s3_delete_errors,
            s3_multipart_errors: self.s3_multipart_errors,
            upload_bytes_total: self.upload_bytes_total,
            download_bytes_total: self.download_bytes_total,
            read_cache_hits: self.read_cache_hits,
            read_cache_misses: self.read_cache_misses,
            disk_cache_hits: self.disk_cache_hits,
            disk_cache_misses: self.disk_cache_misses,
            prefetch_started: self.prefetch_started,
            prefetch_inflight: 0,
            prefetch_skipped: self.prefetch_skipped,
            prefetch_failed: self.prefetch_failed,
            list_throttled: self.list_throttled,
            crc64_mismatches: self.crc64_mismatches,
            trash_tombstones_written: self.trash_tombstones_written,
            trash_index_entries: 0,
            trash_refresh_incrementals: self.trash_refresh_incrementals,
            trash_refresh_rebuilds: self.trash_refresh_rebuilds,
            trash_refresh_errors: self.trash_refresh_errors,
            trash_start_after_ignored: self.trash_start_after_ignored,
            trash_bootstrap_failures: self.trash_bootstrap_failures,
            trash_gc_etag_skips: self.trash_gc_etag_skips,
        }
    }
}

} // verus!
