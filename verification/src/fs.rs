//! A mount: its settings, what it remembers, and what each operation does
//! before and after the store is asked.

use crate::budget::{budget_units, DirtyBudget, UploadBudget};
use crate::config::{
    effective_max_concurrent_requests, is_secs, secs_or, MountAttr, OssConfig,
    DEFAULT_READWRITE_TIMEOUT_SECS, DISK_CACHE_BLOCK_SIZE, DISK_CACHE_PREFETCH_CONCURRENCY,
    MAX_CONCURRENT_S3_REQUESTS, MULTIPART_MIN_PART_SIZE, MULTIPART_PART_SIZE,
    MULTIPART_UPLOAD_CONCURRENCY, READ_CACHE_MAX_BYTES,
};
use crate::disk_cache::DiskCache;
use crate::error::FsError;
use crate::etags::EtagChecks;
use crate::listing::DirEntry;
use crate::metrics::{Metrics, MetricsSnapshot};
use crate::paths::{children_prefix, directory_prefix, key_under, list_prefix_under, object_key};
use crate::prefetch::Inflight;
use crate::read_cache::Window;
use crate::reading::Reader;
use crate::stat_cache::StatCaches;
use crate::text::{least, trim_end};
use crate::trash::{
    build_trash_state, hidden, hidden_key, is_segment, value_or, TombstoneIndex, TrashState,
};
use std::time::Duration;
use vstd::prelude::*;

verus! {

/// Ticks of the mount's clock in a second.
pub const TICKS_PER_SEC: u64 = 1_000_000_000;

/// Seconds in ticks, as far as they can be counted.
pub open spec fn ticks(secs: nat) -> nat {
    if secs * TICKS_PER_SEC > u64::MAX {
        u64::MAX as nat
    } else {
        secs * TICKS_PER_SEC as nat
    }
}

fn ticks_of(secs: u64) -> (r: u64)
    ensures
        r == ticks(secs as nat),
{
    match secs.checked_mul(TICKS_PER_SEC) {
        Some(ticks) => ticks,
        None => u64::MAX,
    }
}

/// The larger of two numbers.
pub open spec fn most(a: int, b: int) -> int {
    if a >= b {
        a
    } else {
        b
    }
}

/// How much memory uploads, write buffers and the read cache may take. With a
/// limit for all of them together the read cache gets its share, as far as
/// there is that much, and the other two half of the rest each, so that the
/// three stay within the limit; without one each has its own limit.
pub fn effective_memory_budgets(
    total_mem_limit: Option<usize>,
    read_share: usize,
    max_upload_bytes: Option<usize>,
    max_dirty_bytes: Option<usize>,
    read_cache_max_bytes: Option<usize>,
) -> (r: (Option<usize>, Option<usize>, usize))
    ensures
        r == (if total_mem_limit is Some && total_mem_limit->0 > 0 {
            let read = least(read_share as int, total_mem_limit->0 as int);
            let half = (total_mem_limit->0 - read) / 2;
            (Some(half as usize), Some(half as usize), read as usize)
        } else {
            (
                max_upload_bytes,
                max_dirty_bytes,
                value_or(read_cache_max_bytes, READ_CACHE_MAX_BYTES),
            )
        }),
        total_mem_limit is Some && total_mem_limit->0 > 0 ==> r.0->0 + r.1->0 + r.2
            <= total_mem_limit->0,
{
    match total_mem_limit {
        Some(total) => {
            if total > 0 {
                let read: usize = if read_share < total {
                    read_share
                } else {
                    total
                };
                let half: usize = (total - read) / 2;
                return (Some(half), Some(half), read);
            }
        },
        None => {},
    }
    let read: usize = match read_cache_max_bytes {
        Some(n) => n,
        None => READ_CACHE_MAX_BYTES,
    };
    (max_upload_bytes, max_dirty_bytes, read)
}

/// What the store answered when asked for the bucket.
#[derive(Clone, Copy, Debug, PartialEq, Eq, Structural)]
pub enum BucketReply {
    /// It is there.
    Found,
    /// There is no such bucket.
    Missing,
    /// Anything else: it may well be there.
    Unknown,
}

/// Whether a mount of this bucket makes sense: only where it is certain that
/// there is none does it not.
pub fn bucket_checked(bucket: &str, reply: BucketReply) -> (r: Result<(), FsError>)
    ensures
        reply != BucketReply::Missing ==> r == Ok::<(), FsError>(()),
        reply == BucketReply::Missing ==> r is Err && r->Err_0 is BucketMissing
            && r->Err_0->bucket@ == bucket@,
{
    match reply {
        BucketReply::Missing => Err(FsError::BucketMissing { bucket: bucket.to_owned() }),
        _ => Ok(()),
    }
}

/// The room and the block size of the disk cache that a configuration asks
/// for, where it asks for one.
pub fn disk_cache_settings(config: &OssConfig) -> (r: Option<(usize, usize)>)
    ensures
        r is Some <==> config.disk_cache_dir is Some && config.disk_cache_max_bytes > 0,
        r is Some ==> (r->0).0 == config.disk_cache_max_bytes && (r->0).1 == (
        if config.disk_cache_block_size is Some && config.disk_cache_block_size->0 > 0 {
            config.disk_cache_block_size->0
        } else {
            DISK_CACHE_BLOCK_SIZE
        }),
{
    if config.disk_cache_dir.is_none() || config.disk_cache_max_bytes == 0 {
        return None;
    }
    let block_size: usize = match config.disk_cache_block_size {
        Some(n) => {
            if n > 0 {
                n
            } else {
                DISK_CACHE_BLOCK_SIZE
            }
        },
        None => DISK_CACHE_BLOCK_SIZE,
    };
    Some((config.disk_cache_max_bytes, block_size))
}

/// A mount.
pub struct ObjectFs {
    pub bucket: String,
    pub prefix: String,
    pub caches: StatCaches,
    pub trash: Option<TrashState>,
    /// The trash is being refreshed in the background.
    pub trash_refresh_started: bool,
    pub max_concurrent_requests: usize,
    pub read_only: bool,
    pub allow_other: bool,
    pub mount_attr: MountAttr,
    pub allow_rename_dir: bool,
    pub rename_dir_limit: Option<u64>,
    pub upload_budget: UploadBudget,
    pub reader: Reader,
    pub disk_cache: Option<DiskCache>,
    pub disk_cache_prefetch_blocks: usize,
    pub prefetch_inflight: Inflight,
    pub prefetch_concurrency: usize,
    pub disk_cache_verify_etag: bool,
    pub etag_checked: EtagChecks,
    pub ignore_fsync: bool,
    pub verify_crc64: bool,
    pub storage_class: Option<String>,
    pub content_md5: bool,
    pub notsup_compat_dir: bool,
    pub multipart_part_size: usize,
    pub multipart_concurrency: usize,
    pub metrics: Metrics,
    pub dirty_budget: Option<DirtyBudget>,
    pub operation_timeout_secs: u64,
}

impl ObjectFs {
    pub open spec fn wf(&self) -> bool {
        &&& self.caches.wf()
        &&& self.trash is Some ==> self.trash->0.wf()
        &&& self.upload_budget.wf()
        &&& self.reader.wf()
        &&& self.prefetch_inflight.wf()
        &&& self.etag_checked.wf()
        &&& self.dirty_budget is Some ==> self.dirty_budget->0.wf()
        &&& self.multipart_part_size >= MULTIPART_MIN_PART_SIZE
        &&& self.multipart_concurrency >= 1
        &&& self.prefetch_concurrency >= 1
        &&& self.max_concurrent_requests >= 1
    }

    /// A mount of what is configured, before the store was asked for anything.
    /// The read cache's share of the memory limit and the platform are given.
    pub fn connect(config: OssConfig, read_share: usize, macos: bool) -> (r: Result<Self, FsError>)
        ensures
            r is Err <==> config.trash_dir is Some && !is_segment(config.trash_dir->0@),
            r matches Err(e) ==> e == (FsError::TrashDirInvalid { dir: config.trash_dir->0 }),
            r matches Ok(fs) ==> fs.wf() && fs.mounts(&config, read_share, macos),
    {
        let config = config.normalize();
        let operation_timeout_secs: u64 = secs_or(
            config.readwrite_timeout_secs,
            DEFAULT_READWRITE_TIMEOUT_SECS,
        );
        let trash = match build_trash_state(&config, macos) {
            Ok(trash) => trash,
            Err(e) => {
                return Err(e);
            },
        };
        let (upload, dirty, read) = effective_memory_budgets(
            config.total_mem_limit,
            read_share,
            config.max_upload_bytes,
            config.max_dirty_bytes,
            config.read_cache_max_bytes,
        );
        let window: usize = match config.read_ahead_bytes {
            Some(n) => n,
            None => 0,
        };
        let dirty_bytes: usize = match dirty {
            Some(n) => n,
            None => 0,
        };
        let rename_dir_limit: Option<u64> = match config.rename_dir_limit {
            Some(n) => {
                if n > 0 {
                    Some(n)
                } else {
                    None
                }
            },
            None => None,
        };
        let part_size: usize = match config.multipart_size {
            Some(n) => n,
            None => MULTIPART_PART_SIZE,
        };
        let concurrency: usize = match config.multipart_concurrency {
            Some(n) => n,
            None => MULTIPART_UPLOAD_CONCURRENCY,
        };
        Ok(
            ObjectFs {
                bucket: config.bucket,
                prefix: config.prefix,
                caches: StatCaches::new(
                    ticks_of(at_least_one(config.stat_cache_ttl_secs)),
                    config.stat_cache_max_entries,
                    ticks_of(at_least_one(config.negative_cache_ttl_secs)),
                    config.negative_cache_max_entries,
                ),
                trash,
                trash_refresh_started: false,
                max_concurrent_requests: effective_max_concurrent_requests(
                    config.max_concurrent_requests,
                ),
                read_only: config.read_only,
                allow_other: config.allow_other,
                mount_attr: MountAttr {
                    uid: config.uid,
                    gid: config.gid,
                    dir_mode: config.dir_mode,
                    file_mode: config.file_mode,
                    umask: config.umask,
                },
                allow_rename_dir: config.allow_rename_dir,
                rename_dir_limit,
                upload_budget: UploadBudget::new(upload),
                reader: Reader::new(window, read),
                disk_cache: None,
                disk_cache_prefetch_blocks: config.disk_cache_prefetch_blocks,
                prefetch_inflight: Inflight::new(),
                prefetch_concurrency: if config.disk_cache_prefetch_concurrency > 0 {
                    config.disk_cache_prefetch_concurrency
                } else {
                    DISK_CACHE_PREFETCH_CONCURRENCY
                },
                disk_cache_verify_etag: config.disk_cache_verify_etag,
                etag_checked: EtagChecks::new(
                    ticks_of(at_least_one(config.disk_cache_etag_ttl_secs)),
                ),
                ignore_fsync: config.ignore_fsync,
                verify_crc64: config.verify_crc64,
                storage_class: config.storage_class,
                content_md5: config.content_md5,
                notsup_compat_dir: config.notsup_compat_dir,
                multipart_part_size: if part_size > MULTIPART_MIN_PART_SIZE {
                    part_size
                } else {
                    MULTIPART_MIN_PART_SIZE
                },
                multipart_concurrency: if concurrency > 0 {
                    concurrency
                } else {
                    1
                },
                metrics: Metrics::default(),
                dirty_budget: DirtyBudget::new(dirty_bytes),
                operation_timeout_secs,
            },
        )
    }

    /// This is a fresh mount of what is configured: nothing is remembered, and
    /// nothing is under way.
    pub open spec fn mounts(&self, config: &OssConfig, read_share: usize, macos: bool) -> bool {
        let limited = config.total_mem_limit is Some && config.total_mem_limit->0 > 0;
        let read = least(read_share as int, config.total_mem_limit->0 as int);
        let half = (config.total_mem_limit->0 - read) / 2;
        let upload = if limited {
            half
        } else {
            value_or(config.max_upload_bytes, 0) as int
        };
        let dirty = if limited {
            half
        } else {
            value_or(config.max_dirty_bytes, 0) as int
        };
        &&& self.bucket@ == config.bucket@
        &&& self.prefix@ == crate::config::namespace(config.prefix@)
        &&& self.trash is Some <==> config.trash_dir is Some
        &&& self.trash is Some ==> self.trash->0.fresh(self.prefix@, config, macos)
        &&& !self.trash_refresh_started
        &&& self.max_concurrent_requests == (if value_or(config.max_concurrent_requests, 0) > 0 {
            config.max_concurrent_requests->0
        } else {
            MAX_CONCURRENT_S3_REQUESTS
        })
        &&& self.read_only == config.read_only
        &&& self.allow_other == config.allow_other
        &&& self.ignore_fsync == config.ignore_fsync
        &&& self.verify_crc64 == config.verify_crc64
        &&& self.content_md5 == config.content_md5
        &&& self.notsup_compat_dir == config.notsup_compat_dir
        &&& self.storage_class == config.storage_class
        &&& self.allow_rename_dir == config.allow_rename_dir
        &&& self.rename_dir_limit == (if value_or(config.rename_dir_limit, 0) > 0 {
            config.rename_dir_limit
        } else {
            None
        })
        &&& self.mount_attr == (MountAttr {
            uid: config.uid,
            gid: config.gid,
            dir_mode: config.dir_mode,
            file_mode: config.file_mode,
            umask: config.umask,
        })
        &&& self.upload_budget.limited() <==> upload > 0
        &&& upload > 0 ==> self.upload_budget.all_units() == budget_units(upload as nat)
        &&& self.dirty_budget is Some <==> dirty > 0
        &&& dirty > 0 ==> self.dirty_budget->0.all_units() == budget_units(dirty as nat)
        &&& self.reader.window == value_or(config.read_ahead_bytes, 0)
        &&& self.reader.cache@ == Map::<Seq<char>, Window>::empty()
        &&& self.reader.cache.max_bytes() == (if limited {
            read
        } else {
            value_or(config.read_cache_max_bytes, READ_CACHE_MAX_BYTES) as int
        })
        &&& self.reader.hints@ == Map::<Seq<char>, u64>::empty()
        &&& self.disk_cache is None
        &&& self.disk_cache_prefetch_blocks == config.disk_cache_prefetch_blocks
        &&& self.prefetch_inflight@ == Set::<(Seq<char>, u64)>::empty()
        &&& self.prefetch_concurrency == (if config.disk_cache_prefetch_concurrency > 0 {
            config.disk_cache_prefetch_concurrency
        } else {
            DISK_CACHE_PREFETCH_CONCURRENCY
        })
        &&& self.disk_cache_verify_etag == config.disk_cache_verify_etag
        &&& self.etag_checked@ == Map::<Seq<char>, u64>::empty()
        &&& self.etag_checked.ttl() == ticks(most(config.disk_cache_etag_ttl_secs as int, 1) as nat)
        &&& self.caches.stats@ == Map::<Seq<char>, (u64, DirEntry)>::empty()
        &&& self.caches.negative@ == Map::<Seq<char>, (u64, bool)>::empty()
        &&& self.caches.stats.ttl() == ticks(most(config.stat_cache_ttl_secs as int, 1) as nat)
        &&& self.caches.negative.ttl() == ticks(
            most(config.negative_cache_ttl_secs as int, 1) as nat,
        )
        &&& self.caches.stats.capacity() == most(config.stat_cache_max_entries as int, 1)
        &&& self.caches.negative.capacity() == most(config.negative_cache_max_entries as int, 1)
        &&& self.multipart_part_size == most(
            value_or(config.multipart_size, MULTIPART_PART_SIZE) as int,
            MULTIPART_MIN_PART_SIZE as int,
        )
        &&& self.multipart_concurrency == most(
            value_or(config.multipart_concurrency, MULTIPART_UPLOAD_CONCURRENCY) as int,
            1,
        )
        &&& self.metrics == Metrics::zero()
        &&& self.operation_timeout_secs == (if value_or(config.readwrite_timeout_secs, 0) > 0 {
            config.readwrite_timeout_secs->0
        } else {
            DEFAULT_READWRITE_TIMEOUT_SECS
        })
    }
}

impl ObjectFs {
    /// The object key of `path`.
    pub fn key_for(&self, path: &str) -> (r: String)
        ensures
            r@ == object_key(self.prefix@, path@),
    {
        key_under(self.prefix.as_str(), path)
    }

    /// The prefix of the keys of the children of `dir`.
    pub fn list_prefix(&self, dir: &str) -> (r: String)
        ensures
            r@ == children_prefix(self.prefix@, dir@),
    {
        list_prefix_under(self.prefix.as_str(), dir)
    }

    /// Whether `key` is hidden.
    pub fn hidden_key(&self, key: &str) -> (r: bool)
        requires
            self.wf(),
        ensures
            r == hidden(self.trash, key@),
    {
        hidden_key(&self.trash, key)
    }

    /// Whether the mount rejects changes.
    pub fn read_only(&self) -> (r: bool)
        ensures
            r == self.read_only,
    {
        self.read_only
    }

    /// Whether a request to flush a file is answered without doing anything.
    pub fn ignore_fsync(&self) -> (r: bool)
        ensures
            r == self.ignore_fsync,
    {
        self.ignore_fsync
    }

    /// The counters now, with the gauges.
    pub fn metrics(&self) -> (r: MetricsSnapshot)
        requires
            self.wf(),
        ensures
            r == self.metrics.with_gauges(self.prefetches() as usize, self.tombstones() as usize),
    {
        let mut snapshot = self.metrics.snapshot();
        snapshot.prefetch_inflight = self.prefetch_inflight.len();
        match &self.trash {
            Some(trash) => {
                snapshot.trash_index_entries = trash.index.len();
            },
            None => {},
        }
        snapshot
    }

    /// How many blocks are being read ahead.
    pub open spec fn prefetches(&self) -> int {
        self.prefetch_inflight@.len() as int
    }

    /// How many tombstones there are, as far as that can be counted.
    pub open spec fn tombstones(&self) -> int {
        match self.trash {
            Some(t) => least((t.index.files().len() + t.index.dirs().len()) as int, usize::MAX as int),
            None => 0,
        }
    }

    /// A handle on the budget for write buffers, where there is one.
    pub fn dirty_budget(&self) -> (r: Option<DirtyBudget>)
        ensures
            r == self.dirty_budget,
    {
        match &self.dirty_budget {
            Some(budget) => Some(budget.clone()),
            None => None,
        }
    }

    /// How long one operation may take.
    pub fn operation_timeout(&self) -> (r: Duration)
        ensures
            is_secs(r, self.operation_timeout_secs as nat),
    {
        Duration::from_secs(self.operation_timeout_secs)
    }

    /// Owner and permissions of what is shown.
    pub fn mount_attr(&self) -> (r: MountAttr)
        ensures
            r == self.mount_attr,
    {
        self.mount_attr
    }

    /// Whether all users may use the mount.
    pub fn allow_other(&self) -> (r: bool)
        ensures
            r == self.allow_other,
    {
        self.allow_other
    }

    /// Rejects changes on a read-only mount.
    pub fn ensure_writable(&self) -> (r: Result<(), FsError>)
        ensures
            r == (if self.read_only {
                Err::<(), FsError>(FsError::ReadOnly)
            } else {
                Ok(())
            }),
    {
        if self.read_only {
            return Err(FsError::ReadOnly);
        }
        Ok(())
    }

    /// Whether deleted files go to a trash.
    pub fn trash_enabled(&self) -> (r: bool)
        ensures
            r == self.trash is Some,
    {
        self.trash.is_some()
    }

    /// How often the trash is cleaned, where there is one.
    pub fn trash_gc_interval_secs(&self) -> (r: Option<u64>)
        ensures
            r == (match self.trash {
                Some(t) => Some(t.gc_interval_secs),
                None => None,
            }),
    {
        match &self.trash {
            Some(trash) => Some(trash.gc_interval_secs),
            None => None,
        }
    }

    /// Whether the trash is to be refreshed in the background from now on: so
    /// the first time this is asked, and never without a trash.
    pub fn trash_refresh_start(&mut self) -> (r: bool)
        ensures
            r == (old(self).trash is Some && !old(self).trash_refresh_started),
            *final(self) == (ObjectFs {
                trash_refresh_started: old(self).trash_refresh_started || old(self).trash is Some,
                ..*old(self)
            }),
    {
        if self.trash.is_none() || self.trash_refresh_started {
            return false;
        }
        self.trash_refresh_started = true;
        true
    }

    /// Whether tombstones can be listed: only with a trash.
    pub fn trash_list(&self) -> (r: Result<(), FsError>)
        ensures
            r == (if self.trash is Some {
                Ok::<(), FsError>(())
            } else {
                Err(FsError::TrashListDisabled)
            }),
    {
        if self.trash.is_none() {
            return Err(FsError::TrashListDisabled);
        }
        Ok(())
    }

    /// Whether something can be restored: only with a trash.
    pub fn trash_restore(&self) -> (r: Result<(), FsError>)
        ensures
            r == (if self.trash is Some {
                Ok::<(), FsError>(())
            } else {
                Err(FsError::TrashRestoreDisabled)
            }),
    {
        if self.trash.is_none() {
            return Err(FsError::TrashRestoreDisabled);
        }
        Ok(())
    }
}

impl ObjectFs {
    /// Nothing is known of the attributes of `path` any more, and everything
    /// else is as it was.
    pub open spec fn forgot_stat(&self, before: &Self, path: Seq<char>) -> bool {
        &&& self.caches.same_limits(&before.caches)
        &&& self.caches.stats@ == before.caches.stats@.remove(path)
        &&& self.caches.negative@ == before.caches.negative@.remove(path)
    }

    /// What was read of `path` is forgotten, and nothing else.
    pub open spec fn forgot_reads(&self, before: &Self, path: Seq<char>) -> bool {
        let key = object_key(before.prefix@, path);
        &&& self.reader.window == before.reader.window
        &&& self.reader.cache.max_bytes() == before.reader.cache.max_bytes()
        &&& self.reader.cache@ == before.reader.cache@.remove(path)
        &&& self.reader.hints@ == before.reader.hints@.remove(path)
        &&& self.disk_cache is Some <==> before.disk_cache is Some
        &&& self.disk_cache is Some ==> self.disk_cache->0.same_but_order(&before.disk_cache->0)
            && self.disk_cache->0.listed() == before.disk_cache->0.listed().filter(
            |e: (Seq<char>, u64)| e.0 != key,
        )
    }

    /// Nothing that was read is remembered.
    pub open spec fn forgot_all_reads(&self, before: &Self) -> bool {
        &&& self.reader.window == before.reader.window
        &&& self.reader.cache.max_bytes() == before.reader.cache.max_bytes()
        &&& self.reader.cache@ == Map::<Seq<char>, Window>::empty()
        &&& self.reader.hints@ == Map::<Seq<char>, u64>::empty()
        &&& self.disk_cache is Some <==> before.disk_cache is Some
        &&& self.disk_cache is Some ==> {
            &&& self.disk_cache->0.listed() == Seq::<(Seq<char>, u64)>::empty()
            &&& self.disk_cache->0 == (DiskCache {
                order: self.disk_cache->0.order,
                used: 0,
                ..before.disk_cache->0
            })
        }
    }

    /// Forgets the attributes of `path`.
    pub fn invalidate_stat(&mut self, path: &str)
        requires
            old(self).wf(),
        ensures
            final(self).wf(),
            final(self).forgot_stat(old(self), path@),
            *final(self) == (ObjectFs { caches: final(self).caches, ..*old(self) }),
    {
        self.caches.invalidate_stat(path);
    }

    /// Forgets what was read of `path`. The blocks' files are still there.
    pub fn invalidate_read_cache(&mut self, path: &str)
        requires
            old(self).wf(),
        ensures
            final(self).wf(),
            final(self).forgot_reads(old(self), path@),
            *final(self) == (ObjectFs {
                reader: final(self).reader,
                disk_cache: final(self).disk_cache,
                ..*old(self)
            }),
    {
        let key = self.key_for(path);
        let kept = self.disk_cache.take();
        match kept {
            Some(cache) => {
                let mut cache = cache;
                cache.invalidate(key.as_str());
                proof {
                    let k = object_key(old(self).prefix@, path@);
                    assert((|e: (Seq<char>, u64)| e.0 != key@) =~= (|e: (Seq<char>, u64)|
                        e.0 != k));
                }
                self.disk_cache = Some(cache);
            },
            None => {},
        }
        self.reader.invalidate(path);
    }

    /// Forgets everything that was read. The blocks' files are still there.
    pub fn clear_read_cache(&mut self)
        requires
            old(self).wf(),
        ensures
            final(self).wf(),
            final(self).forgot_all_reads(old(self)),
            *final(self) == (ObjectFs {
                reader: final(self).reader,
                disk_cache: final(self).disk_cache,
                ..*old(self)
            }),
    {
        let kept = self.disk_cache.take();
        match kept {
            Some(cache) => {
                let mut cache = cache;
                cache.clear();
                self.disk_cache = Some(cache);
            },
            None => {},
        }
        self.reader.clear();
    }

    /// Takes in a tombstone of `path` that was written: it is hidden from now
    /// on, and nothing that is remembered says otherwise. Without a trash it
    /// is nothing.
    pub fn trash_insert(&mut self, path: &str, is_dir: bool)
        requires
            old(self).wf(),
        ensures
            final(self).wf(),
            old(self).trash is None ==> *final(self) == *old(self),
            old(self).trash is Some ==> {
                let key = object_key(old(self).prefix@, path@);
                let before = old(self).trash->0;
                let after = final(self).trash->0;
                &&& *final(self) == (ObjectFs {
                    trash: final(self).trash,
                    caches: final(self).caches,
                    ..*old(self)
                })
                &&& final(self).trash is Some
                &&& after == (TrashState { index: after.index, ..before })
                &&& after.index.files() == (if is_dir {
                    before.index.files()
                } else {
                    before.index.files().insert(key)
                })
                &&& after.index.dirs() == (if is_dir {
                    before.index.dirs().insert(directory_prefix(key))
                } else {
                    before.index.dirs()
                })
                &&& final(self).forgot_deleted(old(self), path@, is_dir)
            },
    {
        let key = self.key_for(path);
        let kept = self.trash.take();
        match kept {
            Some(trash) => {
                let mut trash = trash;
                trash.index.insert(key.as_str(), is_dir);
                self.trash = Some(trash);
                self.caches.invalidate_trash_cached(path, is_dir);
            },
            None => {},
        }
    }

    /// The attributes of `path`, and for a directory of everything under it,
    /// are forgotten, and nothing else.
    pub open spec fn forgot_deleted(&self, before: &Self, path: Seq<char>, is_dir: bool) -> bool {
        let under = if is_dir {
            Set::new(|k: Seq<char>| trim_end(path, '/').push('/').is_prefix_of(k)).insert(path)
        } else {
            Set::empty().insert(path)
        };
        &&& self.caches.same_limits(&before.caches)
        &&& self.caches.stats@ == before.caches.stats@.remove_keys(under)
        &&& self.caches.negative@ == before.caches.negative@.remove_keys(under)
    }

    /// The generation of the trash, to be handed back with the tombstones that
    /// are read from now on.
    pub fn trash_generation(&self) -> (r: Option<u64>)
        ensures
            r == (match self.trash {
                Some(t) => Some(t.generation),
                None => None,
            }),
    {
        match &self.trash {
            Some(trash) => Some(trash.generation),
            None => None,
        }
    }

    /// Puts tombstones that were read in place of those known, unless the
    /// trash was cleaned meanwhile: then they are dropped. Says how many were
    /// put in place.
    pub fn rebuild_trash_index(
        &mut self,
        generation: u64,
        index: TombstoneIndex,
        last_key: Option<String>,
    ) -> (r: usize)
        requires
            old(self).wf(),
            index.wf(),
        ensures
            final(self).wf(),
            old(self).trash is None || old(self).trash->0.generation != generation ==> r == 0
                && *final(self) == *old(self),
            old(self).trash is Some && old(self).trash->0.generation == generation ==> {
                &&& r == least((index.files().len() + index.dirs().len()) as int, usize::MAX as int)
                &&& final(self).trash == Some(
                    TrashState { index, cursor: last_key, ..old(self).trash->0 },
                )
                &&& final(self).caches.same_limits(&old(self).caches)
                &&& final(self).caches.stats@ == Map::<Seq<char>, (u64, DirEntry)>::empty()
                &&& final(self).caches.negative@ == Map::<Seq<char>, (u64, bool)>::empty()
                &&& *final(self) == (ObjectFs {
                    trash: final(self).trash,
                    caches: final(self).caches,
                    ..*old(self)
                })
            },
    {
        let kept = self.trash.take();
        match kept {
            Some(trash) => {
                if trash.generation != generation {
                    self.trash = Some(trash);
                    return 0;
                }
                let count: usize = index.len();
                self.trash = Some(TrashState { index, cursor: last_key, ..trash });
                self.caches.clear();
                count
            },
            None => 0,
        }
    }

    /// How the first reading of the tombstones ended. A failure is counted and
    /// does not hinder the mount; a later refresh makes up for it.
    pub fn trash_bootstrap(&mut self, failed: bool)
        ensures
            *final(self) == (ObjectFs {
                metrics: if old(self).trash is Some && failed {
                    Metrics {
                        trash_bootstrap_failures: old(self).metrics.trash_bootstrap_failures.wrapping_add(1),
                        ..old(self).metrics
                    }
                } else {
                    old(self).metrics
                },
                ..*old(self)
            }),
    {
        if self.trash.is_some() && failed {
            self.metrics.trash_bootstrap_failures =
            self.metrics.trash_bootstrap_failures.wrapping_add(1);
        }
    }

    /// How a refresh of the tombstones ended. A failure is counted and handed
    /// on.
    pub fn trash_refresh_once(&mut self, result: Result<(), FsError>) -> (r: Result<(), FsError>)
        ensures
            old(self).trash is None ==> r == Ok::<(), FsError>(()) && *final(self) == *old(self),
            old(self).trash is Some ==> r == result && *final(self) == (ObjectFs {
                metrics: if result is Err {
                    Metrics {
                        trash_refresh_errors: old(self).metrics.trash_refresh_errors.wrapping_add(1),
                        ..old(self).metrics
                    }
                } else {
                    old(self).metrics
                },
                ..*old(self)
            }),
    {
        if self.trash.is_none() {
            return Ok(());
        }
        match result {
            Ok(done) => Ok(done),
            Err(e) => {
                self.metrics.trash_refresh_errors =
                self.metrics.trash_refresh_errors.wrapping_add(1);
                Err(e)
            },
        }
    }
}

fn at_least_one(n: u64) -> (r: u64)
    ensures
        r == most(n as int, 1),
{
    if n > 1 {
        n
    } else {
        1
    }
}

} // verus!
