//! A mount does what is configured, and what is not configured is sensible.

use crate::budget::DirtyBudget;
use crate::config::{
    attempt_limit, attempts_allowed, connect_limit, duration_nanos,
    effective_max_concurrent_requests, effective_mode, effective_owner, in_standard_mode,
    namespace_of, operation_limit, read_body_budget, read_body_budget_secs, read_fetch_len,
    read_limit, retry_backoff, retry_backoff_secs, s3_retry_config, s3_timeout_config, MountAttr,
    OssConfig,
};
use crate::error::FsError;
use crate::fs::{
    bucket_checked, disk_cache_settings, effective_memory_budgets, BucketReply, ObjectFs,
};
use crate::laws::listings::{begins, buried, concealed};
use crate::trash::{build_trash_state, TrashState};
use aws_smithy_types::retry::RetryConfig;
use aws_smithy_types::timeout::TimeoutConfig;
use std::time::Duration;
use vstd::prelude::*;

verus! {

/// A namespace prefix ends in a slash or is empty; the slash is added where it
/// is missing, and nothing else changes. Two names stay apart.
pub proof fn prefixes_end_in_a_slash(prefix: &str, r: String)
    requires
        call_ensures(namespace_of, (prefix,), r),
    ensures
        prefix@.len() == 0 ==> r@.len() == 0,
        prefix@.len() > 0 ==> r@.last() == '/',
        prefix@.len() > 0 && prefix@.last() == '/' ==> r@ == prefix@,
        prefix@.len() > 0 && prefix@.last() != '/' ==> r@ == prefix@ + seq!['/'],
{
    assert(prefix@.push('/') =~= prefix@ + seq!['/']);
}

/// What is configured is kept, and only what is not gets a default: a minute
/// for requests, one retry, and a trash that is kept for thirty days. Nothing
/// is switched on.
pub proof fn defaults_fill_gaps_only(config: OssConfig, r: OssConfig)
    requires
        call_ensures(OssConfig::normalize, (config,), r),
    ensures
        r.bucket == config.bucket,
        r.trash_dir == config.trash_dir,
        r.read_only == config.read_only,
        r.verify_crc64 == config.verify_crc64,
        r.system_trash == config.system_trash,
        config.connect_timeout_secs is Some && config.connect_timeout_secs->0 > 0
            ==> r.connect_timeout_secs == config.connect_timeout_secs,
        config.readwrite_timeout_secs is Some && config.readwrite_timeout_secs->0 > 0
            ==> r.readwrite_timeout_secs == config.readwrite_timeout_secs,
        config.readwrite_timeout_secs is None || config.readwrite_timeout_secs->0 == 0
            ==> r.readwrite_timeout_secs == Some(60u64),
        config.connect_timeout_secs is None || config.connect_timeout_secs->0 == 0
            ==> r.connect_timeout_secs == Some(10u64),
        config.retries is Some ==> r.retries == config.retries,
        config.retries is None ==> r.retries == Some(1u32),
        config.trash_retention_days is Some ==> r.trash_retention_days
            == config.trash_retention_days,
        config.trash_retention_days is None ==> r.trash_retention_days == Some(30u32),
        config.trash_refresh_interval_secs is Some ==> r.trash_refresh_interval_secs
            == config.trash_refresh_interval_secs,
        config.trash_refresh_interval_secs is None ==> r.trash_refresh_interval_secs == Some(30u64),
        config.trash_gc_interval_secs is Some ==> r.trash_gc_interval_secs
            == config.trash_gc_interval_secs,
        config.trash_gc_interval_secs is None ==> r.trash_gc_interval_secs == Some(86_400u64),
{
}

/// No bit of the mask is ever set in a mode, every other bit is as configured,
/// and an owner that is configured is the owner.
pub proof fn masks_take_bits_away(
    is_dir: bool,
    dir_mode: u32,
    file_mode: u32,
    umask: u32,
    r: u16,
    bit: u32,
    configured: u32,
    current: u32,
    owner: u32,
)
    requires
        call_ensures(effective_mode, (is_dir, dir_mode, file_mode, umask), r),
        bit < 16,
        call_ensures(effective_owner, (configured, current), owner),
    ensures
        ({
            let mode = if is_dir {
                dir_mode
            } else {
                file_mode
            };
            ((r as u32) >> bit) & 1 == 1 <==> (mode >> bit) & 1 == 1 && (umask >> bit) & 1 == 0
        }),
        configured > 0 ==> owner == configured,
        configured == 0 ==> owner == current,
{
    let mode = if is_dir {
        dir_mode
    } else {
        file_mode
    };
    assert(((((mode & !umask) as u16) as u32) >> bit) & 1 == 1 <==> (mode >> bit) & 1 == 1 && (umask
        >> bit) & 1 == 0) by (bit_vector)
        requires
            bit < 16,
    ;
}

/// A body has a minute, or a second for each eight kibibytes where that is
/// more, counted up to sixty-four mebibytes.
pub proof fn bodies_have_time_for_their_length(len: usize, r: u64)
    requires
        call_ensures(read_body_budget_secs, (len,), r),
    ensures
        r >= 60,
        len <= 60 * 8192 ==> r == 60,
        60 * 8192 < len <= 64 * 1024 * 1024 ==> r * 8192 <= len < (r + 1) * 8192,
        len > 64 * 1024 * 1024 ==> r == 8192,
{
}

/// Limits on time are the seconds that they are made of: those configured, or
/// the defaults. A request has no time of its own beside them.
pub proof fn limits_are_the_seconds_configured(
    connect: Option<u64>,
    read: Option<u64>,
    t: TimeoutConfig,
    len: usize,
    secs: u64,
    body: Duration,
    attempts: u32,
    wait_secs: u64,
    wait: Duration,
    fs: &ObjectFs,
    operation: Duration,
)
    requires
        call_ensures(s3_timeout_config, (connect, read), t),
        call_ensures(read_body_budget_secs, (len,), secs),
        call_ensures(read_body_budget, (len,), body),
        call_ensures(retry_backoff_secs, (attempts,), wait_secs),
        call_ensures(retry_backoff, (attempts,), wait),
        call_ensures(ObjectFs::operation_timeout, (fs,), operation),
    ensures
        connect matches Some(n) ==> connect_limit(t) is Some && duration_nanos(connect_limit(t)->0)
            == n * 1_000_000_000,
        connect is None ==> connect_limit(t) is Some && duration_nanos(connect_limit(t)->0)
            == 10 * 1_000_000_000,
        read matches Some(n) ==> read_limit(t) is Some && duration_nanos(read_limit(t)->0) == n
            * 1_000_000_000 && operation_limit(t) is Some && duration_nanos(operation_limit(t)->0)
            == n * 1_000_000_000,
        read is None ==> read_limit(t) is Some && duration_nanos(read_limit(t)->0)
            == 60 * 1_000_000_000,
        attempt_limit(t) is None,
        duration_nanos(body) == secs * 1_000_000_000,
        duration_nanos(wait) == wait_secs * 1_000_000_000,
        duration_nanos(operation) == fs.operation_timeout_secs * 1_000_000_000,
{
}

/// A request is tried once, and again as often as retries are configured.
pub proof fn requests_are_tried_as_configured(retries: Option<u32>, r: Option<RetryConfig>)
    requires
        call_ensures(s3_retry_config, (retries,), r),
    ensures
        r is Some <==> retries is Some,
        r matches Some(c) ==> retries->0 < u32::MAX ==> attempts_allowed(c) == retries->0 + 1
            && in_standard_mode(c),
{
}

/// A limit on requests is the one that is configured, and there always is one.
pub proof fn requests_are_limited(configured: Option<usize>, r: usize)
    requires
        call_ensures(effective_max_concurrent_requests, (configured,), r),
    ensures
        configured is Some && configured->0 > 0 ==> r == configured->0,
        r > 0,
{
}

/// A read fetches what is asked for, and the window where it goes on from the
/// one before and the window is larger.
pub proof fn fetches_are_the_read_or_the_window(
    len: usize,
    window: usize,
    sequential: bool,
    r: usize,
)
    requires
        call_ensures(read_fetch_len, (len, window, sequential), r),
    ensures
        !sequential ==> r == len,
        sequential && window <= len ==> r == len,
        sequential && window > len ==> r == window,
{
}

/// A limit on all memory is shared out: never more than there is, uploads and
/// buffers alike, and at most one byte is left over. Without one each budget
/// is as configured.
pub proof fn memory_is_shared_out(
    total: Option<usize>,
    read_share: usize,
    upload: Option<usize>,
    dirty: Option<usize>,
    read: Option<usize>,
    r: (Option<usize>, Option<usize>, usize),
)
    requires
        call_ensures(effective_memory_budgets, (total, read_share, upload, dirty, read), r),
    ensures
        total is Some && total->0 > 0 ==> {
            &&& r.0 is Some && r.0 == r.1
            &&& total->0 - 1 <= r.0->0 + r.1->0 + r.2 <= total->0
            &&& read_share <= total->0 ==> r.2 == read_share
            &&& read_share > total->0 ==> r.2 == total->0
        },
        total is None || total->0 == 0 ==> {
            &&& r.0 == upload
            &&& r.1 == dirty
            &&& read is Some ==> Some(r.2) == read
            &&& read is None ==> r.2 == 64 * 1024 * 1024
        },
{
}

/// There is a disk cache where a directory and room for it are configured, and
/// its blocks are never empty.
pub proof fn disk_caches_need_a_directory_and_room(
    config: &OssConfig,
    r: Option<(usize, usize)>,
)
    requires
        call_ensures(disk_cache_settings, (config,), r),
    ensures
        r is Some <==> config.disk_cache_dir is Some && config.disk_cache_max_bytes > 0,
        r matches Some((room, block)) ==> {
            &&& room == config.disk_cache_max_bytes
            &&& block > 0
            &&& config.disk_cache_block_size is Some && config.disk_cache_block_size->0 > 0
                ==> Some(block) == config.disk_cache_block_size
        },
{
}

/// A bucket is refused only where the store says that there is none.
pub proof fn only_missing_buckets_are_refused(
    bucket: &str,
    reply: BucketReply,
    r: Result<(), FsError>,
)
    requires
        call_ensures(bucket_checked, (bucket, reply), r),
    ensures
        r is Err <==> reply is Missing,
{
}

/// A trash directory is one segment of a path, and anything else is refused. A
/// new trash stands behind the prefix and the directory's name, and hides
/// nothing but itself.
pub proof fn new_trashes_hide_only_themselves(
    config: &OssConfig,
    macos: bool,
    r: Result<Option<TrashState>, FsError>,
    key: Seq<char>,
)
    requires
        call_ensures(build_trash_state, (config, macos), r),
    ensures
        config.trash_dir is None ==> r is Ok && r->Ok_0 is None,
        config.trash_dir matches Some(dir) ==> (r is Ok <==> dir@.len() > 0 && (forall|i: int|
            0 <= i < dir@.len() ==> #[trigger] dir@[i] != '/') && dir@ != "."@ && dir@ != ".."@),
        config.trash_dir is Some && r is Ok ==> {
            &&& r->Ok_0 is Some
            &&& r->Ok_0->0.prefix@ == config.prefix@ + config.trash_dir->0@ + seq!['/']
            &&& !buried(&r->Ok_0->0.index, key)
            &&& begins(key, r->Ok_0->0.prefix@) ==> concealed(r->Ok_0, key)
        },
        r matches Ok(Some(t)) ==> {
            &&& config.trash_refresh_mode is Some ==> Some(t.mode) == config.trash_refresh_mode
            &&& config.trash_refresh_mode is None ==> t.mode is Lazy
            &&& config.trash_refresh_interval_secs is Some ==> Some(t.refresh_interval_secs)
                == config.trash_refresh_interval_secs
            &&& config.trash_refresh_interval_secs is None ==> t.refresh_interval_secs == 30
            &&& t.rebuild_interval_secs == 600
            &&& config.trash_gc_interval_secs is Some ==> Some(t.gc_interval_secs)
                == config.trash_gc_interval_secs
            &&& config.trash_gc_interval_secs is None ==> t.gc_interval_secs == 86_400
            &&& config.trash_retention_days is Some ==> Some(t.retention_days)
                == config.trash_retention_days
            &&& config.trash_retention_days is None ==> t.retention_days == 30
            &&& t.generation == 0
            &&& t.cursor is None
            &&& t.system is Some <==> config.system_trash is Some
            &&& t.system is Some ==> {
                let asked = config.system_trash->0.dir_name;
                let name = t.system->0.dir_name@;
                &&& asked is Some ==> name == asked->0@
                &&& asked is None && macos ==> name == ".Trashes"@
                &&& asked is None && !macos ==> name == "$Recycle.Bin"@
                &&& t.system->0.platform is MacOsTrashes <==> macos
                &&& t.system->0.macos_uid_dirs@ == config.system_trash->0.macos_uid_dirs@
            }
        },
{
    reveal_strlit("/");
    assert("/"@ =~= seq!['/']);
    if config.trash_dir is Some {
        let dir = config.trash_dir->0@;
        if dir.contains('/') {
            let i = dir.index_of('/');
            assert(dir[i] == '/');
        } else {
            assert forall|i: int| 0 <= i < dir.len() implies #[trigger] dir[i] != '/' by {
                if dir[i] == '/' {
                    assert(dir.contains('/'));
                }
            }
        }
    }
}

/// A mount is of the bucket and the prefix that are configured, begins with
/// nothing in memory, and refuses what it is told to refuse.
pub proof fn mounts_are_as_configured(
    config: OssConfig,
    read_share: usize,
    macos: bool,
    r: Result<ObjectFs, FsError>,
)
    requires
        call_ensures(ObjectFs::connect, (config, read_share, macos), r),
    ensures
        config.trash_dir is None ==> r is Ok,
        r matches Ok(fs) ==> {
            &&& fs.bucket@ == config.bucket@
            &&& config.prefix@.len() == 0 ==> fs.prefix@.len() == 0
            &&& config.prefix@.len() > 0 ==> fs.prefix@.last() == '/' && (fs.prefix@
                == config.prefix@ || fs.prefix@ == config.prefix@ + seq!['/'])
            &&& fs.read_only == config.read_only
            &&& fs.verify_crc64 == config.verify_crc64
            &&& fs.content_md5 == config.content_md5
            &&& fs.allow_rename_dir == config.allow_rename_dir
            &&& fs.rename_dir_limit is Some ==> fs.rename_dir_limit == config.rename_dir_limit
                && fs.rename_dir_limit->0 > 0
            &&& config.rename_dir_limit is Some && config.rename_dir_limit->0 > 0
                ==> fs.rename_dir_limit is Some
            &&& fs.trash is Some <==> config.trash_dir is Some
            &&& fs.multipart_part_size >= 5 * 1024 * 1024
            &&& config.multipart_size is Some && config.multipart_size->0 >= 5 * 1024 * 1024
                ==> Some(fs.multipart_part_size) == config.multipart_size
            &&& config.multipart_size is None ==> fs.multipart_part_size == 8 * 1024 * 1024
            &&& fs.multipart_concurrency >= 1
            &&& config.multipart_concurrency is None ==> fs.multipart_concurrency == 4
            &&& forall|p: Seq<char>| !#[trigger] fs.caches.stats@.contains_key(p)
            &&& forall|p: Seq<char>| !#[trigger] fs.caches.negative@.contains_key(p)
            &&& forall|p: Seq<char>| !#[trigger] fs.reader.cache@.contains_key(p)
            &&& fs.caches.stats.ttl() >= 1_000_000_000
            &&& fs.caches.negative.ttl() >= 1_000_000_000
            &&& config.stat_cache_max_entries > 0 ==> fs.caches.stats.capacity()
                == config.stat_cache_max_entries
            &&& config.readwrite_timeout_secs is Some && config.readwrite_timeout_secs->0 > 0
                ==> Some(fs.operation_timeout_secs) == config.readwrite_timeout_secs
            &&& config.read_ahead_bytes is Some ==> Some(fs.reader.window)
                == config.read_ahead_bytes
            &&& config.read_ahead_bytes is None ==> fs.reader.window == 0
            &&& fs.mount_attr.uid == config.uid
            &&& fs.mount_attr.gid == config.gid
            &&& fs.mount_attr.dir_mode == config.dir_mode
            &&& fs.mount_attr.file_mode == config.file_mode
            &&& fs.mount_attr.umask == config.umask
            &&& fs.allow_other == config.allow_other
            &&& fs.ignore_fsync == config.ignore_fsync
            &&& fs.notsup_compat_dir == config.notsup_compat_dir
            &&& fs.storage_class == config.storage_class
            &&& fs.disk_cache_verify_etag == config.disk_cache_verify_etag
            &&& fs.disk_cache_prefetch_blocks == config.disk_cache_prefetch_blocks
            &&& fs.max_concurrent_requests > 0
            &&& config.max_concurrent_requests is Some && config.max_concurrent_requests->0 > 0
                ==> Some(fs.max_concurrent_requests) == config.max_concurrent_requests
            &&& config.disk_cache_prefetch_concurrency > 0 ==> fs.prefetch_concurrency
                == config.disk_cache_prefetch_concurrency
            &&& config.negative_cache_max_entries > 0 ==> fs.caches.negative.capacity()
                == config.negative_cache_max_entries
            &&& 0 < config.negative_cache_ttl_secs <= 1_000_000_000 ==> fs.caches.negative.ttl()
                == config.negative_cache_ttl_secs * 1_000_000_000
            &&& 0 < config.stat_cache_ttl_secs <= 1_000_000_000 ==> fs.caches.stats.ttl()
                == config.stat_cache_ttl_secs * 1_000_000_000
            &&& 0 < config.disk_cache_etag_ttl_secs <= 1_000_000_000 ==> fs.etag_checked.ttl()
                == config.disk_cache_etag_ttl_secs * 1_000_000_000
            &&& config.total_mem_limit is None ==> {
                &&& fs.upload_budget.limited() <==> config.max_upload_bytes is Some
                    && config.max_upload_bytes->0 > 0
                &&& fs.dirty_budget is Some <==> config.max_dirty_bytes is Some
                    && config.max_dirty_bytes->0 > 0
                &&& config.read_cache_max_bytes is Some ==> fs.reader.cache.max_bytes()
                    == config.read_cache_max_bytes->0
            }
            &&& config.total_mem_limit is Some && config.total_mem_limit->0 > 0
                ==> fs.reader.cache.max_bytes() <= config.total_mem_limit->0
        },
{
    assert(config.prefix@.push('/') =~= config.prefix@ + seq!['/']);
}

/// A mount tells what it was mounted with.
pub proof fn mounts_tell_how_they_are_mounted(
    fs: &ObjectFs,
    read_only: bool,
    ignore_fsync: bool,
    allow_other: bool,
    attr: MountAttr,
    trash: bool,
    gc: Option<u64>,
    dirty: Option<DirtyBudget>,
)
    requires
        call_ensures(ObjectFs::read_only, (fs,), read_only),
        call_ensures(ObjectFs::ignore_fsync, (fs,), ignore_fsync),
        call_ensures(ObjectFs::allow_other, (fs,), allow_other),
        call_ensures(ObjectFs::mount_attr, (fs,), attr),
        call_ensures(ObjectFs::trash_enabled, (fs,), trash),
        call_ensures(ObjectFs::trash_gc_interval_secs, (fs,), gc),
        call_ensures(ObjectFs::dirty_budget, (fs,), dirty),
    ensures
        read_only == fs.read_only,
        ignore_fsync == fs.ignore_fsync,
        allow_other == fs.allow_other,
        attr.uid == fs.mount_attr.uid && attr.gid == fs.mount_attr.gid,
        attr.dir_mode == fs.mount_attr.dir_mode && attr.file_mode == fs.mount_attr.file_mode,
        attr.umask == fs.mount_attr.umask,
        trash <==> fs.trash is Some,
        gc is Some <==> trash,
        gc matches Some(secs) ==> secs == fs.trash->0.gc_interval_secs,
        dirty is Some <==> fs.dirty_budget is Some,
        dirty is Some ==> dirty->0.all_units() == fs.dirty_budget->0.all_units()
            && dirty->0.source() == fs.dirty_budget->0.source(),
{
}

/// A mount without a trash lists, restores and refreshes none, and one with a
/// trash starts to refresh it once. A read-only mount is not writable.
pub proof fn trashes_are_used_where_there_is_one(
    fs: &mut ObjectFs,
    started: bool,
    again: &mut ObjectFs,
    twice: bool,
    writable: Result<(), FsError>,
    listed: Result<(), FsError>,
    restored: Result<(), FsError>,
)
    requires
        call_ensures(ObjectFs::trash_refresh_start, (fs,), started),
        *old(again) == *final(fs),
        call_ensures(ObjectFs::trash_refresh_start, (again,), twice),
        call_ensures(ObjectFs::ensure_writable, (old(fs),), writable),
        call_ensures(ObjectFs::trash_list, (old(fs),), listed),
        call_ensures(ObjectFs::trash_restore, (old(fs),), restored),
    ensures
        !twice,
        started ==> old(fs).trash is Some,
        !old(fs).trash_refresh_started && old(fs).trash is Some ==> started,
        writable is Err <==> old(fs).read_only,
        listed is Err <==> old(fs).trash is None,
        restored is Err <==> old(fs).trash is None,
{
}

} // verus!
