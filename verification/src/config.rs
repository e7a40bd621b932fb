//! What a mount is configured with, and what the settings amount to.

use crate::text::ends_with_char;
use aws_smithy_types::retry::RetryConfig;
use aws_smithy_types::timeout::TimeoutConfig;
use std::path::PathBuf;
use std::time::Duration;
use vstd::prelude::*;

verus! {

/// How long a stat result is served from memory, in seconds.
pub const STAT_TTL_SECS: u64 = 3;

/// How many stat results are kept.
pub const MAX_STAT_ENTRIES: usize = 4096;

/// How long a missing path is remembered as missing, in seconds.
pub const NEGATIVE_CACHE_TTL_SECS: u64 = 5;

/// How many missing paths are remembered.
pub const MAX_NEGATIVE_ENTRIES: usize = 4096;

/// How many requests are under way at once, unless configured otherwise.
pub const MAX_CONCURRENT_S3_REQUESTS: usize = 32;

/// How long connecting may take, in seconds, unless configured otherwise.
pub const DEFAULT_CONNECT_TIMEOUT_SECS: u64 = 10;

/// How long one request may take, in seconds, unless configured otherwise.
pub const DEFAULT_READWRITE_TIMEOUT_SECS: u64 = 60;

/// The least time, in seconds, for receiving a body.
pub const READ_BODY_MIN_TOTAL_SECS: u64 = 60;

/// The throughput, in bytes per second, that a body must keep up.
pub const READ_BODY_MIN_THROUGHPUT: u64 = 8 * 1024;

/// The body length above which the time for it no longer grows.
pub const READ_BODY_BUDGET_CAP_BYTES: u64 = 64 * 1024 * 1024;

/// Objects above this size are written in parts.
pub const MULTIPART_THRESHOLD: u64 = 16 * 1024 * 1024;

/// The size of a part, unless configured otherwise.
pub const MULTIPART_PART_SIZE: usize = 8 * 1024 * 1024;

/// The least size of a part.
pub const MULTIPART_MIN_PART_SIZE: usize = 5 * 1024 * 1024;

/// How many parts of one object are sent at once, unless configured otherwise.
pub const MULTIPART_UPLOAD_CONCURRENCY: usize = 4;

/// Seconds between two refreshes of the trash index.
pub const TRASH_REFRESH_INTERVAL_SECS: u64 = 30;

/// Seconds between two full rebuilds of the trash index.
pub const TRASH_REBUILD_INTERVAL_SECS: u64 = 600;

/// The size of the trash index above which a warning is due.
pub const TRASH_INDEX_ALERT_THRESHOLD: usize = 500_000;

/// Days for which deleted objects are kept.
pub const TRASH_RETENTION_DAYS: u32 = 30;

/// Seconds between two cleanings of the trash.
pub const TRASH_GC_INTERVAL_SECS: u64 = 86_400;

/// The least number of seconds between two refreshes on demand.
pub const TRASH_EAGER_MIN_POLL_INTERVAL_SECS: u64 = 1;

/// Bytes held by the read cache at most, unless configured otherwise.
pub const READ_CACHE_MAX_BYTES: usize = 64 * 1024 * 1024;

/// The size of a block of the disk cache, unless configured otherwise.
pub const DISK_CACHE_BLOCK_SIZE: usize = 4 * 1024 * 1024;

/// How many blocks are fetched ahead at once, unless configured otherwise.
pub const DISK_CACHE_PREFETCH_CONCURRENCY: usize = 4;

/// How many times a failed upload is tried again before it is given up.
pub const RETRY_MAX_ATTEMPTS: u32 = 10;

/// When changes of the trash by others are noticed.
#[derive(Clone, Copy, Debug, PartialEq, Eq, Structural)]
pub enum TrashRefreshMode {
    /// At intervals.
    Lazy,
    /// Before every listing and stat.
    Eager,
}

impl Default for TrashRefreshMode {
    fn default() -> (r: Self)
        ensures
            r == TrashRefreshMode::Lazy,
    {
        TrashRefreshMode::Lazy
    }
}

/// The system recycle bin, where it is to be shown.
#[derive(Clone, Debug)]
pub struct SystemTrashConfig {
    /// Its directory name; the platform's own where not given.
    pub dir_name: Option<String>,
    /// The user ids whose directories are shown.
    pub macos_uid_dirs: Vec<u32>,
}

/// `std::path::PathBuf`: a path of the local file system, carried through.
#[verifier::external_type_specification]
#[verifier::external_body]
pub struct ExPathBuf(PathBuf);

/// What a mount is configured with.
#[derive(Clone, Debug)]
pub struct OssConfig {
    pub bucket: String,
    pub region: String,
    /// The store's address, where it is not the default one.
    pub endpoint: Option<String>,
    pub force_path_style: bool,
    /// The namespace under which all keys stand: empty, or ending in a slash.
    pub prefix: String,
    /// Requests under way at once; zero or nothing for the default.
    pub max_concurrent_requests: Option<usize>,
    pub read_only: bool,
    /// The owner shown; zero for the mounting user.
    pub uid: u32,
    pub gid: u32,
    pub dir_mode: u32,
    pub file_mode: u32,
    pub allow_other: bool,
    /// Permission bits taken away from every mode.
    pub umask: u32,
    pub allow_rename_dir: bool,
    /// Objects that one directory rename may copy; zero or nothing for no
    /// limit.
    pub rename_dir_limit: Option<u64>,
    /// Bytes being uploaded at once; zero or nothing for no limit.
    pub max_upload_bytes: Option<usize>,
    /// The read-ahead window; zero or nothing for none.
    pub read_ahead_bytes: Option<usize>,
    pub ignore_fsync: bool,
    /// Bytes of write buffers held at once; zero or nothing for no limit.
    pub max_dirty_bytes: Option<usize>,
    /// A command that emits credentials.
    pub credential_process: Option<String>,
    pub connect_timeout_secs: Option<u64>,
    pub readwrite_timeout_secs: Option<u64>,
    /// Further attempts after the first.
    pub retries: Option<u32>,
    /// Compare the checksum of every upload with the one the store reports.
    pub verify_crc64: bool,
    /// Send the MD5 digest of every upload along.
    pub content_md5: bool,
    /// Leave out the directory markers of other tools.
    pub notsup_compat_dir: bool,
    pub storage_class: Option<String>,
    pub multipart_size: Option<usize>,
    pub multipart_concurrency: Option<usize>,
    pub disk_cache_dir: Option<PathBuf>,
    /// Memory for all buffers together; zero or nothing for separate limits.
    pub total_mem_limit: Option<usize>,
    pub read_cache_max_bytes: Option<usize>,
    /// Bytes in the disk cache; zero for no disk cache.
    pub disk_cache_max_bytes: usize,
    /// The size of a block; zero or nothing for the default.
    pub disk_cache_block_size: Option<usize>,
    /// Bytes to be left free on the disk.
    pub disk_cache_reserve_diskfree: u64,
    /// Blocks fetched ahead after a sequential read; zero for none.
    pub disk_cache_prefetch_blocks: usize,
    /// Blocks fetched ahead at once; zero for the default.
    pub disk_cache_prefetch_concurrency: usize,
    pub disk_cache_verify_etag: bool,
    pub disk_cache_etag_ttl_secs: u64,
    pub negative_cache_ttl_secs: u64,
    pub negative_cache_max_entries: usize,
    pub stat_cache_ttl_secs: u64,
    pub stat_cache_max_entries: usize,
    /// The trash directory; nothing for no trash.
    pub trash_dir: Option<String>,
    pub trash_retention_days: Option<u32>,
    pub trash_refresh_interval_secs: Option<u64>,
    pub trash_refresh_mode: Option<TrashRefreshMode>,
    pub trash_gc_interval_secs: Option<u64>,
    /// The system recycle bin; nothing for none.
    pub system_trash: Option<SystemTrashConfig>,
}

/// The namespace prefix with the slash at its end that it must have.
pub open spec fn namespace(prefix: Seq<char>) -> Seq<char> {
    if prefix.len() > 0 && prefix.last() != '/' {
        prefix.push('/')
    } else {
        prefix
    }
}

/// A timeout, with `default` for zero and for nothing.
pub open spec fn timeout_or(secs: Option<u64>, default: u64) -> Option<u64> {
    if secs is None || secs == Some(0u64) {
        Some(default)
    } else {
        secs
    }
}

/// `value`, or `default` where there is none.
pub open spec fn filled<T>(value: Option<T>, default: T) -> Option<T> {
    if value is None {
        Some(default)
    } else {
        value
    }
}

impl OssConfig {
    /// All defaults that a mount relies on are filled in: the timeouts, the
    /// retries, and how the trash is kept. Whether there is a trash, or a
    /// system recycle bin, is never filled in.
    pub open spec fn is_normalized(&self) -> bool {
        &&& namespace(self.prefix@) == self.prefix@
        &&& self.connect_timeout_secs is Some && self.connect_timeout_secs->0 > 0
        &&& self.readwrite_timeout_secs is Some && self.readwrite_timeout_secs->0 > 0
        &&& self.retries is Some
        &&& self.trash_refresh_interval_secs is Some
        &&& self.trash_refresh_mode is Some
        &&& self.trash_retention_days is Some
        &&& self.trash_gc_interval_secs is Some
    }

    /// Fills in the defaults.
    pub fn normalize(self) -> (r: Self)
        ensures
            r.prefix@ == namespace(self.prefix@),
            r == (OssConfig {
                prefix: r.prefix,
                connect_timeout_secs: timeout_or(
                    self.connect_timeout_secs,
                    DEFAULT_CONNECT_TIMEOUT_SECS,
                ),
                readwrite_timeout_secs: timeout_or(
                    self.readwrite_timeout_secs,
                    DEFAULT_READWRITE_TIMEOUT_SECS,
                ),
                retries: filled(self.retries, 1),
                trash_refresh_interval_secs: filled(
                    self.trash_refresh_interval_secs,
                    TRASH_REFRESH_INTERVAL_SECS,
                ),
                trash_refresh_mode: filled(self.trash_refresh_mode, TrashRefreshMode::Lazy),
                trash_retention_days: filled(self.trash_retention_days, TRASH_RETENTION_DAYS),
                trash_gc_interval_secs: filled(self.trash_gc_interval_secs, TRASH_GC_INTERVAL_SECS),
                ..self
            }),
            r.is_normalized(),
    {
        let prefix = namespace_of(self.prefix.as_str());
        OssConfig {
            prefix,
            connect_timeout_secs: timeout_filled(
                self.connect_timeout_secs,
                DEFAULT_CONNECT_TIMEOUT_SECS,
            ),
            readwrite_timeout_secs: timeout_filled(
                self.readwrite_timeout_secs,
                DEFAULT_READWRITE_TIMEOUT_SECS,
            ),
            retries: fill(self.retries, 1),
            trash_refresh_interval_secs: fill(
                self.trash_refresh_interval_secs,
                TRASH_REFRESH_INTERVAL_SECS,
            ),
            trash_refresh_mode: fill(self.trash_refresh_mode, TrashRefreshMode::Lazy),
            trash_retention_days: fill(self.trash_retention_days, TRASH_RETENTION_DAYS),
            trash_gc_interval_secs: fill(self.trash_gc_interval_secs, TRASH_GC_INTERVAL_SECS),
            ..self
        }
    }
}

/// The prefix with a slash at its end, unless it is empty.
pub fn namespace_of(prefix: &str) -> (r: String)
    ensures
        r@ == namespace(prefix@),
{
    let mut s = prefix.to_owned();
    if !prefix.is_empty() && !ends_with_char(prefix, '/') {
        s.push('/');
    }
    s
}

fn timeout_filled(secs: Option<u64>, default: u64) -> (r: Option<u64>)
    ensures
        r == timeout_or(secs, default),
{
    match secs {
        Some(n) => {
            if n == 0 {
                Some(default)
            } else {
                Some(n)
            }
        },
        None => Some(default),
    }
}

fn fill<T>(value: Option<T>, default: T) -> (r: Option<T>)
    ensures
        r == filled(value, default),
{
    match value {
        Some(v) => Some(v),
        None => Some(default),
    }
}

/// Filling in the defaults once is enough: a second time changes nothing.
pub proof fn normalizing_again_changes_nothing(c: OssConfig)
    requires
        c.is_normalized(),
    ensures
        namespace(c.prefix@) == c.prefix@,
        timeout_or(c.connect_timeout_secs, DEFAULT_CONNECT_TIMEOUT_SECS) == c.connect_timeout_secs,
        timeout_or(c.readwrite_timeout_secs, DEFAULT_READWRITE_TIMEOUT_SECS)
            == c.readwrite_timeout_secs,
        filled(c.retries, 1) == c.retries,
        filled(c.trash_refresh_interval_secs, TRASH_REFRESH_INTERVAL_SECS)
            == c.trash_refresh_interval_secs,
        filled(c.trash_refresh_mode, TrashRefreshMode::Lazy) == c.trash_refresh_mode,
        filled(c.trash_retention_days, TRASH_RETENTION_DAYS) == c.trash_retention_days,
        filled(c.trash_gc_interval_secs, TRASH_GC_INTERVAL_SECS) == c.trash_gc_interval_secs,
{
}

/// The owner and the permissions that every object is shown with.
#[derive(Clone, Copy, Debug, PartialEq, Eq, Structural)]
pub struct MountAttr {
    pub uid: u32,
    pub gid: u32,
    pub dir_mode: u32,
    pub file_mode: u32,
    pub umask: u32,
}

impl Default for MountAttr {
    fn default() -> (r: Self)
        ensures
            r == (MountAttr { uid: 0, gid: 0, dir_mode: 0o755, file_mode: 0o644, umask: 0 }),
    {
        MountAttr { uid: 0, gid: 0, dir_mode: 0o755, file_mode: 0o644, umask: 0 }
    }
}

/// The owner shown: the configured one, or the mounting user for zero.
pub fn effective_owner(configured: u32, current: u32) -> (r: u32)
    ensures
        r == (if configured == 0 {
            current
        } else {
            configured
        }),
{
    if configured == 0 {
        current
    } else {
        configured
    }
}

/// The permission bits shown for a directory or a file: those of its mode that
/// the mask leaves, as sixteen bits.
pub fn effective_mode(is_dir: bool, dir_mode: u32, file_mode: u32, umask: u32) -> (r: u16)
    ensures
        r == ((if is_dir {
            dir_mode
        } else {
            file_mode
        }) & !umask) as u16,
        r as u32 & umask & 0xffff == 0,
{
    let base: u32 = if is_dir {
        dir_mode
    } else {
        file_mode
    };
    let bits: u32 = base & !umask;
    proof {
        let low = #[verifier::truncate] (bits as u16);
        assert((low as u32) & umask & 0xffff == 0) by (bit_vector)
            requires
                bits == base & !umask,
                low == bits as u16,
        ;
    }
    #[verifier::truncate]
    (bits as u16)
}

/// Seconds to wait before another try: five, three times as long each time,
/// and no longer than after the fifth failure.
pub open spec fn backoff_secs(attempts: nat) -> nat
    decreases attempts,
{
    if attempts == 0 {
        5
    } else if attempts > 5 {
        backoff_secs(5)
    } else {
        3 * backoff_secs((attempts - 1) as nat)
    }
}

/// The nanoseconds in a duration, as `Duration::as_nanos` says.
pub uninterp spec fn duration_nanos(d: Duration) -> nat;

/// The duration is exactly that many seconds.
pub open spec fn is_secs(d: Duration, secs: nat) -> bool {
    duration_nanos(d) == secs * 1_000_000_000
}

/// `Duration::from_secs`: a duration of that many whole seconds, and no
/// fraction of one.
pub assume_specification[ Duration::from_secs ](secs: u64) -> (r: Duration)
    ensures
        duration_nanos(r) == secs * 1_000_000_000,
;

/// How long to wait before another try of an upload that failed `attempts`
/// times.
pub fn retry_backoff(attempts: u32) -> (r: Duration)
    ensures
        is_secs(r, backoff_secs(attempts as nat)),
{
    Duration::from_secs(retry_backoff_secs(attempts))
}

/// Seconds to wait before another try of an upload that failed `attempts`
/// times.
pub fn retry_backoff_secs(attempts: u32) -> (r: u64)
    ensures
        r == backoff_secs(attempts as nat),
        5 <= r <= 1215,
{
    let n: u32 = if attempts < 5 {
        attempts
    } else {
        5
    };
    let mut secs: u64 = 5;
    let mut i: u32 = 0;
    proof {
        reveal_with_fuel(backoff_secs, 7);
    }
    while i < n
        invariant
            i <= n <= 5,
            secs == backoff_secs(i as nat),
            5 <= secs <= 1215,
        decreases n - i,
    {
        proof {
            reveal_with_fuel(backoff_secs, 7);
        }
        i += 1;
        secs = 3 * secs;
    }
    secs
}

/// Waiting never gets shorter.
pub proof fn backoff_never_shrinks(a: nat, b: nat)
    requires
        a <= b,
    ensures
        backoff_secs(a) <= backoff_secs(b),
{
    reveal_with_fuel(backoff_secs, 7);
}

/// Attempts in all, for that many after the first.
pub fn s3_max_attempts(retries: u32) -> (r: u32)
    ensures
        r >= 1,
        r == (if retries == u32::MAX {
            u32::MAX
        } else {
            (retries + 1) as u32
        }),
{
    if retries == u32::MAX {
        u32::MAX
    } else {
        retries + 1
    }
}

/// Seconds that receiving a body of that length may take: as long as the least
/// throughput allows, but never under the least time, and growing no further
/// above the cap.
pub open spec fn body_budget_secs(expected_len: nat) -> nat {
    let capped = if expected_len < READ_BODY_BUDGET_CAP_BYTES {
        expected_len
    } else {
        READ_BODY_BUDGET_CAP_BYTES as nat
    };
    if capped / READ_BODY_MIN_THROUGHPUT as nat > READ_BODY_MIN_TOTAL_SECS {
        capped / READ_BODY_MIN_THROUGHPUT as nat
    } else {
        READ_BODY_MIN_TOTAL_SECS as nat
    }
}

/// How long receiving a body of that length may take.
pub fn read_body_budget(expected_len: usize) -> (r: Duration)
    ensures
        is_secs(r, body_budget_secs(expected_len as nat)),
{
    Duration::from_secs(read_body_budget_secs(expected_len))
}

/// Seconds that receiving a body of that length may take.
pub fn read_body_budget_secs(expected_len: usize) -> (r: u64)
    ensures
        r == body_budget_secs(expected_len as nat),
        60 <= r <= 8192,
{
    let expected: u64 = if (expected_len as u64) < READ_BODY_BUDGET_CAP_BYTES {
        expected_len as u64
    } else {
        READ_BODY_BUDGET_CAP_BYTES
    };
    let by_throughput: u64 = expected / READ_BODY_MIN_THROUGHPUT;
    if by_throughput > READ_BODY_MIN_TOTAL_SECS {
        by_throughput
    } else {
        READ_BODY_MIN_TOTAL_SECS
    }
}

/// Requests under way at once. Zero never means that there is no limit.
pub fn effective_max_concurrent_requests(configured: Option<usize>) -> (r: usize)
    ensures
        r > 0,
        r == (match configured {
            Some(n) => if n > 0 {
                n
            } else {
                MAX_CONCURRENT_S3_REQUESTS
            },
            None => MAX_CONCURRENT_S3_REQUESTS,
        }),
{
    match configured {
        Some(n) => {
            if n > 0 {
                n
            } else {
                MAX_CONCURRENT_S3_REQUESTS
            }
        },
        None => MAX_CONCURRENT_S3_REQUESTS,
    }
}

/// Bytes to request for a read of `len`: the whole read-ahead window where the
/// read is smaller and continues the one before it.
pub fn read_fetch_len(len: usize, window: usize, sequential: bool) -> (r: usize)
    ensures
        r == (if window > 0 && len < window && sequential {
            window
        } else {
            len
        }),
        r >= len,
{
    if window > 0 && len < window && sequential {
        window
    } else {
        len
    }
}

/// `aws_smithy_types::timeout::TimeoutConfig`.
#[verifier::external_type_specification]
#[verifier::external_body]
pub struct ExTimeoutConfig(TimeoutConfig);

/// The limit on connecting, as `TimeoutConfig::connect_timeout` says.
pub uninterp spec fn connect_limit(t: TimeoutConfig) -> Option<Duration>;

/// The limit on waiting for the first byte of a response, as
/// `TimeoutConfig::read_timeout` says.
pub uninterp spec fn read_limit(t: TimeoutConfig) -> Option<Duration>;

/// The limit on an operation with all its retries, as
/// `TimeoutConfig::operation_timeout` says.
pub uninterp spec fn operation_limit(t: TimeoutConfig) -> Option<Duration>;

/// The limit on one attempt, as `TimeoutConfig::operation_attempt_timeout`
/// says.
pub uninterp spec fn attempt_limit(t: TimeoutConfig) -> Option<Duration>;

/// `TimeoutConfig::builder` and its `connect_timeout`, `read_timeout`,
/// `operation_timeout` and `build`: the three limits are the ones given, and
/// that of a single attempt is left unset.
#[verifier::external_body]
fn build_timeouts(connect: Duration, read: Duration, operation: Duration) -> (r: TimeoutConfig)
    ensures
        connect_limit(r) == Some(connect),
        read_limit(r) == Some(read),
        operation_limit(r) == Some(operation),
        attempt_limit(r) is None,
{
    TimeoutConfig::builder()
        .connect_timeout(connect)
        .read_timeout(read)
        .operation_timeout(operation)
        .build()
}

/// The seconds given, or `default`.
pub fn secs_or(secs: Option<u64>, default: u64) -> (r: u64)
    ensures
        r == (match secs {
            Some(n) => n,
            None => default,
        }),
{
    match secs {
        Some(n) => n,
        None => default,
    }
}

/// The timeouts of every request. None is ever left unset, and an operation,
/// however often it is tried, never outlives the read timeout.
pub fn s3_timeout_config(connect_secs: Option<u64>, read_secs: Option<u64>) -> (r: TimeoutConfig)
    ensures
        ({
            let read = match read_secs {
                Some(n) => n,
                None => DEFAULT_READWRITE_TIMEOUT_SECS,
            };
            let connect = match connect_secs {
                Some(n) => n,
                None => DEFAULT_CONNECT_TIMEOUT_SECS,
            };
            &&& connect_limit(r) is Some && is_secs(connect_limit(r)->0, connect as nat)
            &&& read_limit(r) is Some && is_secs(read_limit(r)->0, read as nat)
            &&& operation_limit(r) is Some && is_secs(operation_limit(r)->0, read as nat)
            &&& attempt_limit(r) is None
        }),
{
    let read = Duration::from_secs(secs_or(read_secs, DEFAULT_READWRITE_TIMEOUT_SECS));
    let connect = Duration::from_secs(secs_or(connect_secs, DEFAULT_CONNECT_TIMEOUT_SECS));
    build_timeouts(connect, read, read)
}

/// `aws_smithy_types::retry::RetryConfig`.
#[verifier::external_type_specification]
#[verifier::external_body]
pub struct ExRetryConfig(RetryConfig);

/// How often a request is tried at most, as `RetryConfig::max_attempts` says.
pub uninterp spec fn attempts_allowed(c: RetryConfig) -> u32;

/// `RetryConfig::mode` is the standard mode.
pub uninterp spec fn in_standard_mode(c: RetryConfig) -> bool;

/// `RetryConfig::standard` and `with_max_attempts`: the standard mode, with
/// that many attempts, the first one counted.
#[verifier::external_body]
fn standard_retries(max_attempts: u32) -> (r: RetryConfig)
    requires
        max_attempts > 0,
    ensures
        in_standard_mode(r),
        attempts_allowed(r) == max_attempts,
{
    RetryConfig::standard().with_max_attempts(max_attempts)
}

/// How requests are tried again, where that is configured.
pub fn s3_retry_config(retries: Option<u32>) -> (r: Option<RetryConfig>)
    ensures
        r is Some <==> retries is Some,
        r is Some ==> in_standard_mode(r->0) && attempts_allowed(r->0) == (if retries->0
            == u32::MAX {
            u32::MAX
        } else {
            (retries->0 + 1) as u32
        }),
{
    match retries {
        Some(retries) => Some(standard_retries(s3_max_attempts(retries))),
        None => None,
    }
}

} // verus!
