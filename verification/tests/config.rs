use ossfs::config::{
    effective_max_concurrent_requests, effective_mode, effective_owner, read_body_budget,
    read_fetch_len, retry_backoff, s3_max_attempts, s3_retry_config, s3_timeout_config,
    DEFAULT_CONNECT_TIMEOUT_SECS, DEFAULT_READWRITE_TIMEOUT_SECS, MAX_CONCURRENT_S3_REQUESTS,
    READ_BODY_MIN_TOTAL_SECS, TRASH_EAGER_MIN_POLL_INTERVAL_SECS, TRASH_GC_INTERVAL_SECS,
    TRASH_INDEX_ALERT_THRESHOLD, TRASH_REBUILD_INTERVAL_SECS, TRASH_REFRESH_INTERVAL_SECS,
    TRASH_RETENTION_DAYS,
};
use std::time::Duration;

#[test]
fn retry_backoff_scales_and_caps() {
    assert_eq!(retry_backoff(0), Duration::from_secs(5));
    assert_eq!(retry_backoff(1), Duration::from_secs(15));
    assert_eq!(retry_backoff(2), Duration::from_secs(45));
    assert_eq!(retry_backoff(5), Duration::from_secs(5 * 3u64.pow(5)));
    assert_eq!(retry_backoff(9), retry_backoff(5));
}

#[test]
fn effective_owner_and_mode_resolve_defaults() {
    assert_eq!(effective_owner(0, 1000), 1000);
    assert_eq!(effective_owner(42, 1000), 42);
    assert_eq!(effective_mode(true, 0o755, 0o644, 0), 0o755);
    assert_eq!(effective_mode(false, 0o755, 0o644, 0), 0o644);
    assert_eq!(effective_mode(false, 0o755, 0o644, 0o022), 0o644);
    assert_eq!(effective_mode(true, 0o777, 0o666, 0o022), 0o755);
}

#[test]
fn modes_are_cut_to_sixteen_bits() {
    assert_eq!(effective_mode(true, 0x1_2345, 0, 0), 0x2345);
    assert_eq!(effective_mode(true, 0o777, 0, u32::MAX), 0);
}

#[test]
fn read_fetch_len_prefetches_only_on_sequential_reads() {
    assert_eq!(read_fetch_len(4096, 8 * 1024, false), 4096);
    assert_eq!(read_fetch_len(4096, 8 * 1024, true), 8 * 1024);
    assert_eq!(read_fetch_len(8 * 1024, 8 * 1024, true), 8 * 1024);
    assert_eq!(read_fetch_len(4096, 0, true), 4096);
}

#[test]
fn s3_max_attempts_maps_retries_to_total_attempts() {
    assert_eq!(s3_max_attempts(0), 1);
    assert_eq!(s3_max_attempts(1), 2);
    assert_eq!(s3_max_attempts(2), 3);
    assert_eq!(s3_max_attempts(u32::MAX), u32::MAX);
}

#[test]
fn refresh_constants_pinned() {
    assert_eq!(TRASH_REFRESH_INTERVAL_SECS, 30);
    assert_eq!(TRASH_REBUILD_INTERVAL_SECS, 600);
    assert_eq!(TRASH_INDEX_ALERT_THRESHOLD, 500_000);
    assert_eq!(TRASH_RETENTION_DAYS, 30);
    assert_eq!(TRASH_GC_INTERVAL_SECS, 86_400);
    assert_eq!(
        Duration::from_secs(TRASH_EAGER_MIN_POLL_INTERVAL_SECS),
        Duration::from_secs(1)
    );
}

#[test]
fn max_concurrent_requests_default_and_override() {
    assert_eq!(effective_max_concurrent_requests(None), MAX_CONCURRENT_S3_REQUESTS);
    assert_eq!(effective_max_concurrent_requests(Some(0)), MAX_CONCURRENT_S3_REQUESTS);
    assert_eq!(effective_max_concurrent_requests(Some(4)), 4);
}

#[test]
fn read_body_budget_scales_with_expected_length() {
    let least = Duration::from_secs(READ_BODY_MIN_TOTAL_SECS);
    assert_eq!(read_body_budget(0), least);
    assert_eq!(read_body_budget(1024), least);
    assert_eq!(read_body_budget(8 * 1024 * 1024), Duration::from_secs(1024));
    assert_eq!(read_body_budget(usize::MAX), Duration::from_secs(8192));
}

#[test]
fn s3_timeout_config_always_sets_timeouts() {
    let explicit = s3_timeout_config(Some(3), Some(120));
    assert_eq!(explicit.connect_timeout(), Some(Duration::from_secs(3)));
    assert_eq!(explicit.read_timeout(), Some(Duration::from_secs(120)));
    assert_eq!(explicit.operation_timeout(), Some(Duration::from_secs(120)));

    let fallback = s3_timeout_config(None, None);
    assert_eq!(
        fallback.connect_timeout(),
        Some(Duration::from_secs(DEFAULT_CONNECT_TIMEOUT_SECS))
    );
    assert_eq!(
        fallback.read_timeout(),
        Some(Duration::from_secs(DEFAULT_READWRITE_TIMEOUT_SECS))
    );
}

#[test]
fn retries_come_on_top_of_the_first_attempt() {
    assert!(s3_retry_config(None).is_none());
    let config = s3_retry_config(Some(2)).unwrap();
    assert_eq!(config.max_attempts(), 3);
    assert_eq!(config.mode(), aws_smithy_types::retry::RetryMode::Standard);
    assert_eq!(s3_retry_config(Some(u32::MAX)).unwrap().max_attempts(), u32::MAX);
}
