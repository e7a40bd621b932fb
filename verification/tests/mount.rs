use ossfs::config::{
    MountAttr, OssConfig, SystemTrashConfig, TrashRefreshMode, DEFAULT_CONNECT_TIMEOUT_SECS,
    DEFAULT_READWRITE_TIMEOUT_SECS, MAX_CONCURRENT_S3_REQUESTS, READ_CACHE_MAX_BYTES,
    TRASH_GC_INTERVAL_SECS, TRASH_REBUILD_INTERVAL_SECS, TRASH_REFRESH_INTERVAL_SECS,
    TRASH_RETENTION_DAYS,
};
use ossfs::deletion::{DeleteDirPlan, DeletePlan, TreeNext};
use ossfs::error::{FsError, Step};
use ossfs::fs::{
    bucket_checked, disk_cache_settings, effective_memory_budgets, BucketReply, ObjectFs,
};
use ossfs::listing::DirEntry;
use ossfs::metrics::MetricsSnapshot;
use ossfs::multipart::CreateReply;
use ossfs::operations::{BinRead, RangeNext};
use ossfs::rename::RenameNext;
use ossfs::stat::LookupNext;
use ossfs::stat_cache::Cached;
use ossfs::trash::{
    build_trash_state, SystemTrashMatch, SystemTrashPlatform, TombstoneIndex, TrashState,
};
use ossfs::writing::{MkdirPlan, UploadRoute};
use std::time::Duration;

const SECOND: u64 = 1_000_000_000;

fn config() -> OssConfig {
    OssConfig {
        bucket: "b".into(),
        region: "cn-shanghai".into(),
        endpoint: None,
        force_path_style: false,
        prefix: String::new(),
        max_concurrent_requests: None,
        read_only: false,
        uid: 0,
        gid: 0,
        dir_mode: 0o755,
        file_mode: 0o644,
        allow_other: false,
        umask: 0,
        allow_rename_dir: true,
        rename_dir_limit: Some(2_000_000),
        max_upload_bytes: None,
        read_ahead_bytes: None,
        ignore_fsync: true,
        max_dirty_bytes: None,
        verify_crc64: false,
        storage_class: None,
        content_md5: false,
        notsup_compat_dir: false,
        connect_timeout_secs: None,
        readwrite_timeout_secs: None,
        retries: None,
        multipart_size: None,
        multipart_concurrency: None,
        disk_cache_reserve_diskfree: 0,
        disk_cache_dir: None,
        disk_cache_max_bytes: 0,
        disk_cache_block_size: None,
        disk_cache_prefetch_blocks: 1,
        disk_cache_prefetch_concurrency: 4,
        disk_cache_verify_etag: false,
        disk_cache_etag_ttl_secs: 10,
        negative_cache_ttl_secs: 5,
        negative_cache_max_entries: 4096,
        stat_cache_ttl_secs: 3,
        stat_cache_max_entries: 4096,
        total_mem_limit: None,
        read_cache_max_bytes: None,
        credential_process: None,
        trash_dir: None,
        trash_retention_days: None,
        trash_refresh_interval_secs: None,
        trash_refresh_mode: None,
        trash_gc_interval_secs: None,
        system_trash: None,
    }
}

fn mount(config: OssConfig) -> ObjectFs {
    match ObjectFs::connect(config, 0, false) {
        Ok(fs) => fs,
        Err(e) => panic!("{}", e.message()),
    }
}

fn test_fs() -> ObjectFs {
    mount(config())
}

fn trash_state(prefix: &str) -> TrashState {
    TrashState {
        prefix: prefix.to_string(),
        mode: TrashRefreshMode::Lazy,
        refresh_interval_secs: TRASH_REFRESH_INTERVAL_SECS,
        rebuild_interval_secs: TRASH_REBUILD_INTERVAL_SECS,
        gc_interval_secs: TRASH_GC_INTERVAL_SECS,
        retention_days: TRASH_RETENTION_DAYS,
        system: None,
        index: TombstoneIndex::new(),
        generation: 0,
        cursor: None,
    }
}

fn file(name: &str, size: u64) -> DirEntry {
    DirEntry { name: name.into(), is_dir: false, size, mtime_secs: 1 }
}

#[test]
fn key_for_applies_prefix() {
    let mut fs = test_fs();
    fs.prefix = "ossfs/".into();
    assert_eq!(fs.key_for("/docs/a.txt"), "ossfs/docs/a.txt");
    assert_eq!(fs.key_for("/docs/"), "ossfs/docs/");
    assert_eq!(fs.key_for("/"), "ossfs");

    let fs2 = test_fs();
    assert_eq!(fs2.key_for("/docs/a.txt"), "docs/a.txt");
    assert_eq!(fs2.list_prefix("/docs"), "docs/");
    assert_eq!(fs2.list_prefix("/"), "");
}

#[test]
fn hidden_key_gate() {
    let fs = test_fs();
    assert!(!fs.hidden_key(".trash"));
    assert!(!fs.hidden_key(".trash/2026-08-16/a.txt"));
    assert!(!fs.hidden_key("docs/a.txt"));

    let mut fs = test_fs();
    fs.trash = Some(trash_state(".trash/"));
    assert!(fs.hidden_key(".trash"));
    assert!(fs.hidden_key(".trash/"));
    assert!(fs.hidden_key(".trash/2026-08-16/a.txt"));
    assert!(!fs.hidden_key(".trashx"));
    assert!(!fs.hidden_key(".trashx/a.txt"));

    let mut fs = test_fs();
    fs.prefix = "ossfs/".into();
    fs.trash = Some(trash_state("ossfs/.trash/"));
    assert!(fs.hidden_key("ossfs/.trash"));
    assert!(fs.hidden_key("ossfs/.trash/2026-08-16/a.txt"));
    assert!(!fs.hidden_key("ossfs/docs/a.txt"));

    let mut fs = test_fs();
    fs.trash = Some(trash_state(".trash/"));
    fs.trash_insert("/a.txt", false);
    assert!(fs.hidden_key("a.txt"));
    assert!(!fs.hidden_key("b.txt"));
    fs.trash_insert("/docs", true);
    assert!(fs.hidden_key("docs/x.txt"));
    assert!(!fs.hidden_key("docsx/x.txt"));
}

#[test]
fn total_mem_limit_derives_budgets() {
    assert_eq!(
        effective_memory_budgets(Some(64 * 1024 * 1024), 32 * 1024 * 1024, None, None, None),
        (Some(16 * 1024 * 1024), Some(16 * 1024 * 1024), 32 * 1024 * 1024)
    );
    assert_eq!(
        effective_memory_budgets(None, 0, Some(5), Some(7), Some(9)),
        (Some(5), Some(7), 9)
    );
    assert_eq!(
        effective_memory_budgets(None, 0, None, None, None),
        (None, None, READ_CACHE_MAX_BYTES)
    );
}

#[test]
fn a_memory_limit_of_zero_is_no_limit() {
    assert_eq!(effective_memory_budgets(Some(0), 9, Some(5), None, Some(1)), (Some(5), None, 1));
}

#[test]
fn memory_budgets_stay_within_the_limit() {
    for share in [0, 1, 5, 9, 10, 12, usize::MAX] {
        let (upload, dirty, read) = effective_memory_budgets(Some(10), share, None, None, None);
        assert!(upload.unwrap() + dirty.unwrap() + read <= 10);
    }
    assert_eq!(effective_memory_budgets(Some(10), 12, None, None, None), (Some(0), Some(0), 10));
    assert_eq!(effective_memory_budgets(Some(10), 3, None, None, None), (Some(3), Some(3), 3));
}

#[test]
fn a_new_mount_remembers_nothing() {
    let mut fs = mount(config());
    assert!(!fs.caches.stats.holds("/a"));
    assert!(!fs.caches.negative.holds("/a"));
    assert_eq!(fs.reader.cache.hit("/a", 0, 1, 0), None);
    assert!(!fs.reader.hints.continues("/a", 0));
    assert_eq!(fs.prefetch_inflight.len(), 0);
    assert!(fs.etag_checked.due("a", 0, &mut fs.metrics));
}

#[test]
fn config_normalizes_prefix() {
    let mut cfg = config();
    cfg.prefix = "ossfs".into();
    let cfg = cfg.normalize();
    assert_eq!(cfg.prefix, "ossfs/");
    assert!(cfg.trash_dir.is_none());
}

#[test]
fn normalize_defaults_request_timeouts() {
    let cfg = config().normalize();
    assert_eq!(cfg.connect_timeout_secs, Some(DEFAULT_CONNECT_TIMEOUT_SECS));
    assert_eq!(cfg.readwrite_timeout_secs, Some(DEFAULT_READWRITE_TIMEOUT_SECS));
    assert_eq!(cfg.retries, Some(1));

    let mut cfg = config();
    cfg.connect_timeout_secs = Some(0);
    cfg.readwrite_timeout_secs = Some(0);
    let cfg = cfg.normalize();
    assert_eq!(cfg.connect_timeout_secs, Some(DEFAULT_CONNECT_TIMEOUT_SECS));
    assert_eq!(cfg.readwrite_timeout_secs, Some(DEFAULT_READWRITE_TIMEOUT_SECS));

    let mut cfg = config();
    cfg.connect_timeout_secs = Some(3);
    cfg.readwrite_timeout_secs = Some(120);
    let cfg = cfg.normalize();
    assert_eq!(cfg.connect_timeout_secs, Some(3));
    assert_eq!(cfg.readwrite_timeout_secs, Some(120));
}

#[test]
fn normalize_never_fills_system_trash() {
    assert!(config().normalize().system_trash.is_none());
    let mut cfg = config();
    cfg.system_trash = Some(SystemTrashConfig {
        dir_name: Some("Custom".into()),
        macos_uid_dirs: vec![501],
    });
    let cfg = cfg.normalize();
    assert_eq!(cfg.system_trash.unwrap().dir_name.as_deref(), Some("Custom"));
}

#[test]
fn build_trash_state_injects_system_view() {
    let mut cfg = config();
    cfg.prefix = "ossfs/".into();
    cfg.trash_dir = Some(".trash".into());
    cfg.trash_retention_days = Some(TRASH_RETENTION_DAYS);
    cfg.trash_refresh_interval_secs = Some(TRASH_REFRESH_INTERVAL_SECS);
    cfg.trash_gc_interval_secs = Some(TRASH_GC_INTERVAL_SECS);
    let state = build_trash_state(&cfg, false).unwrap().unwrap();
    assert!(state.system.is_none());

    cfg.system_trash = Some(SystemTrashConfig { dir_name: None, macos_uid_dirs: vec![] });
    let state = build_trash_state(&cfg, true).unwrap().unwrap();
    let sys = state.system.as_ref().unwrap();
    assert_eq!(sys.dir_name, ".Trashes");
    assert_eq!(sys.platform, SystemTrashPlatform::MacOsTrashes);
    let state = build_trash_state(&cfg, false).unwrap().unwrap();
    let sys = state.system.as_ref().unwrap();
    assert_eq!(sys.dir_name, "$Recycle.Bin");
    assert_eq!(sys.platform, SystemTrashPlatform::WindowsRecycleBin);

    cfg.system_trash = Some(SystemTrashConfig {
        dir_name: Some("CustomBin".into()),
        macos_uid_dirs: vec![501],
    });
    let state = build_trash_state(&cfg, false).unwrap().unwrap();
    let sys = state.system.as_ref().unwrap();
    assert_eq!(sys.dir_name, "CustomBin");
    assert_eq!(sys.macos_uid_dirs, vec![501]);

    cfg.trash_dir = None;
    assert!(build_trash_state(&cfg, false).unwrap().is_none());
}

#[test]
fn normalize_refresh_defaults() {
    let cfg = config().normalize();
    assert_eq!(cfg.trash_refresh_interval_secs, Some(TRASH_REFRESH_INTERVAL_SECS));
    assert_eq!(cfg.trash_refresh_mode, Some(TrashRefreshMode::Lazy));
    assert!(cfg.trash_dir.is_none());
    assert_eq!(cfg.trash_retention_days, Some(TRASH_RETENTION_DAYS));
    assert_eq!(cfg.trash_gc_interval_secs, Some(TRASH_GC_INTERVAL_SECS));

    let mut cfg = config();
    cfg.trash_refresh_interval_secs = Some(7);
    cfg.trash_refresh_mode = Some(TrashRefreshMode::Eager);
    cfg.trash_retention_days = Some(7);
    cfg.trash_gc_interval_secs = Some(3600);
    let cfg = cfg.normalize();
    assert_eq!(cfg.trash_refresh_interval_secs, Some(7));
    assert_eq!(cfg.trash_refresh_mode, Some(TrashRefreshMode::Eager));
    assert_eq!(cfg.trash_retention_days, Some(7));
    assert_eq!(cfg.trash_gc_interval_secs, Some(3600));
}

#[test]
fn normalizing_twice_is_normalizing_once() {
    let mut cfg = config();
    cfg.prefix = "a/b".into();
    let once = cfg.normalize();
    let twice = once.clone().normalize();
    assert_eq!(format!("{once:?}"), format!("{twice:?}"));
    assert_eq!(once.prefix, "a/b/");
}

#[test]
fn read_cache_hit_and_invalidation() {
    let mut cfg = config();
    cfg.read_ahead_bytes = Some(1024);
    let mut fs = mount(cfg);
    let window: Vec<u8> = (0..1024u32).map(|v| v as u8).collect();
    fs.reader.cache.insert("/a", 0, window, 1);
    assert_eq!(fs.reader.cache.hit("/a", 10, 4, 2), Some(vec![10, 11, 12, 13]));
    assert_eq!(fs.reader.cache.hit("/a", 2048, 4, 2), None);
    fs.invalidate_read_cache("/a");
    assert_eq!(fs.reader.cache.hit("/a", 10, 4, 2), None);
}

#[test]
fn stat_cache_invalidate_removes_entry() {
    let mut fs = test_fs();
    fs.caches.cache_insert("/a.txt", file("a.txt", 5), 1);
    fs.invalidate_stat("/a.txt");
    assert!(!fs.caches.stats.holds("/a.txt"));
    fs.invalidate_stat("/never-cached");
}

#[test]
fn stat_cache_evicts_all_when_over_bound() {
    let mut fs = test_fs();
    for i in 0..4096u64 {
        fs.caches.cache_insert(&format!("/f{i}"), file("f", 1), i);
    }
    assert_eq!(fs.caches.stats.len(), 4096);
    fs.caches.cache_insert("/overflow", file("f", 1), 4096);
    assert_eq!(fs.caches.stats.len(), 4096);
    assert!(!fs.caches.stats.holds("/f0"));
    assert!(fs.caches.stats.holds("/overflow"));
}

#[test]
fn a_mount_takes_its_settings_from_the_configuration() {
    let mut cfg = config();
    cfg.prefix = "data".into();
    cfg.umask = 0o022;
    cfg.uid = 7;
    cfg.multipart_size = Some(1);
    cfg.multipart_concurrency = Some(0);
    cfg.rename_dir_limit = Some(0);
    cfg.disk_cache_prefetch_concurrency = 0;
    cfg.max_upload_bytes = Some(3 * 1024 * 1024);
    cfg.max_dirty_bytes = Some(1);
    cfg.allow_other = true;
    let fs = mount(cfg);
    assert_eq!(fs.prefix, "data/");
    assert_eq!(fs.bucket, "b");
    assert_eq!(
        fs.mount_attr(),
        MountAttr { uid: 7, gid: 0, dir_mode: 0o755, file_mode: 0o644, umask: 0o022 }
    );
    assert_eq!(fs.multipart_part_size, 5 * 1024 * 1024);
    assert_eq!(fs.multipart_concurrency, 1);
    assert_eq!(fs.rename_dir_limit, None);
    assert_eq!(fs.prefetch_concurrency, 4);
    assert_eq!(fs.max_concurrent_requests, MAX_CONCURRENT_S3_REQUESTS);
    assert!(fs.upload_budget.is_limited());
    assert_eq!(fs.dirty_budget().unwrap().max_units(), 1);
    assert!(fs.allow_other());
    assert!(fs.ignore_fsync());
    assert!(!fs.read_only());
    assert_eq!(fs.operation_timeout(), Duration::from_secs(60));
    assert_eq!(fs.metrics(), MetricsSnapshot::default());
    assert_eq!(fs.trash_gc_interval_secs(), None);

    let mut cfg = config();
    cfg.readwrite_timeout_secs = Some(5);
    cfg.trash_dir = Some(".trash".into());
    cfg.trash_gc_interval_secs = Some(60);
    let fs = mount(cfg);
    assert_eq!(fs.operation_timeout(), Duration::from_secs(5));
    assert_eq!(fs.trash_gc_interval_secs(), Some(60));
    assert_eq!(fs.trash.as_ref().unwrap().prefix, ".trash/");
    assert_eq!(MountAttr::default().dir_mode, 0o755);

    let mut cfg = config();
    cfg.readwrite_timeout_secs = Some(0);
    assert_eq!(mount(cfg).operation_timeout(), Duration::from_secs(60));
}

#[test]
fn a_trash_directory_is_one_path_segment() {
    for dir in ["", "a/b", ".", ".."] {
        let mut cfg = config();
        cfg.trash_dir = Some(dir.into());
        match ObjectFs::connect(cfg, 0, false) {
            Ok(_) => panic!("{dir:?} was accepted"),
            Err(e) => assert_eq!(e, FsError::TrashDirInvalid { dir: dir.into() }),
        }
    }
}

#[test]
fn only_a_missing_bucket_fails_the_mount() {
    assert_eq!(bucket_checked("b", BucketReply::Found), Ok(()));
    assert_eq!(bucket_checked("b", BucketReply::Unknown), Ok(()));
    let e = bucket_checked("b", BucketReply::Missing).unwrap_err();
    assert_eq!(e, FsError::BucketMissing { bucket: "b".into() });
    assert_eq!(
        e.message(),
        "bucket `b` does not exist at the configured endpoint/region"
    );
}

#[test]
fn a_disk_cache_needs_a_directory_and_room() {
    let mut cfg = config();
    assert_eq!(disk_cache_settings(&cfg), None);
    cfg.disk_cache_dir = Some(std::path::PathBuf::from("cache"));
    assert_eq!(disk_cache_settings(&cfg), None);
    cfg.disk_cache_max_bytes = 10;
    assert_eq!(disk_cache_settings(&cfg), Some((10, 4 * 1024 * 1024)));
    cfg.disk_cache_block_size = Some(0);
    assert_eq!(disk_cache_settings(&cfg), Some((10, 4 * 1024 * 1024)));
    cfg.disk_cache_block_size = Some(7);
    assert_eq!(disk_cache_settings(&cfg), Some((10, 7)));
}

#[test]
fn read_only_mounts_refuse_every_change_and_count_nothing() {
    let mut cfg = config();
    cfg.read_only = true;
    let mut fs = mount(cfg);
    assert_eq!(fs.ensure_writable(), Err(FsError::ReadOnly));
    assert!(matches!(fs.write("/f", 4), Err(FsError::ReadOnly)));
    assert_eq!(fs.begin_streaming_upload("/f"), Err(FsError::ReadOnly));
    assert_eq!(fs.mkdir("/d", &None), Err(FsError::ReadOnly));
    assert_eq!(fs.delete("/f", false, false), Err(FsError::ReadOnly));
    assert_eq!(fs.delete_dir_recursive(&None), Err(FsError::ReadOnly));
    let (_, next) = fs.rename("/a", "/b", true, None, None);
    assert_eq!(next, RenameNext::Done { result: Err(FsError::ReadOnly) });
    assert_eq!(fs.metrics(), MetricsSnapshot::default());
    assert_eq!(FsError::ReadOnly.message(), "filesystem is mounted read-only");
}

#[test]
fn the_mount_root_is_neither_made_nor_deleted() {
    let mut fs = test_fs();
    for root in ["", "/", "//"] {
        assert_eq!(fs.mkdir(root, &None), Err(FsError::RootExists));
        assert_eq!(fs.delete(root, false, false), Err(FsError::RootDeleted));
    }
    assert_eq!(FsError::RootExists.message(), "directory / already exists");
    assert_eq!(FsError::RootDeleted.message(), "cannot delete the mount root /");
}

#[test]
fn writes_are_counted_and_forget_what_was_known() {
    let mut cfg = config();
    cfg.prefix = "p".into();
    cfg.read_ahead_bytes = Some(16);
    let mut fs = mount(cfg);
    fs.caches.cache_insert("/f", file("f", 1), 1);
    fs.caches.cache_insert("/g", file("g", 1), 1);
    fs.reader.cache.insert("/f", 0, vec![1, 2, 3], 1);
    let plan = match fs.write("/f", 3) {
        Ok(plan) => plan,
        Err(e) => panic!("{}", e.message()),
    };
    assert_eq!(plan.key, "p/f");
    assert_eq!(plan.route, UploadRoute::Single);
    assert!(plan.budget.is_none());
    assert!(matches!(fs.stat("/f", 2), Cached::Unknown));
    assert!(matches!(fs.stat("/g", 2), Cached::Present { .. }));
    assert_eq!(fs.reader.cache.hit("/f", 0, 1, 2), None);
    let m = fs.metrics();
    assert_eq!((m.writes, m.s3_puts, m.upload_bytes_total), (1, 1, 3));
    assert_eq!((m.stat_cache_hits, m.stat_positive_cache_hits), (1, 1));
    match fs.write("/f", 16 * 1024 * 1024 + 1) {
        Ok(plan) => assert_eq!(plan.route, UploadRoute::Multipart),
        Err(e) => panic!("{}", e.message()),
    }
}

#[test]
fn an_upload_larger_than_the_budget_is_refused() {
    let mut cfg = config();
    cfg.max_upload_bytes = Some(2 * 1024 * 1024);
    let mut fs = mount(cfg);
    match fs.write("/f", 2 * 1024 * 1024 + 1) {
        Ok(_) => panic!("accepted"),
        Err(e) => assert_eq!(
            e.message(),
            "write of 2097153 bytes exceeds max-upload-bytes budget (2097152)"
        ),
    }
    assert_eq!(fs.metrics().writes, 1);
    let held = match fs.write("/f", 2 * 1024 * 1024) {
        Ok(plan) => plan,
        Err(e) => panic!("{}", e.message()),
    };
    assert_eq!(held.budget.as_ref().unwrap().num_permits(), 2);
    match fs.write("/g", 1) {
        Ok(_) => panic!("accepted"),
        Err(e) => assert_eq!(e, FsError::UploadBudgetHeld { bytes: 1 }),
    }
    drop(held);
    assert!(fs.write("/g", 1).is_ok());
}

#[test]
fn reads_go_through_the_window() {
    let mut cfg = config();
    cfg.read_ahead_bytes = Some(8);
    let mut fs = mount(cfg);
    assert_eq!(
        fs.read_range("/f", 3, 0, BinRead::Plain, 1),
        RangeNext::Done { result: Ok(vec![]) }
    );
    assert_eq!(
        fs.read_range("/f", 0, 4, BinRead::Plain, 2),
        RangeNext::Fetch { key: "f".into(), len: 4, sequential: false }
    );
    assert_eq!(fs.reader.complete("/f", 0, 4, 4, vec![0, 1, 2, 3], 3), vec![0, 1, 2, 3]);
    assert_eq!(
        fs.read_range("/f", 4, 4, BinRead::Plain, 4),
        RangeNext::Fetch { key: "f".into(), len: 8, sequential: true }
    );
    let fetched: Vec<u8> = (4..12).collect();
    assert_eq!(fs.reader.complete("/f", 4, 4, 8, fetched, 5), vec![4, 5, 6, 7]);
    assert_eq!(
        fs.read_range("/f", 6, 4, BinRead::Plain, 6),
        RangeNext::Done { result: Ok(vec![6, 7, 8, 9]) }
    );
    let m = fs.metrics();
    assert_eq!((m.reads, m.read_cache_hits, m.read_cache_misses), (4, 1, 2));
}

#[test]
fn reads_in_the_recycle_bin() {
    let mut fs = test_fs();
    let info = BinRead::Info { bytes: vec![9, 8, 7] };
    assert_eq!(
        fs.read_range("/x", 1, 10, info, 1),
        RangeNext::Done { result: Ok(vec![8, 7]) }
    );
    assert_eq!(
        fs.read_range("/x", 7, 1, BinRead::Info { bytes: vec![1] }, 1),
        RangeNext::Done { result: Ok(vec![]) }
    );
    assert_eq!(
        fs.read_range("/x", 1, 10, BinRead::NoInfo, 1),
        RangeNext::Done { result: Err(FsError::EntryInfoMissing) }
    );
    assert_eq!(
        fs.read_range("/x", 1, 10, BinRead::Failed { error: FsError::PartialListing }, 1),
        RangeNext::Done { result: Err(FsError::PartialListing) }
    );
    assert_eq!(
        fs.read_range("/x", 1, 10, BinRead::Original { key: "o".into() }, 1),
        RangeNext::Fetch { key: "o".into(), len: 10, sequential: false }
    );
    assert_eq!(fs.metrics().reads, 5);
    assert_eq!(FsError::EntryInfoMissing.message(), "read: $I entry not found");
}

#[test]
fn attributes_are_remembered_for_their_time() {
    let mut fs = test_fs();
    assert!(matches!(fs.stat("/f", 0), Cached::Unknown));
    fs.caches.remember("/f", &Some(file("f", 3)), SECOND);
    match fs.stat("/f", 4 * SECOND - 1) {
        Cached::Present { entry } => assert_eq!(entry, file("f", 3)),
        other => panic!("{other:?}"),
    }
    assert!(matches!(fs.stat("/f", 4 * SECOND), Cached::Unknown));
    fs.caches.remember("/none", &None, SECOND);
    assert!(matches!(fs.stat("/none", 6 * SECOND - 1), Cached::Absent));
    assert!(matches!(fs.stat("/none", 6 * SECOND), Cached::Unknown));
    let m = fs.metrics();
    assert_eq!(
        (m.stat_cache_hits, m.stat_positive_cache_hits, m.stat_negative_cache_hits),
        (2, 1, 1)
    );
}

#[test]
fn hidden_paths_are_absent_without_a_request() {
    let mut fs = test_fs();
    fs.trash = Some(trash_state(".trash/"));
    fs.trash_insert("/a.txt", false);
    let (_, next) = fs.stat_uncached("/a.txt", None);
    assert_eq!(next, LookupNext::Done { result: Ok(None) });
    assert_eq!(fs.metrics().s3_heads, 0);
    let (_, next) = fs.stat_uncached("/b.txt", None);
    assert_eq!(next, LookupNext::Head { key: "b.txt".into() });
    assert_eq!(fs.metrics().s3_stat_heads, 1);
    let (_, next) = fs.stat_uncached("/", None);
    assert!(matches!(next, LookupNext::Done { result: Ok(Some(DirEntry { is_dir: true, .. })) }));
    let (_, next) = fs.stat_uncached("/a.txt", Some(file("made up", 1)));
    assert_eq!(next, LookupNext::Done { result: Ok(Some(file("made up", 1))) });
}

#[test]
fn a_tombstone_drops_what_was_remembered_under_it() {
    let mut fs = test_fs();
    fs.trash_insert("/d", true);
    assert_eq!(fs.metrics().trash_index_entries, 0);
    fs.trash = Some(trash_state(".trash/"));
    for path in ["/d", "/d/x", "/dx"] {
        fs.caches.cache_insert(path, file("f", 1), 1);
        fs.caches.negative_insert(path, 1);
    }
    fs.trash_insert("/d", true);
    assert!(!fs.caches.stats.holds("/d"));
    assert!(!fs.caches.stats.holds("/d/x"));
    assert!(!fs.caches.negative.holds("/d/x"));
    assert!(fs.caches.stats.holds("/dx"));
    assert!(fs.caches.negative.holds("/dx"));
    assert_eq!(fs.metrics().trash_index_entries, 1);
    assert!(fs.hidden_key("d/x"));
    assert!(fs.hidden_key("d"));
}

#[test]
fn tombstones_that_were_read_before_a_cleaning_are_dropped() {
    let mut fs = test_fs();
    assert_eq!(fs.trash_generation(), None);
    assert_eq!(fs.rebuild_trash_index(0, TombstoneIndex::new(), None), 0);
    fs.trash = Some(trash_state(".trash/"));
    let generation = fs.trash_generation().unwrap();
    fs.caches.negative_insert("/a", 1);

    let mut index = TombstoneIndex::new();
    index.insert("a", false);
    fs.trash.as_mut().unwrap().generation += 1;
    assert_eq!(fs.rebuild_trash_index(generation, index, Some("k".into())), 0);
    assert!(!fs.hidden_key("a"));
    assert!(fs.caches.negative.holds("/a"));

    let mut index = TombstoneIndex::new();
    index.insert("a", false);
    index.insert("d", true);
    assert_eq!(fs.rebuild_trash_index(generation + 1, index, Some("k".into())), 2);
    assert!(fs.hidden_key("a"));
    assert!(fs.hidden_key("d/x"));
    assert!(!fs.caches.negative.holds("/a"));
    assert_eq!(fs.trash.as_ref().unwrap().cursor.as_deref(), Some("k"));
}

#[test]
fn trash_failures_are_counted() {
    let mut fs = test_fs();
    fs.trash_bootstrap(true);
    assert_eq!(fs.trash_refresh_once(Err(FsError::PartialListing)), Ok(()));
    assert!(!fs.trash_refresh_start());
    assert!(!fs.trash_enabled());
    assert_eq!(fs.trash_list(), Err(FsError::TrashListDisabled));
    assert_eq!(fs.trash_restore(), Err(FsError::TrashRestoreDisabled));
    assert_eq!(fs.metrics(), MetricsSnapshot::default());

    fs.trash = Some(trash_state(".trash/"));
    fs.trash_bootstrap(false);
    fs.trash_bootstrap(true);
    assert_eq!(
        fs.trash_refresh_once(Err(FsError::PartialListing)),
        Err(FsError::PartialListing)
    );
    assert_eq!(fs.trash_refresh_once(Ok(())), Ok(()));
    assert_eq!(fs.metrics().trash_bootstrap_failures, 1);
    assert_eq!(fs.metrics().trash_refresh_errors, 1);
    assert!(fs.trash_refresh_start());
    assert!(!fs.trash_refresh_start());
    assert_eq!(fs.trash_list(), Ok(()));
    assert_eq!(fs.trash_restore(), Ok(()));
}

#[test]
fn streams_are_started_by_the_store() {
    let mut cfg = config();
    cfg.content_md5 = true;
    let mut fs = mount(cfg);
    let key = fs.begin_streaming_upload("/f").unwrap();
    assert_eq!(key, "f");
    assert_eq!(fs.metrics().writes, 1);
    assert_eq!(fs.metrics().s3_puts, 0);
    let reply = CreateReply::Created { upload_id: Some("id".into()) };
    match fs.streaming_upload_started(key, reply) {
        Ok(upload) => {
            assert_eq!(upload.key(), "f");
            assert_eq!(upload.upload_id, "id");
            assert_eq!(upload.part_size, 8 * 1024 * 1024);
            assert!(upload.content_md5);
        }
        Err(e) => panic!("{}", e.message()),
    }
    let none = fs.streaming_upload_started("f".into(), CreateReply::Created { upload_id: None });
    assert!(matches!(none, Err(FsError::NoUploadId)));
    let refused = CreateReply::Refused { cause: vec!["no".into()] };
    assert!(matches!(
        fs.streaming_upload_started("f".into(), refused),
        Err(FsError::Failed { step: Step::CreateUpload, .. })
    ));
    assert_eq!(fs.metrics().s3_multipart_errors, 1);
}

#[test]
fn directories_are_markers_except_in_the_recycle_bin() {
    let mut fs = test_fs();
    let bin = Some(SystemTrashMatch::Dir { level: 1 });
    assert_eq!(fs.mkdir("/d", &bin), Ok(MkdirPlan::Marker { path: "/d/".into() }));
    fs.trash = Some(trash_state(".trash/"));
    fs.caches.cache_insert("/d", file("d", 1), 1);
    assert_eq!(fs.mkdir("/d", &bin), Ok(MkdirPlan::InBin));
    assert!(fs.caches.stats.holds("/d"));
    assert_eq!(fs.mkdir("/d/", &None), Ok(MkdirPlan::Marker { path: "/d/".into() }));
    assert_eq!(fs.mkdir("/d", &None), Ok(MkdirPlan::Marker { path: "/d/".into() }));
    assert!(!fs.caches.stats.holds("/d"));
}

#[test]
fn deletions_go_to_the_trash_where_there_is_one() {
    let mut fs = test_fs();
    assert_eq!(fs.delete("/f", true, true), Ok(DeletePlan::Hard));
    assert_eq!(fs.delete_dir_recursive(&None), Ok(DeleteDirPlan::Hard));
    fs.trash = Some(trash_state(".trash/"));
    assert_eq!(fs.delete("/f", false, false), Ok(DeletePlan::Soft));
    assert_eq!(fs.delete("/f", true, true), Ok(DeletePlan::Purge));
    assert_eq!(fs.delete("/f", false, true), Ok(DeletePlan::Hard));
    assert_eq!(fs.delete_dir_recursive(&None), Ok(DeleteDirPlan::Soft));
    let level = |level: u32| Some(SystemTrashMatch::Dir { level });
    assert_eq!(fs.delete_dir_recursive(&level(0)), Ok(DeleteDirPlan::PurgeAll));
    assert_eq!(fs.delete_dir_recursive(&level(1)), Ok(DeleteDirPlan::RemoveIfEmpty));
    let entry = Some(SystemTrashMatch::Entry { entry_name: "e".into() });
    assert_eq!(fs.delete_dir_recursive(&entry), Ok(DeleteDirPlan::Purge));
    fs.trash_insert("/x", false);
    assert_eq!(fs.delete_dir_recursive(&level(1)), Ok(DeleteDirPlan::NotEmpty));
}

#[test]
fn deleting_forgets_what_was_known() {
    let mut cfg = config();
    cfg.prefix = "p/".into();
    let mut fs = mount(cfg);
    fs.caches.cache_insert("/d", file("d", 1), 1);
    fs.reader.cache.insert("/other", 0, vec![1], 1);
    let (prefix, deletion, next) = fs.delete_tree("/d");
    assert_eq!(prefix, "p/d/");
    assert_eq!(deletion.marker, "p/d/");
    assert_eq!(fs.delete_tree("/d/").0, "p/d/");
    assert_eq!(fs.delete_tree("/d/").1.marker, "p/d/");
    assert_eq!(fs.delete_tree("/").0, "p/");
    assert_eq!(next, TreeNext::List { token: None });
    assert!(!fs.caches.stats.holds("/d"));
    assert_eq!(fs.reader.cache.hit("/other", 0, 1, 2), None);
    fs.caches.negative_insert("/f", 1);
    assert_eq!(fs.delete_object("/f"), "p/f");
    assert!(!fs.caches.negative.holds("/f"));
}

#[test]
fn renames_forget_both_paths() {
    let mut fs = test_fs();
    fs.caches.cache_insert("/a", file("a", 1), 1);
    fs.caches.negative_insert("/b", 1);
    let (rename, next) = fs.rename("/a", "/b", false, None, None);
    assert_eq!(next, RenameNext::StatTarget);
    assert_eq!(rename.old_key, "a");
    assert_eq!(rename.new_key, "b");
    assert!(!fs.caches.stats.holds("/a"));
    assert!(!fs.caches.negative.holds("/b"));
}

#[test]
fn a_listing_is_counted_once() {
    let mut fs = test_fs();
    let listing = fs.list("/docs");
    assert_eq!(listing.list_prefix, "docs/");
    assert_eq!(test_fs().list("/docs/").list_prefix, "docs/");
    assert!(!listing.skip_foreign_markers);
    assert_eq!(fs.metrics().s3_lists, 1);
}

#[test]
fn only_covered_paths_have_tombstones_to_lift() {
    let mut fs = test_fs();
    assert_eq!(fs.covered_key("/a"), None);
    fs.trash = Some(trash_state(".trash/"));
    fs.trash_insert("/a", false);
    fs.trash_insert("/d", true);
    assert_eq!(fs.covered_key("/a").as_deref(), Some("a"));
    assert_eq!(fs.covered_key("/d/").as_deref(), Some("d/"));
    assert_eq!(fs.covered_key("/d/x").as_deref(), Some("d/x"));
    assert_eq!(fs.covered_key("/b"), None);
    assert_eq!(fs.covered_key("/.trash/x"), None);
}

#[test]
fn handles_on_a_budget_share_its_units() {
    let mut cfg = config();
    cfg.max_dirty_bytes = Some(1);
    let fs = mount(cfg);
    let (one, other) = (fs.dirty_budget().unwrap(), fs.dirty_budget().unwrap());
    let held = one.try_acquire_units(1);
    assert!(held.is_some());
    assert!(other.try_acquire_units(1).is_none());
    drop(held);
    assert!(other.try_acquire_units(1).is_some());
}
