use ossfs::error::{is_retryable_error, FsError, Step};

#[test]
fn is_retryable_error_classifies() {
    for msg in [
        "request timed out after 60s",
        "connect timed out",
        "failed to connect to endpoint",
        "network is unreachable",
        "connection reset by peer",
        "broken pipe",
        "server returned 500 Internal Server Error",
        "status 503 Service Unavailable",
        "slow down (throttling)",
        "too many requests (429)",
    ] {
        let e = anyhow::Error::msg(msg);
        assert!(is_retryable_error(&e), "should be retryable: {msg}");
    }
    for msg in [
        "AccessDenied (403)",
        "NoSuchKey (404)",
        "SignatureDoesNotMatch",
        "InvalidAccessKeyId",
        "target already exists",
        "cannot delete the mount root /",
    ] {
        let e = anyhow::Error::msg(msg);
        assert!(!is_retryable_error(&e), "should NOT be retryable: {msg}");
    }
    let nested = anyhow::Error::msg("upload failed").context("request timed out");
    assert!(is_retryable_error(&nested));
}

#[test]
fn a_cause_deep_in_the_chain_counts() {
    let e = anyhow::Error::msg("Connection RESET by peer").context("s3 put");
    assert!(is_retryable_error(&e));
    let e = anyhow::Error::msg("nothing of the kind").context("s3 put");
    assert!(!is_retryable_error(&e));
    // The blank that joins two messages can make a marker.
    let e = anyhow::Error::msg("502 from the proxy").context("s3 put");
    assert!(is_retryable_error(&e));
}

#[test]
fn server_errors_are_three_digits() {
    for msg in ["status 500", "HTTP 502: bad gateway", "got 599"] {
        assert!(is_retryable_error(&anyhow::Error::msg(msg)), "{msg}");
    }
    for msg in ["5 of 6", "try 50", "part size 5242880", "port:500", "status 499", "x500", " 5x0"] {
        assert!(!is_retryable_error(&anyhow::Error::msg(msg)), "{msg}");
    }
}

#[test]
fn what_the_mount_refuses_is_final() {
    let refusals = [
        FsError::DirRenameLimit { limit: 5, count: 6 },
        FsError::DirRenameLimit { limit: 500, count: 501 },
        FsError::DirtyTooLarge { bytes: 500 },
        FsError::UploadTooLarge { bytes: 512, limit: 500 },
        FsError::UploadBudgetHeld { bytes: 512 },
        FsError::StreamBudgetHeld { bytes: 512 },
        FsError::StreamTooLong { max_bytes: 5_000_000, part_size: 500 },
        FsError::RenameSourceMissing { path: "/network 500 timeout".into() },
        FsError::TrashDirInvalid { dir: "connect/x".into() },
        FsError::BucketMissing { bucket: "my-network".into() },
        FsError::ReadOnly,
        FsError::RootExists,
        FsError::RootDeleted,
        FsError::NotEmpty,
        FsError::IntoOwnSubtree,
        FsError::RecycleDirRename,
        FsError::RenameSourceInTrash,
        FsError::RenameTargetExists,
        FsError::DirRenameDisabled,
    ];
    for e in refusals {
        let text = e.message();
        assert!(!is_retryable_error(&anyhow::Error::msg(text.clone())), "{text}");
        let wrapped = anyhow::Error::msg(text.clone()).context("rename /a to /b");
        assert!(!is_retryable_error(&wrapped), "{text}");
    }
}

#[test]
fn a_refusal_is_a_whole_message() {
    for msg in [
        "request timed out: rename: source not found: x",
        "connection reset: bucket `b` does not exist at the configured endpoint/region",
        "directory exceeds rename-dir-limit 500 (501 entries so far), status 503",
        "directory exceeds rename-dir-limit many (timeout entries so far)",
        "write of timeout bytes exceeds max-upload-bytes budget",
        "broken pipe: 5 bytes exceeds max-dirty-bytes budget",
        "trash-dir must be a single path segment: timed out",
    ] {
        assert!(is_retryable_error(&anyhow::Error::msg(msg)), "{msg}");
    }
    let refusal = || anyhow::Error::msg("rename: source not found: /timeout 500");
    assert!(!is_retryable_error(&refusal()));
    assert!(!is_retryable_error(&refusal().context("move")));
    assert!(is_retryable_error(&refusal().context("request timed out")));
}

#[test]
fn messages_name_the_numbers() {
    let e = FsError::CrcMismatch { expected: 7, actual: 10 };
    assert_eq!(
        e.message(),
        "crc64 mismatch: expected 7, got 10 from x-oss-hash-crc64ecma"
    );
    let e = FsError::Failed { step: Step::Get, cause: vec!["dispatch failure".to_string()] };
    assert_eq!(e.message(), "s3 get");
    let e = FsError::BatchDeleteFailed {
        failed: 2,
        total: 1000,
        sample: vec!["a".to_string(), "b\"c".to_string()],
    };
    assert_eq!(
        e.message(),
        "s3 batch delete failed for 2 of 1000 keys (e.g. [\"a\", \"b\\\"c\"])"
    );
}

#[test]
fn messages_say_what_went_wrong() {
    let says = |e: FsError, text: &str| assert_eq!(e.message(), text);
    says(FsError::LimiterClosed, "s3 request limiter closed");
    says(FsError::UploadSlotsClosed, "multipart upload concurrency closed");
    says(FsError::StreamSlotsClosed, "multipart concurrency closed");
    says(FsError::NotEmpty, "directory not empty");
    says(
        FsError::StreamTooLong { max_bytes: 10_000, part_size: 1 },
        "streaming write exceeds S3 multipart limit of 10000 parts (10000 bytes at part size 1)",
    );
    says(
        FsError::StreamBudgetHeld { bytes: 5 },
        "write of 5 bytes exceeds max-upload-bytes budget",
    );
    says(
        FsError::UploadBudgetHeld { bytes: 5 },
        "write of 5 bytes exceeds max-upload-bytes budget: in-flight streaming uploads hold all \
         of it",
    );
    says(
        FsError::TrashDirInvalid { dir: "a/b".into() },
        "trash-dir must be a single path segment (no '/', '.' or '..'): got `a/b`",
    );
    says(
        FsError::TrashListDisabled,
        "trash is disabled (--no-trash); no trash to list",
    );
    says(
        FsError::TrashRestoreDisabled,
        "trash is disabled (--no-trash); nothing to restore",
    );
    says(FsError::Outside { messages: vec!["outer".into(), "inner".into()] }, "outer");
    says(FsError::Outside { messages: vec![] }, "");
}

#[test]
fn steps_have_their_words() {
    for (step, words) in [
        (Step::Put, "s3 put"),
        (Step::GetBody, "s3 get body"),
        (Step::List, "s3 list"),
        (Step::ListForDelete, "s3 list for delete"),
        (Step::ListForRename, "s3 list for rename"),
        (Step::ListForCount, "s3 list for rename count"),
        (Step::BatchDelete, "s3 batch delete"),
        (Step::Delete, "s3 delete"),
        (Step::Head, "s3 head"),
        (Step::HeadMarker, "s3 head marker"),
        (Step::Probe, "s3 probe children"),
        (Step::CreateUpload, "s3 create multipart upload"),
        (Step::UploadPart, "s3 upload part"),
        (Step::CompleteUpload, "s3 complete multipart upload"),
        (Step::AbortUpload, "s3 abort multipart upload"),
        (Step::CreateCopy, "s3 create multipart copy"),
        (Step::CopyPart, "s3 copy part"),
        (Step::CompleteCopy, "s3 complete multipart copy"),
        (Step::Copy, "s3 copy"),
        (Step::CopyMarker, "s3 copy marker"),
        (Step::StatSpool, "stat spool file"),
        (Step::ReadSpool, "read spool file"),
        (Step::OpenSpool, "open spool file"),
        (Step::ReadSpoolChunk, "read spool file chunk"),
        (Step::CreateCacheDir, "create disk cache dir"),
        (Step::WriteBlock, "write disk cache block"),
        (Step::CommitBlock, "commit disk cache block"),
    ] {
        assert_eq!(step.words(), words);
        assert_eq!(FsError::Failed { step, cause: vec![] }.message(), words);
    }
}
