use ossfs::budget::UploadBudget;
use ossfs::crc64::crc64ecma;
use ossfs::error::{FsError, Step};
use ossfs::hashes::content_md5;
use ossfs::metrics::Metrics;
use ossfs::multipart::{
    check_crc64_response, completion_verified, head_reports_size, reported_crc64, sort_parts,
    upload_completed, upload_started, CompleteReply, Completion, CreateReply, Joined,
    MultipartWrite, PartOutcome, UploadedPart, Verdict,
};
use ossfs::streaming::{StreamingUpload, MAX_MULTIPART_PARTS};
use ossfs::writing::{put_checks, put_done, upload_route, PutReply, UploadRoute};

fn part(number: i32) -> UploadedPart {
    UploadedPart { number, etag: format!("e{number}") }
}

fn sent(number: i32) -> PartOutcome {
    PartOutcome::Sent { number, etag: format!("e{number}") }
}

fn data(n: usize) -> Vec<u8> {
    (0..n).map(|i| (i * 7 % 251) as u8).collect()
}

#[test]
fn multipart_writes_cover_the_object() {
    let bytes = data(25);
    let mut write = MultipartWrite::new(25, 10, true);
    let mut chunks = Vec::new();
    let mut numbers = Vec::new();
    while let Some((range, chunk)) = write.take_chunk(&bytes) {
        assert_eq!(range.end - range.start, chunk.len() as u64);
        numbers.push(range.number);
        chunks.extend(chunk);
    }
    assert_eq!(numbers, vec![1, 2, 3]);
    assert_eq!(chunks, bytes);
    for number in [3, 1, 2] {
        write.part_done(sent(number));
    }
    assert_eq!(
        write.join(),
        Joined::Complete {
            parts: vec![part(1), part(2), part(3)],
            expected_crc: Some(crc64ecma(&bytes))
        }
    );
}

#[test]
fn files_are_hashed_as_they_are_read() {
    let bytes = data(12);
    let mut write = MultipartWrite::new(12, 5, true);
    while let Some(range) = write.next_part() {
        write.read(&bytes[range.start as usize..range.end as usize]);
    }
    match write.join() {
        Joined::Complete { expected_crc, .. } => assert_eq!(expected_crc, Some(crc64ecma(&bytes))),
        other => panic!("{other:?}"),
    }
    let mut plain = MultipartWrite::new(12, 5, false);
    plain.read(&bytes);
    assert!(matches!(plain.join(), Joined::Complete { expected_crc: None, .. }));
}

#[test]
fn one_failed_part_aborts_the_upload() {
    let mut write = MultipartWrite::new(20, 10, false);
    write.part_done(sent(1));
    let error = FsError::Failed { step: Step::UploadPart, cause: vec!["no".into()] };
    write.part_done(PartOutcome::Failed { error });
    assert_eq!(
        write.join(),
        Joined::Abort {
            error: FsError::Failed { step: Step::UploadPart, cause: vec!["no".into()] }
        }
    );
    let mut write = MultipartWrite::new(20, 10, false);
    write.part_done(PartOutcome::Lost { detail: "gone".into() });
    match write.join() {
        Joined::Abort { error } => {
            assert_eq!(error.message(), "multipart upload task panicked: gone");
        }
        other => panic!("{other:?}"),
    }
}

#[test]
fn parts_are_sorted_by_number() {
    assert_eq!(sort_parts(vec![]), vec![]);
    assert_eq!(
        sort_parts(vec![part(2), part(10), part(1)]),
        vec![part(1), part(2), part(10)]
    );
}

#[test]
fn an_upload_needs_an_id() {
    let mut m = Metrics::default();
    let created = CreateReply::Created { upload_id: Some("id".into()) };
    assert_eq!(upload_started(created, &mut m), Ok("id".into()));
    assert_eq!(m, Metrics::default());
    let created = CreateReply::Created { upload_id: None };
    let e = upload_started(created, &mut m).unwrap_err();
    assert_eq!(e, FsError::NoUploadId);
    assert_eq!(e.message(), "s3 create multipart upload returned no upload id");
    let refused = CreateReply::Refused { cause: vec!["x".into()] };
    let e = upload_started(refused, &mut m).unwrap_err();
    assert_eq!(e, FsError::Failed { step: Step::CreateUpload, cause: vec!["x".into()] });
    assert_eq!((m.s3_errors, m.s3_multipart_errors), (1, 1));
}

#[test]
fn a_refused_completion_is_verified() {
    let mut m = Metrics::default();
    let refused = CompleteReply::Refused { cause: vec!["NoSuchUpload".into()] };
    let cause = match upload_completed(Some(1), refused, &mut m) {
        Completion::Verify { cause } => cause,
        other => panic!("{other:?}"),
    };
    assert_eq!(completion_verified(cause.clone(), Some(true)), Verdict::Finished);
    for unknown in [Some(false), None] {
        assert_eq!(
            completion_verified(cause.clone(), unknown),
            Verdict::Abort {
                error: FsError::Failed { step: Step::CompleteUpload, cause: cause.clone() }
            }
        );
    }
    assert_eq!(head_reports_size(Some(5), 5, &mut m), Some(true));
    assert_eq!(head_reports_size(Some(6), 5, &mut m), Some(false));
    assert_eq!(head_reports_size(None, 5, &mut m), None);
    assert_eq!(m.s3_heads, 3);
}

#[test]
fn checksums_are_compared() {
    let mut m = Metrics::default();
    assert_eq!(reported_crc64(Some("42")), Some(42));
    assert_eq!(reported_crc64(Some("18446744073709551615")), Some(u64::MAX));
    assert_eq!(reported_crc64(Some("18446744073709551616")), None);
    assert_eq!(reported_crc64(Some("x")), None);
    assert_eq!(reported_crc64(None), None);
    assert_eq!(check_crc64_response(Some(7), 7, &mut m), Ok(()));
    assert_eq!(m.crc64_mismatches, 0);
    let e = check_crc64_response(Some(8), 7, &mut m).unwrap_err();
    assert_eq!(e.message(), "crc64 mismatch: expected 7, got 8 from x-oss-hash-crc64ecma");
    assert_eq!(m.crc64_mismatches, 1);
    let e = check_crc64_response(None, 7, &mut m).unwrap_err();
    assert_eq!(e.message(), "x-oss-hash-crc64ecma header missing from upload response");
    assert_eq!(m.crc64_mismatches, 1);
    let done = CompleteReply::Completed { crc: Some(7) };
    assert_eq!(
        upload_completed(Some(7), done, &mut m),
        Completion::Finished { result: Ok(()) }
    );
    let done = CompleteReply::Completed { crc: None };
    assert_eq!(upload_completed(None, done, &mut m), Completion::Finished { result: Ok(()) });
}

#[test]
fn small_objects_go_in_one_request() {
    assert_eq!(upload_route(16 * 1024 * 1024), UploadRoute::Single);
    assert_eq!(upload_route(16 * 1024 * 1024 + 1), UploadRoute::Multipart);
    let mut m = Metrics::default();
    let (crc, md5) = put_checks(b"hello", true, true);
    assert_eq!(crc, Some(crc64ecma(b"hello")));
    assert_eq!(md5.as_deref(), Some("XUFAKrxLKna5cZ2REBfFkg=="));
    assert_eq!(put_checks(b"hello", false, false), (None, None));
    assert_eq!(put_done(crc, PutReply::Stored { crc }, &mut m), Ok(()));
    assert_eq!(
        put_done(crc, PutReply::Stored { crc: None }, &mut m),
        Err(FsError::CrcMissing)
    );
    assert_eq!(put_done(None, PutReply::Stored { crc: None }, &mut m), Ok(()));
    assert_eq!(m, Metrics::default());
    assert_eq!(
        put_done(None, PutReply::Refused { cause: vec!["no".into()] }, &mut m),
        Err(FsError::Failed { step: Step::Put, cause: vec!["no".into()] })
    );
    assert_eq!((m.s3_errors, m.s3_put_errors), (1, 1));
}

#[test]
fn digests_are_base64_md5() {
    assert_eq!(content_md5(b""), "1B2M2Y8AsgTpgAmY7PhCfg==");
    assert_eq!(content_md5(b"hello"), "XUFAKrxLKna5cZ2REBfFkg==");
}

fn stream(part_size: usize, verify: bool, md5: bool) -> StreamingUpload {
    StreamingUpload::begin("k".into(), "id".into(), part_size, verify, md5)
}

#[test]
fn streams_are_cut_into_parts() {
    let unlimited = UploadBudget::new(None);
    let mut up = stream(4, true, true);
    let bytes = data(11);
    let mut sent_bytes = Vec::new();
    let mut numbers = Vec::new();
    for piece in bytes.chunks(3) {
        for part in up.write(piece, &unlimited).unwrap() {
            assert_eq!(part.chunk.len(), 4);
            assert_eq!(part.md5, Some(content_md5(&part.chunk)));
            numbers.push(part.number);
            sent_bytes.extend(part.chunk);
        }
    }
    let last = up.flush().unwrap();
    numbers.push(last.number);
    sent_bytes.extend(last.chunk);
    assert!(up.flush().is_none());
    assert_eq!(numbers, vec![1, 2, 3]);
    assert_eq!(sent_bytes, bytes);
    for number in [2, 3, 1] {
        up.part_done(sent(number));
    }
    let crc = Some(crc64ecma(&bytes));
    match up.join() {
        Joined::Complete { parts, expected_crc } => {
            assert_eq!(parts, vec![part(1), part(2), part(3)]);
            assert_eq!(expected_crc, crc);
        }
        other => panic!("{other:?}"),
    }
    let mut m = Metrics::default();
    assert_eq!(
        up.completed(crc, CompleteReply::Completed { crc }, &mut m),
        Completion::Finished { result: Ok(()) }
    );
    assert_eq!((m.s3_puts, m.upload_bytes_total), (1, 11));
    assert!(!up.abandon());
}

#[test]
fn a_wrong_checksum_leaves_nothing_to_abort() {
    let mut up = stream(4, true, false);
    let mut m = Metrics::default();
    let done = CompleteReply::Completed { crc: Some(1) };
    assert_eq!(
        up.completed(Some(2), done, &mut m),
        Completion::Finished { result: Err(FsError::CrcMismatch { expected: 2, actual: 1 }) }
    );
    assert_eq!((m.s3_puts, m.crc64_mismatches), (0, 1));
    assert!(!up.abandon());
}

#[test]
fn a_stream_survives_a_lost_answer() {
    let unlimited = UploadBudget::new(None);
    let mut up = stream(4, false, false);
    up.write(&[1, 2], &unlimited).unwrap();
    let mut m = Metrics::default();
    let refused = CompleteReply::Refused { cause: vec!["NoSuchUpload".into()] };
    match up.completed(None, refused, &mut m) {
        Completion::Verify { cause } => {
            assert_eq!(up.verified(cause, Some(true), &mut m), Verdict::Finished);
        }
        other => panic!("{other:?}"),
    }
    assert_eq!((m.s3_puts, m.upload_bytes_total), (1, 2));
    assert!(!up.abandon());

    let mut up = stream(4, false, false);
    assert!(matches!(up.verified(vec![], None, &mut m), Verdict::Abort { .. }));
    assert!(!up.abandon());
}

#[test]
fn a_dropped_stream_is_aborted_once() {
    let mut up = stream(4, false, false);
    assert!(up.abandon());
    assert!(!up.abandon());
    let mut up = stream(4, false, false);
    up.part_done(PartOutcome::Lost { detail: "x".into() });
    match up.join() {
        Joined::Abort { error } => assert_eq!(error.message(), "multipart task panicked: x"),
        other => panic!("{other:?}"),
    }
    assert!(!up.abandon());
}

#[test]
fn a_stream_takes_its_share_of_the_budget() {
    let budget = UploadBudget::new(Some(2 * 1024 * 1024));
    let mut up = stream(8 * 1024 * 1024, false, false);
    let mib = vec![0u8; 1024 * 1024];
    assert_eq!(up.units_needed(1, true), 1);
    assert_eq!(up.units_needed(1, false), 0);
    let held = |up: &StreamingUpload| -> Vec<usize> {
        up.budget_permits.iter().map(|p| p.num_permits()).collect()
    };
    assert!(up.write(&mib, &budget).is_ok());
    assert_eq!((up.budget_units, held(&up)), (1, vec![1]));
    assert!(up.write(&[0], &budget).is_ok());
    assert_eq!((up.budget_units, held(&up)), (2, vec![1, 1]));
    assert!(up.write(&mib[1..], &budget).is_ok());
    assert_eq!((up.budget_units, held(&up)), (2, vec![1, 1]));
    let e = up.write(&[0], &budget).unwrap_err();
    assert_eq!(e, FsError::StreamBudgetHeld { bytes: 2 * 1024 * 1024 + 1 });
    assert_eq!(up.total_bytes, 2 * 1024 * 1024);
    assert_eq!(held(&up), vec![1, 1]);
    assert!(up.flush().is_some());
    assert!(matches!(up.join(), Joined::Complete { .. }));
    assert_eq!(held(&up), vec![1, 1]);
    assert!(matches!(
        budget.acquire_upload_budget(1),
        Err(FsError::UploadBudgetHeld { bytes: 1 })
    ));
    drop(up);
    assert!(budget.acquire_upload_budget(1).is_ok());
}

#[test]
fn refused_writes_leave_no_trace_in_a_stream() {
    let mib = 1024 * 1024;
    let budget = UploadBudget::new(Some(2 * mib));
    let bytes = data(2 * mib);
    let mut up = stream(mib - 1, true, false);
    let mut out = Vec::new();
    let (first, second) = bytes.split_at(mib / 2);
    out.extend(up.write(first, &budget).unwrap());
    assert!(up.write(&data(2 * mib), &budget).is_err());
    out.extend(up.write(second, &budget).unwrap());
    assert!(up.write(&[1], &budget).is_err());
    out.extend(up.flush());
    let numbers: Vec<i32> = out.iter().map(|p| p.number).collect();
    assert_eq!(numbers, vec![1, 2, 3]);
    for number in [3, 1, 2] {
        up.part_done(sent(number));
    }
    let sent_bytes: Vec<u8> = out.into_iter().flat_map(|p| p.chunk).collect();
    assert_eq!(sent_bytes, bytes);
    match up.join() {
        Joined::Complete { parts, expected_crc } => {
            assert_eq!(parts, vec![part(1), part(2), part(3)]);
            assert_eq!(expected_crc, Some(crc64ecma(&bytes)));
        }
        other => panic!("{other:?}"),
    }
}

#[test]
fn a_stream_has_no_more_parts_than_an_upload_may_have() {
    let unlimited = UploadBudget::new(None);
    let mut up = stream(1, false, false);
    let parts = up.write(&vec![0u8; MAX_MULTIPART_PARTS as usize], &unlimited).unwrap();
    assert_eq!(parts.last().unwrap().number, 10_000);
    let e = up.write(&[0], &unlimited).unwrap_err();
    assert_eq!(e, FsError::StreamTooLong { max_bytes: 10_000, part_size: 1 });
}
