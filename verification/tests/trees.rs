use ossfs::copying::{
    copy_completed, copy_started, CopyNext, CopyReply, CopyStart, MultipartCopy, MIN_PART_SIZE,
    MULTIPART_COPY_THRESHOLD,
};
use ossfs::deletion::{
    batch_deleted, batches, bin_dir_removed, is_checksum_header, marker_key, object_deleted,
    BatchReply, TreeDeletion, TreeNext, TreePage,
};
use ossfs::error::{FsError, Step};
use ossfs::metrics::Metrics;
use ossfs::rename::{within_bin, Rename, RenameEvent, RenameNext};
use ossfs::trash::SystemTrashMatch;
use ossfs::tree_copy::{
    count_page, CopyPage, CountNext, MarkerReply, TreeCopy, TreeCopyNext, TreeObject,
};

fn rename(old: &str, new: &str, replace: bool, limit: Option<u64>) -> (Rename, RenameNext) {
    Rename::start("b", "p/", old, new, replace, false, true, limit, &None, None, None)
}

fn refused(e: FsError) -> RenameNext {
    RenameNext::Done { result: Err(e) }
}

#[test]
fn a_file_is_copied_before_it_is_deleted() {
    let (mut r, next) = rename("/a b", "/c", false, None);
    assert_eq!(next, RenameNext::StatTarget);
    assert_eq!(r.step(RenameEvent::Target { exists: false }), RenameNext::StatSource);
    assert_eq!(
        r.step(RenameEvent::Source { is_dir: false, size: 3 }),
        RenameNext::CopyObject { source: "/b/p/a%20b".into(), key: "p/c".into() }
    );
    assert_eq!(r.step(RenameEvent::Copied), RenameNext::DeleteObject);
    assert_eq!(r.step(RenameEvent::Deleted), RenameNext::Done { result: Ok(()) });
}

#[test]
fn a_failed_copy_deletes_nothing() {
    let (mut r, next) = rename("/a", "/c", true, None);
    assert_eq!(next, RenameNext::StatSource);
    r.step(RenameEvent::Source { is_dir: false, size: 3 });
    let error = FsError::Failed { step: Step::Copy, cause: vec!["no".into()] };
    assert_eq!(
        r.step(RenameEvent::Failed { error }),
        refused(FsError::Failed { step: Step::Copy, cause: vec!["no".into()] })
    );
}

#[test]
fn large_files_are_copied_in_parts() {
    let (mut r, _) = rename("/a", "/c", true, None);
    assert_eq!(
        r.step(RenameEvent::Source { is_dir: false, size: MULTIPART_COPY_THRESHOLD }),
        RenameNext::CopyInParts { size: MULTIPART_COPY_THRESHOLD }
    );
}

#[test]
fn renames_that_make_no_sense_are_refused() {
    assert_eq!(rename("/a", "/a", false, None).1, RenameNext::Done { result: Ok(()) });
    assert_eq!(rename("/a", "/a/b", true, None).1, refused(FsError::IntoOwnSubtree));
    assert_eq!(rename("/a/b", "/a", true, None).1, refused(FsError::IntoOwnSubtree));
    assert_eq!(rename("/a/", "/a/b", true, None).1, refused(FsError::IntoOwnSubtree));
    assert_eq!(rename("//a", "/a/b", true, None).1, refused(FsError::IntoOwnSubtree));
    assert_eq!(rename("/a/b", "/a/", true, None).1, refused(FsError::IntoOwnSubtree));
    assert_eq!(rename("/", "/a", true, None).1, refused(FsError::IntoOwnSubtree));
    assert_eq!(rename("/a", "/", true, None).1, refused(FsError::IntoOwnSubtree));
    assert_eq!(rename("/a", "//a", true, None).1, RenameNext::Done { result: Ok(()) });
    assert_eq!(rename("/a", "/ab", true, None).1, RenameNext::StatSource);
    let (mut r, _) = rename("/a", "/c", false, None);
    assert_eq!(
        r.step(RenameEvent::Target { exists: true }),
        refused(FsError::RenameTargetExists)
    );
    assert_eq!(
        FsError::IntoOwnSubtree.message(),
        "rename: cannot move a path into its own subtree"
    );
    assert_eq!(FsError::RenameTargetExists.message(), "rename: target already exists");
}

#[test]
fn directory_renames_have_a_limit() {
    let (mut r, _) = rename("/d", "/e", true, Some(2));
    assert_eq!(
        r.step(RenameEvent::Source { is_dir: true, size: 0 }),
        RenameNext::CountTree { prefix: "p/d/".into(), limit: 2 }
    );
    assert_eq!(r.step(RenameEvent::Counted { count: 2 }), RenameNext::CopyTree);
    assert_eq!(r.step(RenameEvent::Copied), RenameNext::DeleteTree);

    let (mut r, _) = rename("/d", "/e", true, Some(0));
    r.step(RenameEvent::Source { is_dir: true, size: 0 });
    assert_eq!(
        r.step(RenameEvent::Counted { count: 1 }),
        refused(FsError::DirRenameLimit { limit: 0, count: 1 })
    );

    let (mut r, _) = Rename::start(
        "b", "", "/d", "/e", true, false, false, None, &None, None, None,
    );
    assert_eq!(
        r.step(RenameEvent::Source { is_dir: true, size: 0 }),
        refused(FsError::DirRenameDisabled)
    );
    assert_eq!(FsError::DirRenameDisabled.message(), "directory rename is disabled");
}

#[test]
fn counting_stops_above_the_limit() {
    assert_eq!(
        count_page(2, 3, 5, Some(true), Some("t".into())),
        Ok(CountNext::List { token: "t".into(), count: 5 })
    );
    assert_eq!(count_page(2, 3, 5, None, None), Ok(CountNext::Done { count: 5 }));
    assert_eq!(count_page(2, 3, 5, Some(true), None), Err(FsError::PartialListing));
    let e = count_page(2, 4, 5, Some(true), Some("t".into())).unwrap_err();
    assert_eq!(e.message(), "directory exceeds rename-dir-limit 5 (6 entries so far)");
}

#[test]
fn renames_within_the_bin_need_their_entry() {
    assert_eq!(within_bin(true, "/x"), Ok(()));
    let e = within_bin(false, "/x").unwrap_err();
    assert_eq!(e.message(), "rename: source not found: /x");
    assert_eq!(
        FsError::RecycleDirRename.message(),
        "rename: cannot move the system recycle bin directory"
    );
    assert_eq!(
        FsError::RenameSourceInTrash.message(),
        "rename: source path is in the trash"
    );
    let entry = Some(SystemTrashMatch::Entry { entry_name: "e".into() });
    let (_, next) =
        Rename::start("b", "", "/d", "/e", true, false, false, None, &None, entry, None);
    assert_eq!(next, RenameNext::StatSource);
}

fn object(key: &str, size: i64) -> TreeObject {
    TreeObject { key: Some(key.into()), size: Some(size) }
}

#[test]
fn a_tree_is_copied_page_by_page() {
    let (mut copy, next) = TreeCopy::start("b", "p/old", "p/new");
    assert_eq!(next, TreeCopyNext::List { token: None });
    let big = MULTIPART_COPY_THRESHOLD as i64;
    let page = CopyPage::Objects {
        objects: vec![
            object("p/old/a", 1),
            TreeObject { key: None, size: None },
            object("p/old/sub/b", big),
        ],
        truncated: Some(true),
        token: Some("t".into()),
    };
    assert_eq!(
        copy.listed(page),
        TreeCopyNext::Copy { source: "/b/p/old/a".into(), to: "p/new/a".into() }
    );
    assert_eq!(
        copy.copied(None),
        TreeCopyNext::CopyInParts {
            from: "p/old/sub/b".into(),
            to: "p/new/sub/b".into(),
            size: big as u64
        }
    );
    assert_eq!(copy.copied(None), TreeCopyNext::List { token: Some("t".into()) });
    let page = CopyPage::Objects { objects: vec![], truncated: None, token: None };
    assert_eq!(
        copy.listed(page),
        TreeCopyNext::CopyMarker { source: "/b/p/old/".into(), to: "p/new/".into() }
    );
    assert_eq!(TreeCopy::marker_copied(MarkerReply::Copied), Ok(()));
    assert_eq!(TreeCopy::marker_copied(MarkerReply::Missing), Ok(()));
    assert_eq!(
        TreeCopy::marker_copied(MarkerReply::Refused { cause: vec![] }),
        Err(FsError::Failed { step: Step::CopyMarker, cause: vec![] })
    );
}

#[test]
fn a_directory_without_a_marker_is_copied() {
    let (mut copy, _) = TreeCopy::start("b", "d", "e");
    let objects = vec![TreeObject { key: Some("d/x".into()), size: Some(1) }];
    let page = CopyPage::Objects { objects, truncated: Some(false), token: None };
    assert_eq!(
        copy.listed(page),
        TreeCopyNext::Copy { source: "/b/d/x".into(), to: "e/x".into() }
    );
    assert_eq!(
        copy.copied(None),
        TreeCopyNext::CopyMarker { source: "/b/d/".into(), to: "e/".into() }
    );
    assert_eq!(TreeCopy::marker_copied(MarkerReply::Missing), Ok(()));
}

#[test]
fn a_tree_copy_fails_with_its_step() {
    let done = |e: FsError| TreeCopyNext::Done { result: Err(e) };
    let (mut copy, _) = TreeCopy::start("b", "old", "new");
    assert_eq!(
        copy.listed(CopyPage::Failed { cause: vec![] }),
        done(FsError::Failed { step: Step::ListForRename, cause: vec![] })
    );
    assert_eq!(copy.copied(Some(FsError::NoCopyId)), done(FsError::NoCopyId));
    let page = CopyPage::Objects { objects: vec![], truncated: Some(true), token: None };
    assert_eq!(copy.listed(page), done(FsError::PartialListing));
}

#[test]
fn a_large_object_is_copied_in_ranges() {
    let size = 2 * MIN_PART_SIZE + 1;
    let mut copy = MultipartCopy::new(size, 1);
    let mut ranges = Vec::new();
    let parts = loop {
        let (number, range) = copy.request();
        ranges.push(range);
        match copy.part_copied(CopyReply::Copied { etag: format!("e{number}") }) {
            CopyNext::Continue => {}
            CopyNext::Complete { parts } => break parts,
            CopyNext::Abort { error } => panic!("{}", error.message()),
        }
    };
    assert_eq!(
        ranges,
        vec!["bytes=0-5242879", "bytes=5242880-10485759", "bytes=10485760-10485760"]
    );
    assert_eq!(parts.iter().map(|p| p.number).collect::<Vec<i32>>(), vec![1, 2, 3]);
    let mut copy = MultipartCopy::new(size, 2 * size);
    assert_eq!(copy.request(), (1, format!("bytes=0-{}", size - 1)));
    assert_eq!(
        copy.part_copied(CopyReply::Refused { cause: vec![] }),
        CopyNext::Abort { error: FsError::Failed { step: Step::CopyPart, cause: vec![] } }
    );
}

#[test]
fn a_copy_needs_an_id() {
    assert_eq!(copy_started(CopyStart::Created { upload_id: Some("i".into()) }), Ok("i".into()));
    let e = copy_started(CopyStart::Created { upload_id: None }).unwrap_err();
    assert_eq!(e, FsError::NoCopyId);
    assert_eq!(e.message(), "multipart copy returned no upload id");
    assert_eq!(
        copy_started(CopyStart::Refused { cause: vec![] }),
        Err(FsError::Failed { step: Step::CreateCopy, cause: vec![] })
    );
    assert_eq!(copy_completed(None), Ok(()));
    assert_eq!(
        copy_completed(Some(vec![])),
        Err(FsError::Failed { step: Step::CompleteCopy, cause: vec![] })
    );
}

fn keys(n: usize) -> Vec<Option<String>> {
    (0..n).map(|i| Some(format!("k{i}"))).collect()
}

#[test]
fn keys_are_deleted_in_batches() {
    let all = batches(keys(2001));
    assert_eq!(all.iter().map(|b| b.len()).collect::<Vec<usize>>(), vec![1000, 1000, 1]);
    assert_eq!(all[2][0], "k2000");
    assert_eq!(batches(vec![None, None]), Vec::<Vec<String>>::new());
}

#[test]
fn a_tree_is_deleted_page_by_page() {
    let (mut tree, next) = TreeDeletion::start("p/", "/d");
    assert_eq!(next, TreeNext::List { token: None });
    let page = TreePage::Keys {
        keys: keys(1001),
        truncated: Some(true),
        token: Some("t".into()),
    };
    match tree.listed(page) {
        TreeNext::Delete { keys } => assert_eq!(keys.len(), 1000),
        other => panic!("{other:?}"),
    }
    match tree.batch_done(BatchReply::Answer { failed: vec![] }) {
        TreeNext::Delete { keys } => assert_eq!(keys, vec!["k1000".to_string()]),
        other => panic!("{other:?}"),
    }
    assert_eq!(
        tree.batch_done(BatchReply::Answer { failed: vec![] }),
        TreeNext::List { token: Some("t".into()) }
    );
    let page = TreePage::Keys { keys: vec![], truncated: None, token: None };
    assert_eq!(tree.listed(page), TreeNext::DeleteMarker { key: "p/d/".into() });
}

#[test]
fn a_tree_deletion_fails_with_what_went_wrong() {
    let done = |e: FsError| TreeNext::Done { result: Err(e) };
    let (mut tree, _) = TreeDeletion::start("", "/d");
    assert_eq!(
        tree.listed(TreePage::Failed { cause: vec![] }),
        done(FsError::Failed { step: Step::ListForDelete, cause: vec![] })
    );
    let (mut tree, _) = TreeDeletion::start("", "/d");
    let page = TreePage::Keys { keys: keys(3), truncated: Some(true), token: None };
    tree.listed(page);
    assert_eq!(
        tree.batch_done(BatchReply::Answer { failed: vec![] }),
        done(FsError::PartialListing)
    );
    let (mut tree, _) = TreeDeletion::start("", "/d");
    let page = TreePage::Keys { keys: keys(3), truncated: None, token: None };
    tree.listed(page);
    assert_eq!(
        tree.batch_done(BatchReply::Failed { cause: vec!["x".into()] }),
        done(FsError::Failed { step: Step::BatchDelete, cause: vec!["x".into()] })
    );
}

#[test]
fn failed_keys_are_named() {
    assert_eq!(batch_deleted(9, vec![]), Ok(()));
    let failed = vec![Some("a\"b".to_string()), None, Some("c".to_string())];
    let e = batch_deleted(9, failed).unwrap_err();
    assert_eq!(
        e.message(),
        "s3 batch delete failed for 3 of 9 keys (e.g. [\"a\\\"b\", \"c\"])"
    );
    let many: Vec<Option<String>> = keys(7);
    match batch_deleted(9, many) {
        Err(FsError::BatchDeleteFailed { failed, total, sample }) => {
            assert_eq!((failed, total, sample.len()), (7, 9, 5));
        }
        other => panic!("{other:?}"),
    }
}

#[test]
fn single_deletions_are_counted_when_they_fail() {
    let mut m = Metrics::default();
    assert_eq!(object_deleted(None, &mut m), Ok(()));
    assert_eq!(m, Metrics::default());
    assert_eq!(
        object_deleted(Some(vec![]), &mut m),
        Err(FsError::Failed { step: Step::Delete, cause: vec![] })
    );
    assert_eq!((m.s3_errors, m.s3_delete_errors), (1, 1));
    assert_eq!(bin_dir_removed(false), Ok(()));
    assert_eq!(bin_dir_removed(true), Err(FsError::NotEmpty));
    assert_eq!(marker_key("p/", "/d/"), "p/d/");
    assert_eq!(marker_key("p/", "/d"), "p/d/");
    assert_eq!(marker_key("p/", "/"), "p/");
}

#[test]
fn checksum_headers_are_recognised() {
    assert!(is_checksum_header("x-amz-checksum-crc32"));
    assert!(is_checksum_header("x-amz-sdk-checksum-algorithm"));
    assert!(!is_checksum_header("x-amz-sdk-checksum-algorithm2"));
    assert!(!is_checksum_header("content-md5"));
}
