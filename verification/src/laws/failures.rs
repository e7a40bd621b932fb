//! What is said of a failure is what failed.

use crate::copying::{copy_completed, copy_started, CopyNext, CopyReply, CopyStart, MultipartCopy};
use crate::deletion::{
    bin_dir_removed, object_deleted, BatchReply, TreeDeletion, TreeNext, TreePage,
};
use crate::error::{FsError, Step};
use crate::laws::numbers::{decimal_spelled, spells};
use crate::listing::Listing;
use crate::metrics::Metrics;
use crate::multipart::{
    completion_verified, upload_started, CreateReply, MultipartWrite, PartOutcome, Verdict,
};
use crate::rename::within_bin;
use crate::stat::{anything_left, HeadReply, Lookup, LookupNext, ProbeReply};
use crate::streaming::StreamingUpload;
use crate::tree_copy::{CopyPage, MarkerReply, TreeCopy, TreeCopyNext};
use crate::writing::{put_done, PutReply};
use vstd::prelude::*;

verus! {

/// The words for each step that can fail.
pub proof fn steps_are_named(step: Step, r: &'static str)
    requires
        call_ensures(Step::words, (step,), r),
    ensures
        step is Put ==> r@ == "s3 put"@,
        step is Get ==> r@ == "s3 get"@,
        step is GetBody ==> r@ == "s3 get body"@,
        step is List ==> r@ == "s3 list"@,
        step is ListForDelete ==> r@ == "s3 list for delete"@,
        step is ListForRename ==> r@ == "s3 list for rename"@,
        step is ListForCount ==> r@ == "s3 list for rename count"@,
        step is BatchDelete ==> r@ == "s3 batch delete"@,
        step is Delete ==> r@ == "s3 delete"@,
        step is Head ==> r@ == "s3 head"@,
        step is HeadMarker ==> r@ == "s3 head marker"@,
        step is Probe ==> r@ == "s3 probe children"@,
        step is CreateUpload ==> r@ == "s3 create multipart upload"@,
        step is UploadPart ==> r@ == "s3 upload part"@,
        step is CompleteUpload ==> r@ == "s3 complete multipart upload"@,
        step is AbortUpload ==> r@ == "s3 abort multipart upload"@,
        step is CreateCopy ==> r@ == "s3 create multipart copy"@,
        step is CopyPart ==> r@ == "s3 copy part"@,
        step is CompleteCopy ==> r@ == "s3 complete multipart copy"@,
        step is Copy ==> r@ == "s3 copy"@,
        step is CopyMarker ==> r@ == "s3 copy marker"@,
        step is StatSpool ==> r@ == "stat spool file"@,
        step is ReadSpool ==> r@ == "read spool file"@,
        step is OpenSpool ==> r@ == "open spool file"@,
        step is ReadSpoolChunk ==> r@ == "read spool file chunk"@,
        step is CreateCacheDir ==> r@ == "create disk cache dir"@,
        step is WriteBlock ==> r@ == "write disk cache block"@,
        step is CommitBlock ==> r@ == "commit disk cache block"@,
{
}

/// The words for each failure that names nothing.
pub proof fn plain_failures_are_named(e: &FsError, r: String)
    requires
        call_ensures(FsError::message, (e,), r),
    ensures
        *e is ReadOnly ==> r@ == "filesystem is mounted read-only"@,
        *e is RootExists ==> r@ == "directory / already exists"@,
        *e is RootDeleted ==> r@ == "cannot delete the mount root /"@,
        *e is NotEmpty ==> r@ == "directory not empty"@,
        *e is PartialListing ==> r@ == "s3 list truncated without a continuation token; refusing to return a partial listing"@,
        *e is CrcMissing ==> r@ == "x-oss-hash-crc64ecma header missing from upload response"@,
        *e is DirtyClosed ==> r@ == "dirty buffer budget closed"@,
        *e is NoUploadId ==> r@ == "s3 create multipart upload returned no upload id"@,
        *e is NoCopyId ==> r@ == "multipart copy returned no upload id"@,
        *e is LimiterClosed ==> r@ == "s3 request limiter closed"@,
        *e is UploadSlotsClosed ==> r@ == "multipart upload concurrency closed"@,
        *e is StreamSlotsClosed ==> r@ == "multipart concurrency closed"@,
        *e is IntoOwnSubtree ==> r@ == "rename: cannot move a path into its own subtree"@,
        *e is RecycleDirRename ==> r@ == "rename: cannot move the system recycle bin directory"@,
        *e is RenameSourceInTrash ==> r@ == "rename: source path is in the trash"@,
        *e is RenameTargetExists ==> r@ == "rename: target already exists"@,
        *e is DirRenameDisabled ==> r@ == "directory rename is disabled"@,
        *e is EntryInfoMissing ==> r@ == "read: $I entry not found"@,
        *e is TrashListDisabled ==> r@ == "trash is disabled (--no-trash); no trash to list"@,
        *e is TrashRestoreDisabled ==> r@ == "trash is disabled (--no-trash); nothing to restore"@,
{
}

/// `s` is `a`, the number `n` in decimal, and `b`.
pub open spec fn gives(s: Seq<char>, a: Seq<char>, n: u64, b: Seq<char>) -> bool {
    exists|d: Seq<char>| #[trigger] spells(d, n as int) && s == a + d + b
}

/// `s` is `a`, the number `n`, `b`, the number `k` and `c`.
pub open spec fn gives_both(
    s: Seq<char>,
    a: Seq<char>,
    n: u64,
    b: Seq<char>,
    k: u64,
    c: Seq<char>,
) -> bool {
    exists|d: Seq<char>, e: Seq<char>| #[trigger]
        spells(d, n as int) && #[trigger] spells(e, k as int) && s == a + d + b + e + c
}

/// A failure that names numbers gives those, in decimal and in their places.
pub proof fn failures_give_their_numbers(e: &FsError, r: String)
    requires
        call_ensures(FsError::message, (e,), r),
    ensures
        *e matches FsError::CrcMismatch { expected, actual } ==> gives_both(
            r@,
            "crc64 mismatch: expected "@,
            expected,
            ", got "@,
            actual,
            " from x-oss-hash-crc64ecma"@,
        ),
        *e matches FsError::DirtyTooLarge { bytes } ==> gives(
            r@,
            ""@,
            bytes,
            " bytes exceeds max-dirty-bytes budget"@,
        ),
        *e matches FsError::UploadTooLarge { bytes, limit } ==> gives_both(
            r@,
            "write of "@,
            bytes,
            " bytes exceeds max-upload-bytes budget ("@,
            limit,
            ")"@,
        ),
        *e matches FsError::UploadBudgetHeld { bytes } ==> gives(
            r@,
            "write of "@,
            bytes,
            " bytes exceeds max-upload-bytes budget: in-flight streaming uploads hold all of it"@,
        ),
        *e matches FsError::StreamBudgetHeld { bytes } ==> gives(
            r@,
            "write of "@,
            bytes,
            " bytes exceeds max-upload-bytes budget"@,
        ),
        *e matches FsError::StreamTooLong { max_bytes, part_size } ==> gives_both(
            r@,
            "streaming write exceeds S3 multipart limit of 10000 parts ("@,
            max_bytes,
            " bytes at part size "@,
            part_size,
            ")"@,
        ),
        *e matches FsError::DirRenameLimit { limit, count } ==> gives_both(
            r@,
            "directory exceeds rename-dir-limit "@,
            limit,
            " ("@,
            count,
            " entries so far)"@,
        ),
        *e matches FsError::BodyStalled { len } ==> gives(
            r@,
            "s3 get body stalled past its budget ("@,
            len,
            " bytes requested)"@,
        ),
{
    match *e {
        FsError::CrcMismatch { expected, actual } => {
            decimal_spelled(expected as nat);
            decimal_spelled(actual as nat);
        },
        FsError::DirtyTooLarge { bytes } => {
            decimal_spelled(bytes as nat);
            reveal_strlit("");
            let d = crate::digits::decimal(bytes as nat);
            assert(""@ + d =~= d);
        },
        FsError::UploadTooLarge { bytes, limit } => {
            decimal_spelled(bytes as nat);
            decimal_spelled(limit as nat);
        },
        FsError::UploadBudgetHeld { bytes } => {
            decimal_spelled(bytes as nat);
        },
        FsError::StreamBudgetHeld { bytes } => {
            decimal_spelled(bytes as nat);
        },
        FsError::StreamTooLong { max_bytes, part_size } => {
            decimal_spelled(max_bytes as nat);
            decimal_spelled(part_size as nat);
        },
        FsError::DirRenameLimit { limit, count } => {
            decimal_spelled(limit as nat);
            decimal_spelled(count as nat);
        },
        FsError::BodyStalled { len } => {
            decimal_spelled(len as nat);
        },
        _ => {},
    }
}

/// A failure that names something gives the name as it is.
pub proof fn failures_give_their_names(e: &FsError, r: String)
    requires
        call_ensures(FsError::message, (e,), r),
    ensures
        *e matches FsError::Failed { step, .. } ==> r@ == step.text(),
        *e matches FsError::UploadTaskPanicked { detail } ==> r@
            == "multipart upload task panicked: "@ + detail@,
        *e matches FsError::StreamTaskPanicked { detail } ==> r@ == "multipart task panicked: "@
            + detail@,
        *e matches FsError::RenameSourceMissing { path } ==> r@ == "rename: source not found: "@
            + path@,
        *e matches FsError::TrashDirInvalid { dir } ==> r@
            == "trash-dir must be a single path segment (no '/', '.' or '..'): got `"@ + dir@ + "`"@,
        *e matches FsError::BucketMissing { bucket } ==> r@ == "bucket `"@ + bucket@
            + "` does not exist at the configured endpoint/region"@,
        *e matches FsError::Outside { messages } ==> messages@.len() > 0 ==> r@ == messages@[0]@,
{
}

/// A lookup that fails says at which question, and why.
pub proof fn failed_lookups_say_where(
    lookup: &Lookup,
    cause: Vec<String>,
    m: &mut Metrics,
    head: LookupNext,
    m2: &mut Metrics,
    marker: LookupNext,
    probed: LookupNext,
    left: Result<bool, FsError>,
)
    requires
        call_ensures(Lookup::head, (lookup, HeadReply::Failed { cause }, m), head),
        call_ensures(Lookup::marker, (lookup, HeadReply::Failed { cause }, m2), marker),
        call_ensures(Lookup::probed, (lookup, ProbeReply::Failed { cause }), probed),
        call_ensures(anything_left, (ProbeReply::Failed { cause },), left),
    ensures
        head is Done && head->result is Err && head->result->Err_0 == (FsError::Failed {
            step: Step::Head,
            cause,
        }),
        marker is Done && marker->result is Err && marker->result->Err_0 == (FsError::Failed {
            step: Step::HeadMarker,
            cause,
        }),
        probed is Done && probed->result is Err && probed->result->Err_0 == (FsError::Failed {
            step: Step::Probe,
            cause,
        }),
        left is Err && left->Err_0 == (FsError::Failed { step: Step::Probe, cause }),
{
}

/// A tree that cannot be copied or deleted says at which step, and why; a
/// marker that is not there is no failure.
pub proof fn failed_trees_say_where(
    copy: &mut TreeCopy,
    cause: Vec<String>,
    listed: TreeCopyNext,
    reply: MarkerReply,
    marker: Result<(), FsError>,
    tree: &mut TreeDeletion,
    page: TreeNext,
    other: &mut TreeDeletion,
    batch: TreeNext,
)
    requires
        call_ensures(TreeCopy::listed, (copy, CopyPage::Failed { cause }), listed),
        call_ensures(TreeCopy::marker_copied, (reply,), marker),
        call_ensures(TreeDeletion::listed, (tree, TreePage::Failed { cause }), page),
        call_ensures(TreeDeletion::batch_done, (other, BatchReply::Failed { cause }), batch),
    ensures
        listed is Done && listed->result is Err && listed->result->Err_0 == (FsError::Failed {
            step: Step::ListForRename,
            cause,
        }),
        marker is Ok <==> reply is Copied || reply is Missing,
        reply matches MarkerReply::Refused { cause } ==> marker->Err_0 == (FsError::Failed {
            step: Step::CopyMarker,
            cause,
        }),
        page is Done && page->result is Err && page->result->Err_0 == (FsError::Failed {
            step: Step::ListForDelete,
            cause,
        }),
        batch is Done && batch->result is Err && batch->result->Err_0 == (FsError::Failed {
            step: Step::BatchDelete,
            cause,
        }),
{
}

/// An upload that cannot be started, sent or put together says so, and why;
/// one that was started goes on under the id that the store gave.
pub proof fn failed_uploads_say_where(
    create: CreateReply,
    m: &mut Metrics,
    id: Result<String, FsError>,
    put: PutReply,
    expected: Option<u64>,
    m2: &mut Metrics,
    done: Result<(), FsError>,
    cause: Vec<String>,
    verdict: Verdict,
    write: &mut MultipartWrite,
    stream: &mut StreamingUpload,
    detail: String,
)
    requires
        call_ensures(upload_started, (create, m), id),
        call_ensures(put_done, (expected, put, m2), done),
        call_ensures(completion_verified, (cause, None), verdict),
        call_ensures(MultipartWrite::part_done, (write, PartOutcome::Lost { detail }), ()),
        call_ensures(StreamingUpload::part_done, (stream, PartOutcome::Lost { detail }), ()),
    ensures
        create matches CreateReply::Created { upload_id } ==> match upload_id {
            Some(given) => id == Ok::<String, FsError>(given),
            None => id == Err::<String, FsError>(FsError::NoUploadId),
        },
        create matches CreateReply::Refused { cause } ==> id == Err::<String, FsError>(
            FsError::Failed { step: Step::CreateUpload, cause },
        ),
        put matches PutReply::Refused { cause } ==> done == Err::<(), FsError>(
            FsError::Failed { step: Step::Put, cause },
        ),
        verdict == (Verdict::Abort {
            error: FsError::Failed { step: Step::CompleteUpload, cause },
        }),
        final(write).failure == Some(FsError::UploadTaskPanicked { detail }),
        final(stream).failure == Some(FsError::StreamTaskPanicked { detail }),
{
}

/// A copy that cannot be started, made or put together says so, and why; one
/// that was started goes on under the id that the store gave.
pub proof fn failed_copies_say_where(
    start: CopyStart,
    id: Result<String, FsError>,
    refused: Option<Vec<String>>,
    done: Result<(), FsError>,
    copy: &mut MultipartCopy,
    cause: Vec<String>,
    next: CopyNext,
)
    requires
        call_ensures(copy_started, (start,), id),
        call_ensures(copy_completed, (refused,), done),
        call_ensures(MultipartCopy::part_copied, (copy, CopyReply::Refused { cause }), next),
    ensures
        start matches CopyStart::Created { upload_id } ==> match upload_id {
            Some(given) => id == Ok::<String, FsError>(given),
            None => id == Err::<String, FsError>(FsError::NoCopyId),
        },
        start matches CopyStart::Refused { cause } ==> id == Err::<String, FsError>(
            FsError::Failed { step: Step::CreateCopy, cause },
        ),
        done is Ok <==> refused is None,
        refused matches Some(why) ==> done == Err::<(), FsError>(
            FsError::Failed { step: Step::CompleteCopy, cause: why },
        ),
        next == (CopyNext::Abort { error: FsError::Failed { step: Step::CopyPart, cause } }),
{
}

/// A deletion, a listing and a rename within the recycle bin that fail say so.
pub proof fn other_failures_say_where(
    refused: Option<Vec<String>>,
    m: &mut Metrics,
    deleted: Result<(), FsError>,
    cause: Vec<String>,
    m2: &mut Metrics,
    listing: FsError,
    found: bool,
    old_path: &str,
    within: Result<(), FsError>,
    children: bool,
    removed: Result<(), FsError>,
)
    requires
        call_ensures(object_deleted, (refused, m), deleted),
        call_ensures(Listing::failed, (cause, m2), listing),
        call_ensures(within_bin, (found, old_path), within),
        call_ensures(bin_dir_removed, (children,), removed),
    ensures
        deleted is Ok <==> refused is None,
        refused matches Some(why) ==> deleted == Err::<(), FsError>(
            FsError::Failed { step: Step::Delete, cause: why },
        ),
        listing == (FsError::Failed { step: Step::List, cause }),
        within is Ok <==> found,
        within matches Err(e) ==> e is RenameSourceMissing && e->path@ == old_path@,
        removed is Ok <==> !children,
        removed matches Err(e) ==> e is NotEmpty,
{
}

} // verus!
