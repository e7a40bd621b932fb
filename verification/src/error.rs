//! What can go wrong, and the words for it.

use crate::digits::{
    decimal, decimal_of, is_digit, number_of, numbers_read_back, numeral_digits, parse_number,
};
use crate::text::{
    chars_of, contains, ends_with, join, join_of, joined, lower, lower_of, occurs_in, same,
    starts_with, string_of, texts,
};
use vstd::prelude::*;

verus! {

/// What was being asked of the object store, or of the local disk, when it
/// failed.
#[derive(Clone, Copy, Debug, PartialEq, Eq, Structural)]
pub enum Step {
    /// Storing a whole object.
    Put,
    /// Requesting a range of an object.
    Get,
    /// Receiving the body of a range.
    GetBody,
    /// Listing a directory.
    List,
    /// Listing a tree that is to be deleted.
    ListForDelete,
    /// Listing a tree that is to be copied.
    ListForRename,
    /// Counting a tree that is to be renamed.
    ListForCount,
    /// Deleting a batch of objects.
    BatchDelete,
    /// Deleting one object.
    Delete,
    /// Asking for an object's attributes.
    Head,
    /// Asking for a directory marker's attributes.
    HeadMarker,
    /// Asking whether a directory has children.
    Probe,
    /// Starting a multipart upload.
    CreateUpload,
    /// Sending one part.
    UploadPart,
    /// Completing a multipart upload.
    CompleteUpload,
    /// Aborting a multipart upload.
    AbortUpload,
    /// Starting a multipart copy.
    CreateCopy,
    /// Copying one part.
    CopyPart,
    /// Completing a multipart copy.
    CompleteCopy,
    /// Copying one object.
    Copy,
    /// Copying a directory marker.
    CopyMarker,
    /// Asking for the size of a spool file.
    StatSpool,
    /// Reading a spool file.
    ReadSpool,
    /// Opening a spool file.
    OpenSpool,
    /// Reading one part of a spool file.
    ReadSpoolChunk,
    /// Creating the disk cache's directory.
    CreateCacheDir,
    /// Writing a block of the disk cache.
    WriteBlock,
    /// Moving a block of the disk cache into place.
    CommitBlock,
}

impl Step {
    /// The words for this step.
    pub open spec fn text(self) -> Seq<char> {
        match self {
            Step::Put => "s3 put"@,
            Step::Get => "s3 get"@,
            Step::GetBody => "s3 get body"@,
            Step::List => "s3 list"@,
            Step::ListForDelete => "s3 list for delete"@,
            Step::ListForRename => "s3 list for rename"@,
            Step::ListForCount => "s3 list for rename count"@,
            Step::BatchDelete => "s3 batch delete"@,
            Step::Delete => "s3 delete"@,
            Step::Head => "s3 head"@,
            Step::HeadMarker => "s3 head marker"@,
            Step::Probe => "s3 probe children"@,
            Step::CreateUpload => "s3 create multipart upload"@,
            Step::UploadPart => "s3 upload part"@,
            Step::CompleteUpload => "s3 complete multipart upload"@,
            Step::AbortUpload => "s3 abort multipart upload"@,
            Step::CreateCopy => "s3 create multipart copy"@,
            Step::CopyPart => "s3 copy part"@,
            Step::CompleteCopy => "s3 complete multipart copy"@,
            Step::Copy => "s3 copy"@,
            Step::CopyMarker => "s3 copy marker"@,
            Step::StatSpool => "stat spool file"@,
            Step::ReadSpool => "read spool file"@,
            Step::OpenSpool => "open spool file"@,
            Step::ReadSpoolChunk => "read spool file chunk"@,
            Step::CreateCacheDir => "create disk cache dir"@,
            Step::WriteBlock => "write disk cache block"@,
            Step::CommitBlock => "commit disk cache block"@,
        }
    }

    /// The words for this step.
    pub fn words(self) -> (r: &'static str)
        ensures
            r@ == self.text(),
    {
        match self {
            Step::Put => "s3 put",
            Step::Get => "s3 get",
            Step::GetBody => "s3 get body",
            Step::List => "s3 list",
            Step::ListForDelete => "s3 list for delete",
            Step::ListForRename => "s3 list for rename",
            Step::ListForCount => "s3 list for rename count",
            Step::BatchDelete => "s3 batch delete",
            Step::Delete => "s3 delete",
            Step::Head => "s3 head",
            Step::HeadMarker => "s3 head marker",
            Step::Probe => "s3 probe children",
            Step::CreateUpload => "s3 create multipart upload",
            Step::UploadPart => "s3 upload part",
            Step::CompleteUpload => "s3 complete multipart upload",
            Step::AbortUpload => "s3 abort multipart upload",
            Step::CreateCopy => "s3 create multipart copy",
            Step::CopyPart => "s3 copy part",
            Step::CompleteCopy => "s3 complete multipart copy",
            Step::Copy => "s3 copy",
            Step::CopyMarker => "s3 copy marker",
            Step::StatSpool => "stat spool file",
            Step::ReadSpool => "read spool file",
            Step::OpenSpool => "open spool file",
            Step::ReadSpoolChunk => "read spool file chunk",
            Step::CreateCacheDir => "create disk cache dir",
            Step::WriteBlock => "write disk cache block",
            Step::CommitBlock => "commit disk cache block",
        }
    }
}

/// Why an operation failed.
#[derive(Clone, Debug, PartialEq, Eq)]
pub enum FsError {
    /// The outside failed: at which step, and what it said, outermost first.
    Failed { step: Step, cause: Vec<String> },
    /// The outside failed and said this, outermost first, with no step named.
    Outside { messages: Vec<String> },
    /// A mutation on a read-only mount.
    ReadOnly,
    /// Creating the mount root.
    RootExists,
    /// Deleting the mount root.
    RootDeleted,
    /// Removing a directory that still holds something.
    NotEmpty,
    /// A listing that says it goes on and does not say where.
    PartialListing,
    /// The store reports another checksum than the one computed here.
    CrcMismatch { expected: u64, actual: u64 },
    /// The store reports no checksum.
    CrcMissing,
    /// A write buffer larger than the whole budget for them.
    DirtyTooLarge { bytes: u64 },
    /// The budget for write buffers is closed.
    DirtyClosed,
    /// An object larger than the whole upload budget.
    UploadTooLarge { bytes: u64, limit: u64 },
    /// No room in the upload budget just now.
    UploadBudgetHeld { bytes: u64 },
    /// No room in the upload budget for a growing stream.
    StreamBudgetHeld { bytes: u64 },
    /// A stream that would need more parts than an upload may have.
    StreamTooLong { max_bytes: u64, part_size: u64 },
    /// A multipart upload was started and not named.
    NoUploadId,
    /// A multipart copy was started and not named.
    NoCopyId,
    /// A part of an object's upload ended without an answer.
    UploadTaskPanicked { detail: String },
    /// A part of a stream's upload ended without an answer.
    StreamTaskPanicked { detail: String },
    /// The request limiter is closed.
    LimiterClosed,
    /// The slots for the parts of an object are closed.
    UploadSlotsClosed,
    /// The slots for the parts of a stream are closed.
    StreamSlotsClosed,
    /// Some keys of a batch were not deleted.
    BatchDeleteFailed { failed: u64, total: u64, sample: Vec<String> },
    /// A rename into the path's own subtree, or into its own ancestor.
    IntoOwnSubtree,
    /// A rename of the system recycle bin itself.
    RecycleDirRename,
    /// A rename of a recycle bin entry that is not there.
    RenameSourceMissing { path: String },
    /// A rename of something that was deleted.
    RenameSourceInTrash,
    /// A rename onto something that is there, without leave to replace it.
    RenameTargetExists,
    /// A directory rename on a mount that does not allow them.
    DirRenameDisabled,
    /// A directory rename of too many objects.
    DirRenameLimit { limit: u64, count: u64 },
    /// A trash directory name that is not one path segment.
    TrashDirInvalid { dir: String },
    /// The configured bucket is not there.
    BucketMissing { bucket: String },
    /// A response body that took longer than its budget.
    BodyStalled { len: u64 },
    /// A recycle bin information file that is not there.
    EntryInfoMissing,
    /// Listing the trash of a mount that has none.
    TrashListDisabled,
    /// Restoring from the trash of a mount that has none.
    TrashRestoreDisabled,
}

impl FsError {
    /// The words for this error, without its causes.
    pub open spec fn text(self) -> Seq<char> {
        match self {
            FsError::Failed { step, .. } => step.text(),
            FsError::Outside { messages } => if messages@.len() == 0 {
                Seq::empty()
            } else {
                messages@[0]@
            },
            FsError::ReadOnly => "filesystem is mounted read-only"@,
            FsError::RootExists => "directory / already exists"@,
            FsError::RootDeleted => "cannot delete the mount root /"@,
            FsError::NotEmpty => "directory not empty"@,
            FsError::PartialListing => "s3 list truncated without a continuation token; refusing to return a partial listing"@,
            FsError::CrcMismatch { expected, actual } => "crc64 mismatch: expected "@ + decimal(expected as nat) + ", got "@ + decimal(actual as nat) + " from x-oss-hash-crc64ecma"@,
            FsError::CrcMissing => "x-oss-hash-crc64ecma header missing from upload response"@,
            FsError::DirtyTooLarge { bytes } => decimal(bytes as nat) + " bytes exceeds max-dirty-bytes budget"@,
            FsError::DirtyClosed => "dirty buffer budget closed"@,
            FsError::UploadTooLarge { bytes, limit } => "write of "@ + decimal(bytes as nat) + " bytes exceeds max-upload-bytes budget ("@ + decimal(limit as nat) + ")"@,
            FsError::UploadBudgetHeld { bytes } => "write of "@ + decimal(bytes as nat) + " bytes exceeds max-upload-bytes budget: in-flight streaming uploads hold all of it"@,
            FsError::StreamBudgetHeld { bytes } => "write of "@ + decimal(bytes as nat) + " bytes exceeds max-upload-bytes budget"@,
            FsError::StreamTooLong { max_bytes, part_size } => "streaming write exceeds S3 multipart limit of 10000 parts ("@ + decimal(max_bytes as nat) + " bytes at part size "@ + decimal(part_size as nat) + ")"@,
            FsError::NoUploadId => "s3 create multipart upload returned no upload id"@,
            FsError::NoCopyId => "multipart copy returned no upload id"@,
            FsError::UploadTaskPanicked { detail } => "multipart upload task panicked: "@ + detail@,
            FsError::StreamTaskPanicked { detail } => "multipart task panicked: "@ + detail@,
            FsError::LimiterClosed => "s3 request limiter closed"@,
            FsError::UploadSlotsClosed => "multipart upload concurrency closed"@,
            FsError::StreamSlotsClosed => "multipart concurrency closed"@,
            FsError::BatchDeleteFailed { failed, total, sample } => "s3 batch delete failed for "@ + decimal(failed as nat) + " of "@ + decimal(total as nat) + " keys (e.g. "@ + debug_list_text(texts(sample@)) + ")"@,
            FsError::IntoOwnSubtree => "rename: cannot move a path into its own subtree"@,
            FsError::RecycleDirRename => "rename: cannot move the system recycle bin directory"@,
            FsError::RenameSourceMissing { path } => "rename: source not found: "@ + path@,
            FsError::RenameSourceInTrash => "rename: source path is in the trash"@,
            FsError::RenameTargetExists => "rename: target already exists"@,
            FsError::DirRenameDisabled => "directory rename is disabled"@,
            FsError::DirRenameLimit { limit, count } => "directory exceeds rename-dir-limit "@ + decimal(limit as nat) + " ("@ + decimal(count as nat) + " entries so far)"@,
            FsError::TrashDirInvalid { dir } => "trash-dir must be a single path segment (no '/', '.' or '..'): got `"@ + dir@ + "`"@,
            FsError::BucketMissing { bucket } => "bucket `"@ + bucket@ + "` does not exist at the configured endpoint/region"@,
            FsError::BodyStalled { len } => "s3 get body stalled past its budget ("@ + decimal(len as nat) + " bytes requested)"@,
            FsError::EntryInfoMissing => "read: $I entry not found"@,
            FsError::TrashListDisabled => "trash is disabled (--no-trash); no trash to list"@,
            FsError::TrashRestoreDisabled => "trash is disabled (--no-trash); nothing to restore"@,
        }
    }

    /// The words for this error, without its causes.
    pub fn message(&self) -> (r: String)
        ensures
            r@ == self.text(),
    {
        match self {
            FsError::Failed { step, .. } => step.words().to_owned(),
            FsError::Outside { messages } => {
                if messages.len() == 0 {
                    String::new()
                } else {
                    messages[0].clone()
                }
            },
            FsError::ReadOnly => "filesystem is mounted read-only".to_owned(),
            FsError::RootExists => "directory / already exists".to_owned(),
            FsError::RootDeleted => "cannot delete the mount root /".to_owned(),
            FsError::NotEmpty => "directory not empty".to_owned(),
            FsError::PartialListing => "s3 list truncated without a continuation token; refusing to return a partial listing".to_owned(),
            FsError::CrcMismatch { expected, actual } => {
                let mut s = "crc64 mismatch: expected ".to_owned();
                s.append(decimal_of(*expected).as_str());
                s.append(", got ");
                s.append(decimal_of(*actual).as_str());
                s.append(" from x-oss-hash-crc64ecma");
                s
            },
            FsError::CrcMissing => "x-oss-hash-crc64ecma header missing from upload response".to_owned(),
            FsError::DirtyTooLarge { bytes } => {
                let mut s = decimal_of(*bytes);
                s.append(" bytes exceeds max-dirty-bytes budget");
                s
            },
            FsError::DirtyClosed => "dirty buffer budget closed".to_owned(),
            FsError::UploadTooLarge { bytes, limit } => {
                let mut s = "write of ".to_owned();
                s.append(decimal_of(*bytes).as_str());
                s.append(" bytes exceeds max-upload-bytes budget (");
                s.append(decimal_of(*limit).as_str());
                s.append(")");
                s
            },
            FsError::UploadBudgetHeld { bytes } => {
                let mut s = "write of ".to_owned();
                s.append(decimal_of(*bytes).as_str());
                s.append(" bytes exceeds max-upload-bytes budget: in-flight streaming uploads hold all of it");
                s
            },
            FsError::StreamBudgetHeld { bytes } => {
                let mut s = "write of ".to_owned();
                s.append(decimal_of(*bytes).as_str());
                s.append(" bytes exceeds max-upload-bytes budget");
                s
            },
            FsError::StreamTooLong { max_bytes, part_size } => {
                let mut s = "streaming write exceeds S3 multipart limit of 10000 parts (".to_owned();
                s.append(decimal_of(*max_bytes).as_str());
                s.append(" bytes at part size ");
                s.append(decimal_of(*part_size).as_str());
                s.append(")");
                s
            },
            FsError::NoUploadId => "s3 create multipart upload returned no upload id".to_owned(),
            FsError::NoCopyId => "multipart copy returned no upload id".to_owned(),
            FsError::UploadTaskPanicked { detail } => {
                let mut s = "multipart upload task panicked: ".to_owned();
                s.append(detail.as_str());
                s
            },
            FsError::StreamTaskPanicked { detail } => {
                let mut s = "multipart task panicked: ".to_owned();
                s.append(detail.as_str());
                s
            },
            FsError::LimiterClosed => "s3 request limiter closed".to_owned(),
            FsError::UploadSlotsClosed => "multipart upload concurrency closed".to_owned(),
            FsError::StreamSlotsClosed => "multipart concurrency closed".to_owned(),
            FsError::BatchDeleteFailed { failed, total, sample } => {
                let mut s = "s3 batch delete failed for ".to_owned();
                s.append(decimal_of(*failed).as_str());
                s.append(" of ");
                s.append(decimal_of(*total).as_str());
                s.append(" keys (e.g. ");
                s.append(debug_list(sample).as_str());
                s.append(")");
                s
            },
            FsError::IntoOwnSubtree => "rename: cannot move a path into its own subtree".to_owned(),
            FsError::RecycleDirRename => "rename: cannot move the system recycle bin directory".to_owned(),
            FsError::RenameSourceMissing { path } => {
                let mut s = "rename: source not found: ".to_owned();
                s.append(path.as_str());
                s
            },
            FsError::RenameSourceInTrash => "rename: source path is in the trash".to_owned(),
            FsError::RenameTargetExists => "rename: target already exists".to_owned(),
            FsError::DirRenameDisabled => "directory rename is disabled".to_owned(),
            FsError::DirRenameLimit { limit, count } => {
                let mut s = "directory exceeds rename-dir-limit ".to_owned();
                s.append(decimal_of(*limit).as_str());
                s.append(" (");
                s.append(decimal_of(*count).as_str());
                s.append(" entries so far)");
                s
            },
            FsError::TrashDirInvalid { dir } => {
                let mut s = "trash-dir must be a single path segment (no '/', '.' or '..'): got `".to_owned();
                s.append(dir.as_str());
                s.append("`");
                s
            },
            FsError::BucketMissing { bucket } => {
                let mut s = "bucket `".to_owned();
                s.append(bucket.as_str());
                s.append("` does not exist at the configured endpoint/region");
                s
            },
            FsError::BodyStalled { len } => {
                let mut s = "s3 get body stalled past its budget (".to_owned();
                s.append(decimal_of(*len).as_str());
                s.append(" bytes requested)");
                s
            },
            FsError::EntryInfoMissing => "read: $I entry not found".to_owned(),
            FsError::TrashListDisabled => "trash is disabled (--no-trash); no trash to list".to_owned(),
            FsError::TrashRestoreDisabled => "trash is disabled (--no-trash); nothing to restore".to_owned(),
        }
    }
}

/// The form that `Debug` gives a list of strings: quoted, with escapes, in
/// square brackets.
pub uninterp spec fn debug_list_text(list: Seq<Seq<char>>) -> Seq<char>;

/// `<Vec<String> as Debug>::fmt`: the text depends on the strings alone.
#[verifier::external_body]
fn debug_list(list: &Vec<String>) -> (r: String)
    ensures
        r@ == debug_list_text(texts(list@)),
{
    format!("{:?}", list)
}

/// `anyhow::Error`: an error and the chain of its causes.
#[verifier::external_type_specification]
#[verifier::external_body]
pub struct ExAnyhowError(anyhow::Error);

/// The messages along an error's chain, outermost first.
pub uninterp spec fn chain_messages(e: anyhow::Error) -> Seq<Seq<char>>;

/// `anyhow::Error::chain`: walks from the error itself to its root cause. Each
/// link is given as the text that it displays; the first is the text that the
/// error itself displays, so there is at least one.
#[verifier::external_body]
fn chain_of(e: &anyhow::Error) -> (r: Vec<String>)
    ensures
        texts(r@) == chain_messages(*e),
        r@.len() > 0,
{
    e.chain().map(|cause| cause.to_string()).collect()
}

/// The words that mark an error which may go away by itself.
pub open spec fn retryable_markers() -> Seq<Seq<char>> {
    seq![
        "timeout"@,
        "timed out"@,
        "timedout"@,
        "connect"@,
        "connection"@,
        "network"@,
        "reset by peer"@,
        "broken pipe"@,
        "unreachable"@,
        "slow down"@,
        "throttl"@,
        "too many requests"@,
        "request rate limit"@,
        "service unavailable"@,
        "internal server error"@,
    ]
}

/// One of the markers occurs in `s`.
pub open spec fn any_occurs(markers: Seq<Seq<char>>, s: Seq<char>) -> bool {
    exists|i: int| 0 <= i < markers.len() && occurs_in(#[trigger] markers[i], s)
}

/// At `i` in `s` stands a blank and a number from 500 to 599: the status of a
/// server error.
pub open spec fn server_error_at(s: Seq<char>, i: int) -> bool {
    &&& 0 <= i && i + 4 <= s.len()
    &&& s[i] == ' ' && s[i + 1] == '5' && is_digit(s[i + 2], 10) && is_digit(s[i + 3], 10)
    &&& i + 4 == s.len() || !is_digit(s[i + 4], 10)
}

/// A server error is named in `s`.
pub open spec fn names_server_error(s: Seq<char>) -> bool {
    exists|i: int| #[trigger] server_error_at(s, i)
}

impl FsError {
    /// The mount itself refuses something, and names a number or a name in it.
    pub open spec fn is_named_refusal(self) -> bool {
        ||| self is DirtyTooLarge
        ||| self is UploadTooLarge
        ||| self is UploadBudgetHeld
        ||| self is StreamBudgetHeld
        ||| self is StreamTooLong
        ||| self is RenameSourceMissing
        ||| self is DirRenameLimit
        ||| self is TrashDirInvalid
        ||| self is BucketMissing
    }
}

/// A message is what the mount itself says where it refuses something and names
/// a number or a name: the whole of it, not a part.
pub open spec fn is_own_refusal(m: Seq<char>) -> bool {
    exists|e: FsError| e.is_named_refusal() && #[trigger] e.text() == m
}

/// Where the digits that begin at `from` end.
spec fn digits_end(s: Seq<char>, from: int) -> int
    decreases s.len() - from,
{
    if 0 <= from < s.len() && is_digit(s[from], 10) {
        digits_end(s, from + 1)
    } else {
        from
    }
}

proof fn digits_end_behind(s: Seq<char>, from: int, end: int)
    requires
        0 <= from <= end <= s.len(),
        forall|i: int| from <= i < end ==> is_digit(#[trigger] s[i], 10),
        end == s.len() || !is_digit(s[end], 10),
    ensures
        digits_end(s, from) == end,
    decreases end - from,
{
    if from < end {
        digits_end_behind(s, from + 1, end);
    }
}

proof fn number_stands(s: Seq<char>, before: Seq<char>, n: u64, behind: Seq<char>)
    requires
        s == before + decimal(n as nat) + behind,
        behind.len() > 0,
        !is_digit(behind[0], 10),
    ensures
        ({
            let end = before.len() + decimal(n as nat).len();
            &&& digits_end(s, before.len() as int) == end
            &&& number_of(s.subrange(before.len() as int, end as int), 10) == Some(n)
            &&& s.take(end as int) == before + decimal(n as nat)
            &&& s.skip(end as int) == behind
        }),
{
    let d = decimal(n as nat);
    let (a, b) = (before.len() as int, (before.len() + d.len()) as int);
    numeral_digits(n as nat, 10);
    numbers_read_back(n, 10);
    assert(s.subrange(a, b) =~= d);
    assert(s.take(b) =~= before + d);
    assert(s.skip(b) =~= behind);
    assert forall|i: int| a <= i < b implies is_digit(#[trigger] s[i], 10) by {
        assert(s[i] == d[i - a]);
    }
    assert(s[b] == behind[0]);
    digits_end_behind(s, a, b);
}

/// The number whose digits begin at `from`, where there is one.
fn number_at(s: &str, from: usize) -> (r: Option<u64>)
    ensures
        r is Some ==> from <= s@.len(),
        from <= s@.len() ==> r == number_of(
            s@.subrange(from as int, digits_end(s@, from as int)),
            10,
        ),
{
    let v = chars_of(s);
    if from > v.len() {
        return None;
    }
    let mut end: usize = from;
    while end < v.len() && digit(v[end])
        invariant
            v@ == s@,
            from <= end <= v@.len(),
            digits_end(s@, from as int) == digits_end(s@, end as int),
        decreases v@.len() - end,
    {
        end += 1;
    }
    let run = string_of(&v, from, end);
    parse_number(run.as_str(), 10)
}

/// The number that stands between `a` and `b` in `m`, where `m` is nothing but
/// these three.
fn number_between(m: &str, a: &str, b: &str) -> (r: Option<u64>)
    requires
        b@.len() > 0,
        !is_digit(b@[0], 10),
    ensures
        r matches Some(x) ==> m@ == a@ + decimal(x as nat) + b@,
        r is None ==> forall|x: u64| m@ != a@ + #[trigger] decimal(x as nat) + b@,
{
    let from: usize = chars_of(a).len();
    let found = number_at(m, from);
    let r = match found {
        Some(x) => {
            let mut whole = joined(a, decimal_of(x).as_str());
            whole.append(b);
            if same(whole.as_str(), m) {
                Some(x)
            } else {
                None
            }
        },
        None => None,
    };
    proof {
        if r is None {
            assert forall|x: u64| m@ != a@ + #[trigger] decimal(x as nat) + b@ by {
                if m@ == a@ + decimal(x as nat) + b@ {
                    number_stands(m@, a@, x, b@);
                }
            }
        }
    }
    r
}

/// The two numbers that stand between `a`, `b` and `c` in `m`, where `m` is
/// nothing but these five.
fn numbers_between(m: &str, a: &str, b: &str, c: &str) -> (r: Option<(u64, u64)>)
    requires
        b@.len() > 0,
        !is_digit(b@[0], 10),
        c@.len() > 0,
        !is_digit(c@[0], 10),
    ensures
        r matches Some(n) ==> m@ == a@ + decimal(n.0 as nat) + b@ + decimal(n.1 as nat) + c@,
        r is None ==> forall|x: u64, y: u64|
            m@ != a@ + #[trigger] decimal(x as nat) + b@ + #[trigger] decimal(y as nat) + c@,
{
    let from: usize = chars_of(a).len();
    let found = number_at(m, from);
    let r = match found {
        Some(x) => {
            let mut head = joined(a, decimal_of(x).as_str());
            head.append(b);
            match number_between(m, head.as_str(), c) {
                Some(y) => Some((x, y)),
                None => None,
            }
        },
        None => None,
    };
    proof {
        if r is None {
            assert forall|x: u64, y: u64|
                m@ != a@ + #[trigger] decimal(x as nat) + b@ + #[trigger] decimal(y as nat)
                    + c@ by {
                if m@ == a@ + decimal(x as nat) + b@ + decimal(y as nat) + c@ {
                    let behind = b@ + decimal(y as nat) + c@;
                    assert(m@ =~= a@ + decimal(x as nat) + behind);
                    number_stands(m@, a@, x, behind);
                    assert(found == Some(x));
                }
            }
        }
    }
    r
}

/// What stands between `a` and `b` in `m`, where `m` begins with the one and
/// ends with the other.
fn text_between(m: &str, a: &str, b: &str) -> (r: Option<String>)
    ensures
        r matches Some(x) ==> m@ == a@ + x@ + b@,
        r is None ==> forall|x: Seq<char>| m@ != #[trigger] (a@ + x) + b@,
{
    let v = chars_of(m);
    let (x, y) = (chars_of(a), chars_of(b));
    if starts_with(m, a) && ends_with(m, b) && v.len() - x.len() >= y.len() {
        let middle = string_of(&v, x.len(), v.len() - y.len());
        assert(m@ =~= a@ + middle@ + b@);
        return Some(middle);
    }
    proof {
        assert forall|x: Seq<char>| m@ != #[trigger] (a@ + x) + b@ by {
            let whole = a@ + x + b@;
            assert(a@ =~= whole.subrange(0, a@.len() as int));
            assert(b@ =~= whole.subrange(whole.len() - b@.len(), whole.len() as int));
        }
    }
    None
}

/// Whether a message is one of the mount's own refusals.
fn own_refusal(m: &str) -> (r: bool)
    ensures
        r == is_own_refusal(m@),
{
    proof {
        reveal_strlit(" (");
        reveal_strlit(" entries so far)");
        reveal_strlit(" bytes exceeds max-dirty-bytes budget");
        reveal_strlit(" bytes exceeds max-upload-bytes budget (");
        reveal_strlit(")");
        reveal_strlit(
            " bytes exceeds max-upload-bytes budget: in-flight streaming uploads hold all of it",
        );
        reveal_strlit(" bytes exceeds max-upload-bytes budget");
        reveal_strlit(" bytes at part size ");
        reveal_strlit("");
    }
    let limit = numbers_between(
        m,
        "directory exceeds rename-dir-limit ",
        " (",
        " entries so far)",
    );
    let dirty = number_between(m, "", " bytes exceeds max-dirty-bytes budget");
    let large = numbers_between(
        m,
        "write of ",
        " bytes exceeds max-upload-bytes budget (",
        ")",
    );
    let held = number_between(
        m,
        "write of ",
        " bytes exceeds max-upload-bytes budget: in-flight streaming uploads hold all of it",
    );
    let grown = number_between(m, "write of ", " bytes exceeds max-upload-bytes budget");
    let long = numbers_between(
        m,
        "streaming write exceeds S3 multipart limit of 10000 parts (",
        " bytes at part size ",
        ")",
    );
    let missing = text_between(m, "rename: source not found: ", "");
    let dir = text_between(
        m,
        "trash-dir must be a single path segment (no '/', '.' or '..'): got `",
        "`",
    );
    let bucket = text_between(
        m,
        "bucket `",
        "` does not exist at the configured endpoint/region",
    );
    let r = limit.is_some() || dirty.is_some() || large.is_some() || held.is_some()
        || grown.is_some() || long.is_some() || missing.is_some() || dir.is_some()
        || bucket.is_some();
    proof {
        let none = ""@;
        assert(none =~= Seq::<char>::empty());
        if let Some((limit, count)) = limit {
            assert(FsError::DirRenameLimit { limit, count }.text() == m@);
        }
        if let Some(bytes) = dirty {
            assert(none + decimal(bytes as nat) =~= decimal(bytes as nat));
            assert(FsError::DirtyTooLarge { bytes }.text() == m@);
        }
        if let Some((bytes, limit)) = large {
            assert(FsError::UploadTooLarge { bytes, limit }.text() == m@);
        }
        if let Some(bytes) = held {
            assert(FsError::UploadBudgetHeld { bytes }.text() == m@);
        }
        if let Some(bytes) = grown {
            assert(FsError::StreamBudgetHeld { bytes }.text() == m@);
        }
        if let Some((max_bytes, part_size)) = long {
            assert(FsError::StreamTooLong { max_bytes, part_size }.text() == m@);
        }
        if let Some(path) = missing {
            assert(FsError::RenameSourceMissing { path }.text() =~= m@);
        }
        if let Some(dir) = dir {
            assert(FsError::TrashDirInvalid { dir }.text() == m@);
        }
        if let Some(bucket) = bucket {
            assert(FsError::BucketMissing { bucket }.text() == m@);
        }
        if !r {
            assert forall|e: FsError| e.is_named_refusal() implies #[trigger] e.text() != m@ by {
                match e {
                    FsError::DirtyTooLarge { bytes } => {
                        assert(none + decimal(bytes as nat) =~= decimal(bytes as nat));
                    },
                    FsError::RenameSourceMissing { path } => {
                        assert("rename: source not found: "@ + path@ + none
                            =~= "rename: source not found: "@ + path@);
                    },
                    _ => {},
                }
            }
        }
    }
    r
}

/// What a chain of messages says of the outside: the mount's own refusals are
/// left empty, whatever numbers and names they hold.
pub open spec fn heard(messages: Seq<Seq<char>>) -> Seq<Seq<char>> {
    messages.map_values(
        |m: Seq<char>|
            if is_own_refusal(m) {
                Seq::empty()
            } else {
                m
            },
    )
}

/// A chain of messages speaks of something that may go away by itself: one of
/// the markers occurs in it, in either case, or the status of a server error.
/// What the mount itself refuses does not go away, and speaks of neither.
pub open spec fn is_retryable(messages: Seq<Seq<char>>) -> bool {
    let text = lower(join(heard(messages), ' '));
    any_occurs(retryable_markers(), text) || names_server_error(text)
}

fn speaks_of_passing(t: &str) -> (r: bool)
    ensures
        r == any_occurs(retryable_markers(), t@),
{
    let m0 = contains(t, "timeout");
    let m1 = contains(t, "timed out");
    let m2 = contains(t, "timedout");
    let m3 = contains(t, "connect");
    let m4 = contains(t, "connection");
    let m5 = contains(t, "network");
    let m6 = contains(t, "reset by peer");
    let m7 = contains(t, "broken pipe");
    let m8 = contains(t, "unreachable");
    let m9 = contains(t, "slow down");
    let m10 = contains(t, "throttl");
    let m11 = contains(t, "too many requests");
    let m12 = contains(t, "request rate limit");
    let m13 = contains(t, "service unavailable");
    let m14 = contains(t, "internal server error");
    proof {
        let l = retryable_markers();
        assert(l[0] == "timeout"@);
        assert(l[1] == "timed out"@);
        assert(l[2] == "timedout"@);
        assert(l[3] == "connect"@);
        assert(l[4] == "connection"@);
        assert(l[5] == "network"@);
        assert(l[6] == "reset by peer"@);
        assert(l[7] == "broken pipe"@);
        assert(l[8] == "unreachable"@);
        assert(l[9] == "slow down"@);
        assert(l[10] == "throttl"@);
        assert(l[11] == "too many requests"@);
        assert(l[12] == "request rate limit"@);
        assert(l[13] == "service unavailable"@);
        assert(l[14] == "internal server error"@);
    }
    m0 || m1 || m2 || m3 || m4 || m5 || m6 || m7 || m8 || m9 || m10 || m11 || m12 || m13 || m14
}

fn digit(c: char) -> (r: bool)
    ensures
        r == is_digit(c, 10),
{
    '0' <= c && c <= '9'
}

fn speaks_of_server_error(t: &str) -> (r: bool)
    ensures
        r == names_server_error(t@),
{
    let v = chars_of(t);
    let mut i: usize = 0;
    while i < v.len() && v.len() - i >= 4
        invariant
            v@ == t@,
            i <= v@.len(),
            forall|k: int| 0 <= k < i ==> !#[trigger] server_error_at(t@, k),
        decreases v@.len() - i,
    {
        if v[i] == ' ' && v[i + 1] == '5' && digit(v[i + 2]) && digit(v[i + 3]) && (v.len() - i == 4
            || !digit(v[i + 4])) {
            assert(server_error_at(t@, i as int));
            return true;
        }
        i += 1;
    }
    false
}

/// Whether a chain of messages is retryable.
pub fn is_retryable_chain(messages: &Vec<String>) -> (r: bool)
    ensures
        r == is_retryable(texts(messages@)),
{
    let mut kept: Vec<String> = Vec::new();
    let mut i: usize = 0;
    while i < messages.len()
        invariant
            i <= messages@.len(),
            texts(kept@) == heard(texts(messages@)).take(i as int),
        decreases messages@.len() - i,
    {
        let m = if own_refusal(messages[i].as_str()) {
            String::new()
        } else {
            messages[i].clone()
        };
        let ghost before = texts(kept@);
        assert(m@ =~= heard(texts(messages@))[i as int]);
        kept.push(m);
        assert(texts(kept@) =~= before.push(m@));
        assert(texts(kept@) =~= heard(texts(messages@)).take(i + 1));
        i += 1;
    }
    assert(texts(kept@) =~= heard(texts(messages@)));
    let text = join_of(&kept, ' ');
    let t = lower_of(text.as_str());
    speaks_of_passing(t.as_str()) || speaks_of_server_error(t.as_str())
}

/// Whether an error is worth another try: timeouts, connection and network
/// failures, throttling and server errors. Everything else is final, above all
/// what the mount itself refuses.
pub fn is_retryable_error(e: &anyhow::Error) -> (r: bool)
    ensures
        r == is_retryable(chain_messages(*e)),
{
    let messages = chain_of(e);
    is_retryable_chain(&messages)
}

/// What the mount itself refuses is final, whatever number or name the refusal
/// holds: it does not become a server error because a limit or a file is called
/// like one.
pub proof fn named_refusals_are_final(e: FsError)
    requires
        e.is_named_refusal(),
    ensures
        !is_retryable(seq![e.text()]),
{
    assert(is_own_refusal(e.text()));
    let text = lower(join(heard(seq![e.text()]), ' '));
    assert(text =~= Seq::<char>::empty());
    reveal_strlit("timeout");
    reveal_strlit("timed out");
    reveal_strlit("timedout");
    reveal_strlit("connect");
    reveal_strlit("connection");
    reveal_strlit("network");
    reveal_strlit("reset by peer");
    reveal_strlit("broken pipe");
    reveal_strlit("unreachable");
    reveal_strlit("slow down");
    reveal_strlit("throttl");
    reveal_strlit("too many requests");
    reveal_strlit("request rate limit");
    reveal_strlit("service unavailable");
    reveal_strlit("internal server error");
    let l = retryable_markers();
    assert forall|i: int| 0 <= i < l.len() implies !occurs_in(#[trigger] l[i], text) by {
        assert(l[i].len() > 0);
    }
}

/// Where none of its messages is a refusal of the mount's own, a chain counts
/// in full.
pub proof fn other_messages_count_in_full(messages: Seq<Seq<char>>)
    requires
        forall|i: int| 0 <= i < messages.len() ==> !is_own_refusal(#[trigger] messages[i]),
    ensures
        heard(messages) == messages,
{
    assert(heard(messages) =~= messages);
}

} // verus!
