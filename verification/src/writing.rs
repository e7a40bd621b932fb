//! Writing whole objects and making directories.

use crate::crc64::{checksum, crc64ecma};
use crate::error::{FsError, Step};
use crate::hashes::{base64_text, md5_digest, optional_md5};
use crate::metrics::Metrics;
use crate::multipart::{check_crc64_response, checked, crc_counted};
use crate::config::MULTIPART_THRESHOLD;
use crate::paths::{as_directory, directory_path, is_root, is_root_path};
use crate::trash::SystemTrashMatch;
use vstd::prelude::*;

verus! {

/// How an object is uploaded.
#[derive(Clone, Copy, Debug, PartialEq, Eq, Structural)]
pub enum UploadRoute {
    /// In one request.
    Single,
    /// In parts.
    Multipart,
}

/// How an object of that size is uploaded.
pub fn upload_route(size: u64) -> (r: UploadRoute)
    ensures
        r == (if size > MULTIPART_THRESHOLD {
            UploadRoute::Multipart
        } else {
            UploadRoute::Single
        }),
{
    if size > MULTIPART_THRESHOLD {
        UploadRoute::Multipart
    } else {
        UploadRoute::Single
    }
}

/// What goes along with an object that is uploaded in one request: the
/// checksum to compare with the store's, and the digest to send, each where it
/// is wanted.
pub fn put_checks(data: &[u8], verify_crc64: bool, content_md5: bool) -> (r: (
    Option<u64>,
    Option<String>,
))
    ensures
        r.0 == (if verify_crc64 {
            Some(checksum(data@))
        } else {
            None
        }),
        r.1 is Some <==> content_md5,
        r.1 is Some ==> r.1->0@ == base64_text(md5_digest(data@)),
{
    let crc = if verify_crc64 {
        Some(crc64ecma(data))
    } else {
        None
    };
    (crc, optional_md5(content_md5, data))
}

/// What the store answered to an object that was uploaded in one request.
#[derive(Debug, PartialEq, Eq)]
pub enum PutReply {
    /// Stored; the checksum it reported, where it did.
    Stored { crc: Option<u64> },
    /// Not stored.
    Refused { cause: Vec<String> },
}

/// How an upload in one request ended; a failure, and a wrong checksum, is
/// counted.
pub fn put_done(expected_crc: Option<u64>, reply: PutReply, m: &mut Metrics) -> (r: Result<
    (),
    FsError,
>)
    ensures
        reply matches PutReply::Refused { cause } ==> {
            &&& r == Err::<(), FsError>(FsError::Failed { step: Step::Put, cause })
            &&& *final(m) == (Metrics {
                s3_errors: old(m).s3_errors.wrapping_add(1),
                s3_put_errors: old(m).s3_put_errors.wrapping_add(1),
                ..*old(m)
            })
        },
        reply matches PutReply::Stored { crc } ==> {
            &&& r == (match expected_crc {
                Some(expected) => checked(expected, crc),
                None => Ok(()),
            })
            &&& *final(m) == (match expected_crc {
                Some(expected) => crc_counted(*old(m), expected, crc),
                None => *old(m),
            })
        },
{
    match reply {
        PutReply::Refused { cause } => {
            m.s3_errors = m.s3_errors.wrapping_add(1);
            m.s3_put_errors = m.s3_put_errors.wrapping_add(1);
            Err(FsError::Failed { step: Step::Put, cause })
        },
        PutReply::Stored { crc } => match expected_crc {
            Some(expected) => check_crc64_response(crc, expected, m),
            None => Ok(()),
        },
    }
}

/// What making a directory amounts to.
#[derive(Debug, PartialEq, Eq)]
pub enum MkdirPlan {
    /// Nothing: it is one of the recycle bin's own directories.
    InBin,
    /// An empty object is written at this path, which ends in a slash.
    Marker { path: String },
}

/// What making a directory amounts to. The root is always there.
pub fn plan_mkdir(read_only: bool, path: &str, bin: &Option<SystemTrashMatch>) -> (r: Result<
    MkdirPlan,
    FsError,
>)
    ensures
        read_only ==> r == Err::<MkdirPlan, FsError>(FsError::ReadOnly),
        !read_only && is_root(path@) ==> r == Err::<MkdirPlan, FsError>(FsError::RootExists),
        !read_only && !is_root(path@) && *bin is Some && bin->0 is Dir ==> r == Ok::<
            MkdirPlan,
            FsError,
        >(MkdirPlan::InBin),
        !read_only && !is_root(path@) && !(*bin is Some && bin->0 is Dir) ==> {
            &&& r is Ok
            &&& r->Ok_0 is Marker
            &&& r->Ok_0->path@ == as_directory(path@)
        },
{
    if read_only {
        return Err(FsError::ReadOnly);
    }
    if is_root_path(path) {
        return Err(FsError::RootExists);
    }
    match bin {
        Some(SystemTrashMatch::Dir { .. }) => {
            return Ok(MkdirPlan::InBin);
        },
        _ => {},
    }
    Ok(MkdirPlan::Marker { path: directory_path(path) })
}

} // verus!
