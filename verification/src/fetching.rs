//! Fetching a range of an object from the store: what is asked for, and what
//! the answers mean.

use crate::block_read::{capped_sum, range_of};
use crate::error::{FsError, Step};
use crate::metrics::Metrics;
use crate::ranges::{byte_range, range_header};
use crate::text::{contains, occurs_in};
use vstd::prelude::*;
use vstd::slice::{slice_subrange, slice_to_vec};
use vstd::utf8::*;

verus! {

/// The header for `len` bytes from `offset`: open-ended where all of the
/// object is wanted.
pub open spec fn wanted_range(offset: nat, len: nat) -> Seq<char> {
    if offset == 0 && len == usize::MAX {
        "bytes=0-"@
    } else {
        byte_range(offset, capped_sum(offset, len))
    }
}

/// The header for `len` bytes from `offset`; the request is counted.
pub fn get_range(offset: u64, len: usize, m: &mut Metrics) -> (r: String)
    ensures
        r@ == wanted_range(offset as nat, len as nat),
        *final(m) == (Metrics { s3_gets: old(m).s3_gets.wrapping_add(1), ..*old(m) }),
{
    m.s3_gets = m.s3_gets.wrapping_add(1);
    if offset == 0 && len == usize::MAX {
        "bytes=0-".to_owned()
    } else {
        range_header(offset, offset.saturating_add(len as u64))
    }
}

/// Bytes as text, with a replacement character for what is not text.
pub uninterp spec fn lossy_text(bytes: Seq<u8>) -> Seq<char>;

/// `String::from_utf8_lossy`: depends on the bytes alone, and is the text
/// itself where the bytes are valid UTF-8.
#[verifier::external_body]
pub(crate) fn lossy_of(bytes: &[u8]) -> (r: String)
    ensures
        r@ == lossy_text(bytes@),
        valid_utf8(bytes@) ==> r@ == decode_utf8(bytes@),
{
    String::from_utf8_lossy(bytes).into_owned()
}

/// The store says that there is no such object.
pub fn is_s3_not_found(status: Option<u16>) -> (r: bool)
    ensures
        r == (status == Some(404u16)),
{
    match status {
        Some(s) => s == 404,
        None => false,
    }
}

/// The store says that the range lies behind the end of the object: by its
/// status, or by a bad request whose body says so.
pub open spec fn says_invalid_range(status: Option<u16>, body: Seq<char>) -> bool {
    status == Some(416u16) || (status == Some(400u16) && occurs_in("InvalidRange"@, body))
}

/// The store says that the range lies behind the end of the object, from its
/// status and the text of its body.
pub fn is_invalid_range_text(status: Option<u16>, body: &str) -> (r: bool)
    ensures
        r == says_invalid_range(status, body@),
{
    match status {
        Some(s) => {
            if s == 416 {
                true
            } else if s == 400 {
                contains(body, "InvalidRange")
            } else {
                false
            }
        },
        None => false,
    }
}

/// The store says that the range lies behind the end of the object.
pub fn is_s3_invalid_range(status: Option<u16>, body: &[u8]) -> (r: bool)
    ensures
        r == says_invalid_range(status, lossy_text(body@)),
{
    let text = lossy_of(body);
    is_invalid_range_text(status, text.as_str())
}

/// How a request for a range ended.
#[derive(Debug, PartialEq, Eq)]
pub enum GetReply {
    /// All bytes are here.
    Body { bytes: Vec<u8> },
    /// The range lies behind the end of the object.
    BehindEnd,
    /// The request failed.
    Refused { cause: Vec<String> },
    /// The body broke off.
    BodyFailed { cause: Vec<String> },
    /// The body took longer than it may.
    TimedOut,
}

/// The counters after a range did not come.
pub open spec fn get_error_counted(m: Metrics) -> Metrics {
    Metrics {
        s3_errors: m.s3_errors.wrapping_add(1),
        s3_get_errors: m.s3_get_errors.wrapping_add(1),
        ..m
    }
}

/// The bytes of a range; none behind the end of the object.
pub fn got_range(len: usize, reply: GetReply, m: &mut Metrics) -> (r: Result<Vec<u8>, FsError>)
    ensures
        reply matches GetReply::Body { bytes } ==> {
            &&& r == Ok::<Vec<u8>, FsError>(bytes)
            &&& *final(m) == (Metrics {
                download_bytes_total: old(m).download_bytes_total.wrapping_add(bytes@.len() as u64),
                ..*old(m)
            })
        },
        reply is BehindEnd ==> r is Ok && r->Ok_0@.len() == 0 && *final(m) == *old(m),
        reply matches GetReply::Refused { cause } ==> r == Err::<Vec<u8>, FsError>(
            FsError::Failed { step: Step::Get, cause },
        ) && *final(m) == get_error_counted(*old(m)),
        reply matches GetReply::BodyFailed { cause } ==> r == Err::<Vec<u8>, FsError>(
            FsError::Failed { step: Step::GetBody, cause },
        ) && *final(m) == get_error_counted(*old(m)),
        reply is TimedOut ==> r == Err::<Vec<u8>, FsError>(
            FsError::BodyStalled { len: len as u64 },
        ) && *final(m) == get_error_counted(*old(m)),
{
    match reply {
        GetReply::Body { bytes } => {
            m.download_bytes_total = m.download_bytes_total.wrapping_add(bytes.len() as u64);
            Ok(bytes)
        },
        GetReply::BehindEnd => Ok(Vec::new()),
        GetReply::Refused { cause } => {
            m.s3_errors = m.s3_errors.wrapping_add(1);
            m.s3_get_errors = m.s3_get_errors.wrapping_add(1);
            Err(FsError::Failed { step: Step::Get, cause })
        },
        GetReply::BodyFailed { cause } => {
            m.s3_errors = m.s3_errors.wrapping_add(1);
            m.s3_get_errors = m.s3_get_errors.wrapping_add(1);
            Err(FsError::Failed { step: Step::GetBody, cause })
        },
        GetReply::TimedOut => {
            m.s3_errors = m.s3_errors.wrapping_add(1);
            m.s3_get_errors = m.s3_get_errors.wrapping_add(1);
            Err(FsError::BodyStalled { len: len as u64 })
        },
    }
}

/// The bytes `offset..offset + len` of something held here, as far as there
/// are any.
pub fn slice_at(bytes: &[u8], offset: u64, len: usize) -> (r: Vec<u8>)
    ensures
        r@ == range_of(bytes@, offset as nat, (offset + len) as nat),
{
    let n: usize = bytes.len();
    let from: usize = if offset < n as u64 {
        offset as usize
    } else {
        n
    };
    let to: usize = if len < n - from {
        from + len
    } else {
        n
    };
    let r = slice_to_vec(slice_subrange(bytes, from, to));
    assert(r@ =~= range_of(bytes@, offset as nat, (offset + len) as nat));
    r
}

} // verus!
