//! Copying one object in parts, for objects too large to be copied at once.

use crate::error::{FsError, Step};
use crate::multipart::{
    below_part_count, cuttable, part_at, part_count, part_count_bounds, PartRange,
    UploadedPart,
};
use crate::ranges::{byte_range, range_header};
use crate::text::least;
use vstd::prelude::*;

verus! {

/// Objects of this size and above are copied in parts.
pub const MULTIPART_COPY_THRESHOLD: u64 = 5 * 1024 * 1024 * 1024;

/// The least size of a part that is not the last.
pub const MIN_PART_SIZE: u64 = 5 * 1024 * 1024;

/// What the store answered when asked to start a copy.
#[derive(Debug, PartialEq, Eq)]
pub enum CopyStart {
    /// Started, under this id where it gave one.
    Created { upload_id: Option<String> },
    /// Not started.
    Refused { cause: Vec<String> },
}

/// What the store answered when asked to copy one part.
#[derive(Debug, PartialEq, Eq)]
pub enum CopyReply {
    /// Copied; the tag of the part, empty where it gave none.
    Copied { etag: String },
    /// Not copied.
    Refused { cause: Vec<String> },
}

/// What is done after one part.
#[derive(Debug, PartialEq, Eq)]
pub enum CopyNext {
    /// Copy the next part.
    Continue,
    /// All parts are copied: put them together.
    Complete { parts: Vec<UploadedPart> },
    /// Abort the copy and fail with this error.
    Abort { error: FsError },
}

/// The id of a copy that was started.
pub fn copy_started(reply: CopyStart) -> (r: Result<String, FsError>)
    ensures
        r == (match reply {
            CopyStart::Created { upload_id: Some(id) } => Ok::<String, FsError>(id),
            CopyStart::Created { upload_id: None } => Err(FsError::NoCopyId),
            CopyStart::Refused { cause } => Err(FsError::Failed { step: Step::CreateCopy, cause }),
        }),
{
    match reply {
        CopyStart::Created { upload_id } => match upload_id {
            Some(id) => Ok(id),
            None => Err(FsError::NoCopyId),
        },
        CopyStart::Refused { cause } => Err(FsError::Failed { step: Step::CreateCopy, cause }),
    }
}

/// How a copy ends once its parts were to be put together. An error here means
/// that the copy is to be aborted.
pub fn copy_completed(refused: Option<Vec<String>>) -> (r: Result<(), FsError>)
    ensures
        r == (match refused {
            None => Ok::<(), FsError>(()),
            Some(cause) => Err(FsError::Failed { step: Step::CompleteCopy, cause }),
        }),
{
    match refused {
        None => Ok(()),
        Some(cause) => Err(FsError::Failed { step: Step::CompleteCopy, cause }),
    }
}

/// How many requests copy `size` bytes: one per part, and one where there is
/// nothing to copy.
pub open spec fn copy_count(size: nat, part: nat) -> nat {
    if part_count(size, part) == 0 {
        1
    } else {
        part_count(size, part)
    }
}

/// A copy under way.
#[derive(Debug)]
pub struct MultipartCopy {
    pub size: u64,
    pub part_size: u64,
    /// Parts copied so far.
    pub copied: u32,
    pub parts: Vec<UploadedPart>,
}

impl MultipartCopy {
    pub open spec fn wf(&self) -> bool {
        &&& cuttable(self.size, self.part_size)
        &&& self.copied < copy_count(self.size as nat, self.part_size as nat)
        &&& self.parts@.len() == self.copied
        &&& forall|i: int|
            0 <= i < self.parts@.len() ==> (#[trigger] self.parts@[i]).number == i + 1
    }

    /// The part that is copied next.
    pub open spec fn current(&self) -> PartRange {
        part_at(self.size as nat, self.part_size as nat, self.copied as nat)
    }

    /// A copy of `size` bytes in parts of the configured size, but no smaller
    /// than a part may be.
    pub fn new(size: u64, configured_part_size: u64) -> (r: Self)
        requires
            size <= i32::MAX * (if configured_part_size > MIN_PART_SIZE {
                configured_part_size
            } else {
                MIN_PART_SIZE
            }),
        ensures
            r.wf(),
            r.size == size,
            r.part_size == (if configured_part_size > MIN_PART_SIZE {
                configured_part_size
            } else {
                MIN_PART_SIZE
            }),
            r.copied == 0,
    {
        let part_size: u64 = if configured_part_size > MIN_PART_SIZE {
            configured_part_size
        } else {
            MIN_PART_SIZE
        };
        MultipartCopy { size, part_size, copied: 0, parts: Vec::new() }
    }

    proof fn current_fits(&self)
        requires
            self.wf(),
        ensures
            self.copied < i32::MAX,
            self.copied * self.part_size <= self.size,
            (self.copied + 1) * self.part_size == self.copied * self.part_size + self.part_size,
            self.current().number == self.copied + 1,
            self.current().start == self.copied * self.part_size,
            self.current().end == least((self.copied + 1) * self.part_size, self.size as int),
            self.current().end >= self.size <==> self.copied + 1 == copy_count(
                self.size as nat,
                self.part_size as nat,
            ),
    {
        let n = self.size as nat;
        let part = self.part_size as nat;
        let i = self.copied as nat;
        part_count_bounds(n, part);
        below_part_count(n, part, i);
        below_part_count(n, part, i + 1);
        assert((i + 1) * part == i * part + part) by (nonlinear_arith);
        if n == 0 {
            assert(i == 0);
            assert(0 * part == 0) by (nonlinear_arith);
        } else {
            assert(i < i32::MAX) by (nonlinear_arith)
                requires
                    i * part < n,
                    n <= i32::MAX * part,
            ;
        }
    }

    /// The number of the part that is copied next, and the range of its bytes.
    pub fn request(&self) -> (r: (i32, String))
        requires
            self.wf(),
        ensures
            r.0 == self.current().number,
            r.1@ == byte_range(self.current().start as nat, self.current().end as nat),
    {
        proof {
            self.current_fits();
        }
        let start: u64 = self.copied as u64 * self.part_size;
        let end: u64 = if self.size - start > self.part_size {
            start + self.part_size
        } else {
            self.size
        };
        (self.copied as i32 + 1, range_header(start, end))
    }

    /// What follows the answer to the current part.
    pub fn part_copied(&mut self, reply: CopyReply) -> (r: CopyNext)
        requires
            old(self).wf(),
        ensures
            reply matches CopyReply::Refused { cause } ==> r == (CopyNext::Abort {
                error: FsError::Failed { step: Step::CopyPart, cause },
            }),
            reply matches CopyReply::Copied { etag } ==> {
                let parts = old(self).parts@.push(
                    UploadedPart { number: old(self).current().number, etag },
                );
                if old(self).copied + 1 < copy_count(
                    old(self).size as nat,
                    old(self).part_size as nat,
                ) {
                    &&& r is Continue
                    &&& final(self).wf()
                    &&& final(self).size == old(self).size
                    &&& final(self).part_size == old(self).part_size
                    &&& final(self).copied == old(self).copied + 1
                    &&& final(self).parts@ == parts
                } else {
                    r is Complete && r->parts@ == parts
                }
            },
    {
        proof {
            self.current_fits();
        }
        let start: u64 = self.copied as u64 * self.part_size;
        let end: u64 = if self.size - start > self.part_size {
            start + self.part_size
        } else {
            self.size
        };
        match reply {
            CopyReply::Refused { cause } => CopyNext::Abort {
                error: FsError::Failed { step: Step::CopyPart, cause },
            },
            CopyReply::Copied { etag } => {
                self.parts.push(UploadedPart { number: self.copied as i32 + 1, etag });
                if end >= self.size {
                    let mut parts: Vec<UploadedPart> = Vec::new();
                    std::mem::swap(&mut parts, &mut self.parts);
                    CopyNext::Complete { parts }
                } else {
                    self.copied = self.copied + 1;
                    CopyNext::Continue
                }
            },
        }
    }
}

/// The requests of a copy cover the object from its first byte to its last,
/// each beginning where the one before ended.
pub proof fn copy_covers_the_object(size: nat, part: nat, i: nat)
    requires
        size <= u64::MAX,
        part > 0,
        i < copy_count(size, part),
        size <= i32::MAX * part,
    ensures
        part_at(size, part, 0).start == 0,
        i + 1 < copy_count(size, part) ==> part_at(size, part, i + 1).start == part_at(
            size,
            part,
            i,
        ).end,
        i + 1 == copy_count(size, part) ==> part_at(size, part, i).end == size,
{
    part_count_bounds(size, part);
    below_part_count(size, part, i);
    below_part_count(size, part, i + 1);
    assert((i + 1) * part == i * part + part) by (nonlinear_arith);
    assert(0 * part == 0) by (nonlinear_arith);
}

} // verus!
