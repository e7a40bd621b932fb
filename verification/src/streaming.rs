//! An upload whose bytes arrive bit by bit: they are cut in parts as they
//! come, so that the object is never held as a whole.

use crate::budget::{permit_source, permit_units, UploadBudget, BUDGET_UNIT};
use crate::crc64::{checksum, Crc64Ecma};
use crate::error::{FsError, Step};
use crate::hashes::{base64_text, md5_digest, optional_md5};
use crate::metrics::Metrics;
use crate::multipart::{
    answers_all, checked, completion_verified, crc_counted, in_order,
    parts_are_put_together_in_order, sort_parts, upload_completed, CompleteReply, Completion,
    Joined, PartOutcome, UploadedPart, Verdict,
};
use tokio::sync::{OwnedSemaphorePermit, Semaphore};
use vstd::prelude::*;
use vstd::seq_lib::lemma_flatten_concat;

verus! {

/// How many parts an upload may have.
pub const MAX_MULTIPART_PARTS: u64 = 10_000;

/// A part that is ready to be sent.
#[derive(Debug, PartialEq, Eq)]
pub struct Part {
    pub number: i32,
    pub chunk: Vec<u8>,
    /// The digest to send along, where one is wanted.
    pub md5: Option<String>,
}

impl Part {
    /// The part has this number and these bytes, and a digest where one is
    /// wanted.
    pub open spec fn is(&self, number: int, chunk: Seq<u8>, with_md5: bool) -> bool {
        &&& self.number == number
        &&& self.chunk@ == chunk
        &&& self.md5 is Some <==> with_md5
        &&& self.md5 is Some ==> self.md5->0@ == base64_text(md5_digest(chunk))
    }
}

/// The most bytes that a stream may have, with parts of that size.
pub open spec fn stream_limit(part_size: nat) -> nat {
    if part_size * MAX_MULTIPART_PARTS > u64::MAX {
        u64::MAX as nat
    } else {
        part_size * MAX_MULTIPART_PARTS as nat
    }
}

/// Units that `bytes` bytes of a stream take.
pub open spec fn stream_units(bytes: nat) -> nat {
    ((bytes + BUDGET_UNIT - 1) / BUDGET_UNIT as int) as nat
}

/// Units that some permits hold together.
pub open spec fn units_held(permits: Seq<OwnedSemaphorePermit>) -> nat
    decreases permits.len(),
{
    if permits.len() == 0 {
        0
    } else {
        units_held(permits.drop_last()) + permit_units(permits.last())
    }
}

/// The `i`-th full part of `all`.
pub open spec fn full_part(all: Seq<u8>, part_size: nat, i: int) -> Seq<u8> {
    all.subrange(i * part_size, (i + 1) * part_size)
}

/// How many full parts there are in `all`.
pub open spec fn full_parts(all: Seq<u8>, part_size: nat) -> int {
    all.len() as int / part_size as int
}

/// An upload whose bytes arrive bit by bit.
pub struct StreamingUpload {
    pub key: String,
    pub upload_id: String,
    /// The number of the next part.
    pub next_part: i32,
    /// The parts that the store has taken.
    pub parts: Vec<UploadedPart>,
    /// Bytes that do not make a part yet.
    pub pending: Vec<u8>,
    /// All bytes that came.
    pub total_bytes: u64,
    pub hasher: Crc64Ecma,
    pub verify_crc64: bool,
    pub content_md5: bool,
    pub part_size: usize,
    /// Units of the upload budget that are held.
    pub budget_units: u64,
    /// The permits for them; they are given back with the handle.
    pub budget_permits: Vec<OwnedSemaphorePermit>,
    /// The last failure of a part, where there was one.
    pub failure: Option<FsError>,
    /// The upload has ended: nothing is left to abort.
    pub aborted: bool,
}

impl StreamingUpload {
    pub open spec fn wf(&self) -> bool {
        &&& self.part_size > 0
        &&& self.pending@.len() < self.part_size
        &&& self.next_part >= 1
        &&& self.total_bytes == (self.next_part - 1) * self.part_size + self.pending@.len()
        &&& self.total_bytes <= stream_limit(self.part_size as nat)
    }

    /// The units that are counted are held, and held of that semaphore.
    pub open spec fn holds(&self, source: Semaphore) -> bool {
        &&& self.budget_units == units_held(self.budget_permits@)
        &&& forall|i: int|
            0 <= i < self.budget_permits@.len() ==> permit_source(
                #[trigger] self.budget_permits@[i],
            ) == source
    }

    /// What the mount knows of the upload is unchanged.
    pub open spec fn same_upload(&self, before: &Self) -> bool {
        &&& self.key == before.key
        &&& self.upload_id == before.upload_id
        &&& self.verify_crc64 == before.verify_crc64
        &&& self.content_md5 == before.content_md5
        &&& self.part_size == before.part_size
    }

    /// An upload that has just been started.
    pub fn begin(
        key: String,
        upload_id: String,
        part_size: usize,
        verify_crc64: bool,
        content_md5: bool,
    ) -> (r: Self)
        requires
            part_size > 0,
        ensures
            r.wf(),
            r.key == key,
            r.upload_id == upload_id,
            r.part_size == part_size,
            r.verify_crc64 == verify_crc64,
            r.content_md5 == content_md5,
            r.next_part == 1,
            r.total_bytes == 0,
            r.parts@.len() == 0,
            r.pending@.len() == 0,
            r.hasher.has_read(Seq::empty()),
            r.budget_units == 0,
            r.budget_permits@.len() == 0,
            forall|source: Semaphore| #[trigger] r.holds(source),
            r.failure is None,
            !r.aborted,
    {
        assert(0 * part_size == 0) by (nonlinear_arith);
        StreamingUpload {
            key,
            upload_id,
            next_part: 1,
            parts: Vec::new(),
            pending: Vec::new(),
            total_bytes: 0,
            hasher: Crc64Ecma::new(),
            verify_crc64,
            content_md5,
            part_size,
            budget_units: 0,
            budget_permits: Vec::new(),
            failure: None,
            aborted: false,
        }
    }

    /// The key that this upload writes to. It never changes, so that a rename
    /// in the meantime can be noticed.
    pub fn key(&self) -> (r: &str)
        ensures
            r@ == self.key@,
    {
        self.key.as_str()
    }

    /// With `len` more bytes, as many as an upload may have, all of them can
    /// still be counted.
    pub open spec fn countable(&self, len: nat) -> bool {
        self.total_bytes + len <= self.part_size * MAX_MULTIPART_PARTS ==> self.total_bytes + len
            <= u64::MAX
    }

    /// `len` more bytes are too many.
    pub open spec fn too_long(&self, len: nat) -> bool {
        self.total_bytes + len > stream_limit(self.part_size as nat)
    }

    /// Further units that `len` more bytes take from a budget.
    pub open spec fn further_units(&self, len: nat, limited: bool) -> int {
        if limited && len > 0 && stream_units(self.total_bytes as nat + len) > self.budget_units {
            stream_units(self.total_bytes as nat + len) - self.budget_units
        } else {
            0
        }
    }

    fn limit(&self) -> (r: u64)
        ensures
            r == stream_limit(self.part_size as nat),
    {
        let wide: u128 = self.part_size as u128 * MAX_MULTIPART_PARTS as u128;
        if wide > u64::MAX as u128 {
            u64::MAX
        } else {
            wide as u64
        }
    }

    /// Further units that `len` more bytes take.
    pub fn units_needed(&self, len: usize, limited: bool) -> (r: u64)
        requires
            self.total_bytes + len <= u64::MAX,
        ensures
            r == self.further_units(len as nat, limited),
    {
        if !limited || len == 0 {
            return 0;
        }
        let total: u64 = self.total_bytes + len as u64;
        let unit: u64 = BUDGET_UNIT as u64;
        let units: u64 = if total % unit == 0 {
            total / unit
        } else {
            total / unit + 1
        };
        if units > self.budget_units {
            units - self.budget_units
        } else {
            0
        }
    }

    /// `self` is `before` with `data` taken in, and `out` the parts that are
    /// ready now.
    pub open spec fn took(&self, before: &Self, data: Seq<u8>, out: Seq<Part>) -> bool {
        let all = before.pending@ + data;
        let size = before.part_size as nat;
        let n = full_parts(all, size);
        &&& self.same_upload(before)
        &&& self.parts@ == before.parts@
        &&& self.failure == before.failure
        &&& self.aborted == before.aborted
        &&& self.total_bytes == before.total_bytes + data.len()
        &&& self.next_part == before.next_part + n
        &&& self.pending@ == all.skip(n * size)
        &&& out.len() == n
        &&& forall|i: int|
            0 <= i < n ==> (#[trigger] out[i]).is(
                before.next_part + i,
                full_part(all, size, i),
                before.content_md5,
            )
        &&& forall|fed: Seq<u8>| #[trigger]
            before.hasher.has_read(fed) ==> self.hasher.has_read(fed + data)
    }

    /// `self` is `before` after a write of `data` that ended so: it was taken in,
    /// or refused, and then nothing changed.
    pub open spec fn wrote(
        &self,
        before: &Self,
        data: Seq<u8>,
        r: Result<Vec<Part>, FsError>,
    ) -> bool {
        match r {
            Ok(parts) => self.took(before, data, parts@),
            Err(_) => *self == *before,
        }
    }

    /// Takes in more bytes, from what was to be had of the budget. Too many
    /// bytes, and bytes for which units are needed and none were to be had,
    /// are refused, and nothing changes.
    pub fn accept(
        &mut self,
        data: &[u8],
        limited: bool,
        permit: Option<OwnedSemaphorePermit>,
    ) -> (r: Result<Vec<Part>, FsError>)
        requires
            old(self).wf(),
            old(self).countable(data@.len()),
        ensures
            final(self).wf(),
            final(self).wrote(old(self), data@, r),
            old(self).total_bytes + data@.len() > old(self).part_size * MAX_MULTIPART_PARTS
                ==> r is Err,
            old(self).too_long(data@.len()) ==> r == Err::<Vec<Part>, FsError>(
                FsError::StreamTooLong {
                    max_bytes: stream_limit(old(self).part_size as nat) as u64,
                    part_size: old(self).part_size as u64,
                },
            ),
            !old(self).too_long(data@.len()) && old(self).further_units(data@.len(), limited) > 0
                && permit is None ==> r == Err::<Vec<Part>, FsError>(
                FsError::StreamBudgetHeld {
                    bytes: (old(self).total_bytes + data@.len()) as u64,
                },
            ),
            !old(self).too_long(data@.len()) && (old(self).further_units(data@.len(), limited) == 0
                || permit is Some) ==> {
                &&& r is Ok
                &&& final(self).budget_units == old(self).budget_units + old(self).further_units(
                    data@.len(),
                    limited,
                )
                &&& final(self).budget_permits@ == (if old(self).further_units(
                    data@.len(),
                    limited,
                ) > 0 {
                    old(self).budget_permits@.push(permit->0)
                } else {
                    old(self).budget_permits@
                })
            },
    {
        let ghost was = *self;
        let max_bytes: u64 = self.limit();
        let sum: u128 = self.total_bytes as u128 + data.len() as u128;
        if sum > max_bytes as u128 {
            return Err(
                FsError::StreamTooLong { max_bytes, part_size: self.part_size as u64 },
            );
        }
        let further: u64 = self.units_needed(data.len(), limited);
        let new_total: u64 = self.total_bytes + data.len() as u64;
        if further > 0 {
            match permit {
                None => {
                    return Err(FsError::StreamBudgetHeld { bytes: new_total });
                },
                Some(p) => {
                    self.budget_units = self.budget_units + further;
                    self.budget_permits.push(p);
                },
            }
        }
        self.hasher.update(data);
        self.total_bytes = new_total;
        self.pending.extend_from_slice(data);
        let ghost all = was.pending@ + data@;
        let ghost size = was.part_size as nat;
        assert(self.pending@ =~= all);
        let mut out: Vec<Part> = Vec::new();
        proof {
            parts_fit(&was, data@.len());
            assert(all.skip(0) =~= all);
            assert(0 * size == 0) by (nonlinear_arith);
        }
        while self.pending.len() >= self.part_size
            invariant
                self.part_size == size,
                size > 0,
                was.wf(),
                self.same_upload(&was),
                self.parts@ == was.parts@,
                self.failure == was.failure,
                self.aborted == was.aborted,
                self.total_bytes == new_total,
                new_total == was.total_bytes + data@.len(),
                forall|fed: Seq<u8>| #[trigger]
                    was.hasher.has_read(fed) ==> self.hasher.has_read(fed + data@),
                self.budget_units == was.budget_units + further,
                self.budget_permits@ == (if further > 0 {
                    was.budget_permits@.push(permit->0)
                } else {
                    was.budget_permits@
                }),
                all == was.pending@ + data@,
                out@.len() * size <= all.len(),
                self.pending@ == all.skip((out@.len() * size) as int),
                self.next_part == was.next_part + out@.len(),
                was.next_part + all.len() / size <= 10_001,
                forall|i: int|
                    0 <= i < out@.len() ==> (#[trigger] out@[i]).is(
                        was.next_part + i,
                        full_part(all, size, i),
                        was.content_md5,
                    ),
            decreases self.pending@.len(),
        {
            let ghost n = out@.len() as int;
            let rest = self.pending.split_off(self.part_size);
            let mut chunk: Vec<u8> = rest;
            std::mem::swap(&mut chunk, &mut self.pending);
            proof {
                assert((n + 1) * size == n * size + size) by (nonlinear_arith);
                assert(chunk@ =~= full_part(all, size, n));
                assert(self.pending@ =~= all.skip((n + 1) * size as int));
                assert(n + 1 <= all.len() / size) by (nonlinear_arith)
                    requires
                        (n + 1) * size <= all.len(),
                        size > 0,
                ;
            }
            let md5 = optional_md5(self.content_md5, chunk.as_slice());
            let number: i32 = self.next_part;
            self.next_part = self.next_part + 1;
            out.push(Part { number, chunk, md5 });
        }
        proof {
            let n = out@.len() as int;
            assert(n == all.len() as int / size as int) by (nonlinear_arith)
                requires
                    n * size <= all.len(),
                    all.len() - n * size < size,
                    size > 0,
                    n >= 0,
            ;
            assert((self.next_part - 1) * size == (was.next_part - 1) * size + n * size)
                by (nonlinear_arith)
                requires
                    self.next_part == was.next_part + n,
            ;
        }
        Ok(out)
    }

    /// Takes in more bytes, and units of the budget for them, without waiting:
    /// where further units are needed and there are as many in all, the budget
    /// is asked for exactly those. They are kept with those held before, and
    /// what comes of it depends on who else holds units.
    pub fn write(&mut self, data: &[u8], budget: &UploadBudget) -> (r: Result<Vec<Part>, FsError>)
        requires
            old(self).wf(),
            old(self).countable(data@.len()),
            budget.wf(),
        ensures
            final(self).wf(),
            final(self).wrote(old(self), data@, r),
            old(self).total_bytes + data@.len() > old(self).part_size * MAX_MULTIPART_PARTS
                ==> r is Err,
            old(self).too_long(data@.len()) ==> r == Err::<Vec<Part>, FsError>(
                FsError::StreamTooLong {
                    max_bytes: stream_limit(old(self).part_size as nat) as u64,
                    part_size: old(self).part_size as u64,
                },
            ),
            !old(self).too_long(data@.len()) && old(self).further_units(
                data@.len(),
                budget.limited(),
            ) == 0 ==> r is Ok && final(self).budget_permits@ == old(self).budget_permits@,
            !old(self).too_long(data@.len()) && old(self).further_units(
                data@.len(),
                budget.limited(),
            ) > budget.all_units() ==> r is Err,
            !old(self).too_long(data@.len()) && 0 < old(self).further_units(
                data@.len(),
                budget.limited(),
            ) <= budget.all_units() ==> exists|answer: Option<OwnedSemaphorePermit>|
                {
                    &&& #[trigger] budget.answers(
                        old(self).further_units(data@.len(), budget.limited()) as u32,
                        answer,
                    )
                    &&& r is Ok <==> answer is Some
                    &&& answer matches Some(permit) ==> {
                        &&& final(self).budget_permits@ == old(self).budget_permits@.push(permit)
                        &&& permit_units(permit) == old(self).further_units(
                            data@.len(),
                            budget.limited(),
                        )
                        &&& permit_source(permit) == budget.source()
                    }
                },
            !old(self).too_long(data@.len()) && r is Ok ==> final(self).budget_units == old(
                self,
            ).budget_units + old(self).further_units(data@.len(), budget.limited()),
            !old(self).too_long(data@.len()) && r is Err ==> r == Err::<Vec<Part>, FsError>(
                FsError::StreamBudgetHeld {
                    bytes: (old(self).total_bytes + data@.len()) as u64,
                },
            ),
            old(self).holds(budget.source()) ==> final(self).holds(budget.source()),
    {
        let limited = budget.is_limited();
        let max_bytes: u64 = self.limit();
        let sum: u128 = self.total_bytes as u128 + data.len() as u128;
        if sum > max_bytes as u128 {
            return self.accept(data, limited, None);
        }
        let further: u64 = self.units_needed(data.len(), limited);
        let permit = if further == 0 || further > usize::MAX as u64 {
            None
        } else {
            budget.grow(further as usize)
        };
        let ghost before = self.budget_permits@;
        let r = self.accept(data, limited, permit);
        proof {
            if r is Ok && further > 0 {
                assert(self.budget_permits@.drop_last() =~= before);
            }
        }
        r
    }

    /// The bytes that are left when no more will come, as the last part.
    pub fn flush(&mut self) -> (r: Option<Part>)
        requires
            old(self).wf(),
        ensures
            r is Some <==> old(self).pending@.len() > 0,
            r is Some ==> {
                &&& r->0.is(
                    old(self).next_part as int,
                    old(self).pending@,
                    old(self).content_md5,
                )
                &&& r->0.number <= MAX_MULTIPART_PARTS
                &&& final(self).next_part == old(self).next_part + 1
                &&& final(self).pending@.len() == 0
                &&& *final(self) == (StreamingUpload {
                    next_part: final(self).next_part,
                    pending: final(self).pending,
                    ..*old(self)
                })
            },
            r is None ==> *final(self) == *old(self),
    {
        if self.pending.len() == 0 {
            return None;
        }
        proof {
            let done = self.next_part - 1;
            let size = self.part_size as int;
            let left = self.pending@.len() as int;
            assert(done < 10_000) by (nonlinear_arith)
                requires
                    done * size + left <= size * 10_000,
                    left > 0,
                    size > 0,
            ;
        }
        let mut chunk: Vec<u8> = Vec::new();
        std::mem::swap(&mut chunk, &mut self.pending);
        let number: i32 = self.next_part;
        self.next_part = self.next_part + 1;
        let md5 = optional_md5(self.content_md5, chunk.as_slice());
        Some(Part { number, chunk, md5 })
    }

    /// Takes note of how the sending of a part ended. Of several failures the
    /// last one is kept.
    pub fn part_done(&mut self, outcome: PartOutcome)
        ensures
            *final(self) == (StreamingUpload {
                parts: final(self).parts,
                failure: final(self).failure,
                ..*old(self)
            }),
            outcome matches PartOutcome::Sent { number, etag } ==> final(self).parts@
                == old(self).parts@.push(UploadedPart { number, etag }) && final(self).failure
                == old(self).failure,
            outcome matches PartOutcome::Failed { error } ==> final(self).failure == Some(error)
                && final(self).parts@ == old(self).parts@,
            outcome matches PartOutcome::Lost { detail } ==> final(self).failure == Some(
                FsError::StreamTaskPanicked { detail },
            ) && final(self).parts@ == old(self).parts@,
    {
        match outcome {
            PartOutcome::Sent { number, etag } => {
                self.parts.push(UploadedPart { number, etag });
            },
            PartOutcome::Failed { error } => {
                self.failure = Some(error);
            },
            PartOutcome::Lost { detail } => {
                self.failure = Some(FsError::StreamTaskPanicked { detail });
            },
        }
    }

    /// What is done once every part has ended: one failure aborts the upload,
    /// none lets the parts be put together in the order of their numbers.
    pub fn join(&mut self) -> (r: Joined)
        ensures
            old(self).failure matches Some(e) ==> r == (Joined::Abort { error: e }) && final(self).aborted,
            old(self).failure is None ==> {
                &&& r is Complete
                &&& in_order(r->Complete_parts@)
                &&& r->Complete_parts@.to_multiset() == old(self).parts@.to_multiset()
                &&& r->expected_crc is Some <==> old(self).verify_crc64
                &&& forall|fed: Seq<u8>| #[trigger]
                    old(self).hasher.has_read(fed) && old(self).verify_crc64 ==> r->expected_crc
                        == Some(checksum(fed))
                &&& final(self).aborted == old(self).aborted
            },
            *final(self) == (StreamingUpload {
                parts: final(self).parts,
                failure: None,
                aborted: final(self).aborted,
                ..*old(self)
            }),
            final(self).parts@ == (if old(self).failure is Some {
                old(self).parts@
            } else {
                Seq::empty()
            }),
    {
        let mut failure: Option<FsError> = None;
        std::mem::swap(&mut failure, &mut self.failure);
        match failure {
            Some(error) => {
                self.aborted = true;
                Joined::Abort { error }
            },
            None => {
                let mut parts: Vec<UploadedPart> = Vec::new();
                std::mem::swap(&mut parts, &mut self.parts);
                let expected_crc = if self.verify_crc64 {
                    Some(self.hasher.finalize())
                } else {
                    None
                };
                Joined::Complete { parts: sort_parts(parts), expected_crc }
            },
        }
    }

    /// The counters after the object was uploaded: one object, of all its
    /// bytes.
    pub open spec fn upload_counted(&self, m: Metrics) -> Metrics {
        Metrics {
            s3_puts: m.s3_puts.wrapping_add(1),
            upload_bytes_total: m.upload_bytes_total.wrapping_add(self.total_bytes),
            ..m
        }
    }

    fn count_upload(&self, m: &mut Metrics)
        ensures
            *final(m) == self.upload_counted(*old(m)),
    {
        m.s3_puts = m.s3_puts.wrapping_add(1);
        m.upload_bytes_total = m.upload_bytes_total.wrapping_add(self.total_bytes);
    }

    /// What the completion request leads to. Once the store has put the object
    /// together there is nothing left to abort, whatever its checksum is.
    pub fn completed(
        &mut self,
        expected_crc: Option<u64>,
        reply: CompleteReply,
        m: &mut Metrics,
    ) -> (r: Completion)
        ensures
            reply matches CompleteReply::Refused { cause } ==> {
                &&& r == (Completion::Verify { cause })
                &&& *final(self) == *old(self)
                &&& *final(m) == *old(m)
            },
            reply matches CompleteReply::Completed { crc } ==> {
                let result = match expected_crc {
                    Some(expected) => checked(expected, crc),
                    None => Ok(()),
                };
                let compared = match expected_crc {
                    Some(expected) => crc_counted(*old(m), expected, crc),
                    None => *old(m),
                };
                &&& r == (Completion::Finished { result })
                &&& *final(self) == (StreamingUpload { aborted: true, ..*old(self) })
                &&& *final(m) == (if result is Ok {
                    old(self).upload_counted(compared)
                } else {
                    compared
                })
            },
    {
        match upload_completed(expected_crc, reply, m) {
            Completion::Verify { cause } => Completion::Verify { cause },
            Completion::Finished { result } => {
                self.aborted = true;
                if result.is_ok() {
                    self.count_upload(m);
                }
                Completion::Finished { result }
            },
        }
    }

    /// A refused completion may still have taken place: an object of exactly
    /// the size of the stream means that it has. Anything else is a failure.
    pub fn verified(&mut self, cause: Vec<String>, same_size: Option<bool>, m: &mut Metrics) -> (r:
        Verdict)
        ensures
            *final(self) == (StreamingUpload { aborted: true, ..*old(self) }),
            same_size == Some(true) ==> r is Finished && *final(m) == old(self).upload_counted(
                *old(m),
            ),
            same_size != Some(true) ==> r == (Verdict::Abort {
                error: FsError::Failed { step: Step::CompleteUpload, cause },
            }) && *final(m) == *old(m),
    {
        self.aborted = true;
        match completion_verified(cause, same_size) {
            Verdict::Finished => {
                self.count_upload(m);
                Verdict::Finished
            },
            Verdict::Abort { error } => Verdict::Abort { error },
        }
    }

    /// Gives the upload up. Whether there is anything to abort: a handle that
    /// is dropped before its upload has ended asks for it, once.
    pub fn abandon(&mut self) -> (r: bool)
        ensures
            r == !old(self).aborted,
            *final(self) == (StreamingUpload { aborted: true, ..*old(self) }),
    {
        let open = !self.aborted;
        self.aborted = true;
        open
    }
}

/// The full parts of what came, and what is left of it, are what came, in
/// order and without a gap.
pub proof fn stream_parts_reassemble(all: Seq<u8>, part_size: nat)
    requires
        part_size > 0,
    ensures
        Seq::new(full_parts(all, part_size) as nat, |i: int| full_part(all, part_size, i)).flatten()
            + all.skip(full_parts(all, part_size) * part_size) == all,
{
    let n = full_parts(all, part_size);
    assert(0 <= n && n * part_size <= all.len()) by (nonlinear_arith)
        requires
            n == all.len() as int / part_size as int,
            part_size > 0,
    ;
    first_parts(all, part_size, n as nat);
    let v = Seq::new(n as nat, |i: int| full_part(all, part_size, i));
    assert(v.flatten() + all.skip(n * part_size) =~= all);
}

proof fn first_parts(all: Seq<u8>, part_size: nat, n: nat)
    requires
        part_size > 0,
        n * part_size <= all.len(),
    ensures
        Seq::new(n, |i: int| full_part(all, part_size, i)).flatten() == all.take(
            (n * part_size) as int,
        ),
    decreases n,
{
    let v = Seq::new(n, |i: int| full_part(all, part_size, i));
    if n == 0 {
        assert(0 * part_size == 0) by (nonlinear_arith);
        assert(v =~= Seq::<Seq<u8>>::empty());
        assert(v.flatten() =~= all.take(0));
    } else {
        let k = (n - 1) as nat;
        let w = Seq::new(k, |i: int| full_part(all, part_size, i));
        assert((k + 1) * part_size == k * part_size + part_size) by (nonlinear_arith);
        first_parts(all, part_size, k);
        assert(v =~= w.push(full_part(all, part_size, k as int)));
        w.lemma_flatten_push(full_part(all, part_size, k as int));
        assert(v.flatten() =~= all.take((n * part_size) as int));
    }
}

/// The bytes of some parts, part by part.
pub open spec fn chunks(parts: Seq<Part>) -> Seq<Seq<u8>> {
    parts.map_values(|p: Part| p.chunk@)
}

spec fn fed_in_turn(
    states: Seq<StreamingUpload>,
    fed: Seq<Seq<u8>>,
    out: Seq<Seq<Part>>,
) -> bool {
    &&& states.len() == fed.len() + 1
    &&& out.len() == fed.len()
    &&& forall|i: int|
        #![trigger fed[i]]
        0 <= i < fed.len() ==> states[i + 1].took(&states[i], fed[i], out[i])
}

/// Nothing has come yet.
pub open spec fn untouched(upload: StreamingUpload) -> bool {
    &&& upload.wf()
    &&& upload.next_part == 1
    &&& upload.pending@.len() == 0
    &&& upload.hasher.has_read(Seq::empty())
}

proof fn keeps_what_was_fed(
    states: Seq<StreamingUpload>,
    fed: Seq<Seq<u8>>,
    out: Seq<Seq<Part>>,
)
    requires
        fed_in_turn(states, fed, out),
        untouched(states[0]),
    ensures
        states.last().same_upload(&states[0]),
        chunks(out.flatten()).flatten() + states.last().pending@ == fed.flatten(),
        states.last().pending@.len() < states[0].part_size,
        states.last().next_part == out.flatten().len() + 1,
        states.last().total_bytes == fed.flatten().len(),
        states.last().hasher.has_read(fed.flatten()),
        forall|k: int|
            0 <= k < out.flatten().len() ==> (#[trigger] out.flatten()[k]).number == k + 1
                && out.flatten()[k].chunk@.len() == states[0].part_size,
    decreases fed.len(),
{
    let size = states[0].part_size as nat;
    if fed.len() == 0 {
        assert(chunks(out.flatten()) =~= Seq::<Seq<u8>>::empty());
        assert(chunks(out.flatten()).flatten() + states.last().pending@ =~= fed.flatten());
    } else {
        let n = fed.len() - 1;
        let (states0, fed0, out0) = (states.drop_last(), fed.drop_last(), out.drop_last());
        assert forall|i: int| #![trigger fed0[i]] 0 <= i < fed0.len() implies states0[i + 1].took(
            &states0[i],
            fed0[i],
            out0[i],
        ) by {
            assert(fed0[i] == fed[i]);
        }
        keeps_what_was_fed(states0, fed0, out0);
        let before = states0.last();
        let (data, parts) = (fed[n], out[n]);
        assert(states[n + 1].took(&states[n], fed[n], out[n]));
        assert(fed =~= fed0.push(data));
        assert(out =~= out0.push(parts));
        fed0.lemma_flatten_push(data);
        out0.lemma_flatten_push(parts);
        let all = before.pending@ + data;
        let k = full_parts(all, size);
        assert(k >= 0 && k * size <= all.len() && all.len() - k * size < size)
            by (nonlinear_arith)
            requires
                k == all.len() as int / size as int,
                size > 0,
        ;
        let cut = Seq::new(k as nat, |i: int| full_part(all, size, i));
        assert forall|i: int| 0 <= i < k implies chunks(parts)[i] == cut[i] by {
            assert(parts[i].chunk@ == full_part(all, size, i));
        }
        assert(chunks(parts) =~= cut);
        stream_parts_reassemble(all, size);
        let sent0 = out0.flatten();
        assert(chunks(out.flatten()) =~= chunks(sent0) + cut);
        lemma_flatten_concat(chunks(sent0), cut);
        assert(chunks(out.flatten()).flatten() + states.last().pending@ =~= chunks(
            sent0,
        ).flatten() + (cut.flatten() + all.skip(k * size)));
        assert(chunks(sent0).flatten() + all =~= fed0.flatten() + data);
        assert forall|i: int| 0 <= i < out.flatten().len() implies (
        #[trigger] out.flatten()[i]).number == i + 1 && out.flatten()[i].chunk@.len() == size by {
            if i < sent0.len() {
                assert(out.flatten()[i] == sent0[i]);
            } else {
                let j = i - sent0.len();
                assert(out.flatten()[i] == parts[j]);
                assert(parts[j].is(
                    before.next_part + j,
                    full_part(all, size, j),
                    before.content_md5,
                ));
                assert(0 <= j * size && (j + 1) * size <= k * size && (j + 1) * size - j * size
                    == size) by (nonlinear_arith)
                    requires
                        0 <= j < k,
                        size > 0,
                ;
            }
        }
    }
}

/// Writes one after the other, the refused ones too: `states[i + 1]` is
/// `states[i]` after a write of `data[i]` that ended with `results[i]`.
pub open spec fn written_in_turn(
    states: Seq<StreamingUpload>,
    data: Seq<Seq<u8>>,
    results: Seq<Result<Vec<Part>, FsError>>,
) -> bool {
    &&& states.len() == data.len() + 1
    &&& results.len() == data.len()
    &&& forall|i: int| 0 <= i < states.len() ==> (#[trigger] states[i]).wf()
    &&& forall|i: int|
        #![trigger data[i]]
        0 <= i < data.len() ==> states[i + 1].wrote(&states[i], data[i], results[i])
}

/// What each write took: its bytes, or nothing where it was refused.
pub open spec fn taken_each(
    data: Seq<Seq<u8>>,
    results: Seq<Result<Vec<Part>, FsError>>,
) -> Seq<Seq<u8>> {
    Seq::new(
        data.len(),
        |i: int|
            if results[i] is Ok {
                data[i]
            } else {
                Seq::empty()
            },
    )
}

/// The parts that were ready after each write.
pub open spec fn ready_each(results: Seq<Result<Vec<Part>, FsError>>) -> Seq<Seq<Part>> {
    Seq::new(
        results.len(),
        |i: int|
            match results[i] {
                Ok(parts) => parts@,
                Err(_) => Seq::empty(),
            },
    )
}

/// All bytes of the writes that were not refused.
pub open spec fn bytes_taken(
    data: Seq<Seq<u8>>,
    results: Seq<Result<Vec<Part>, FsError>>,
) -> Seq<u8> {
    taken_each(data, results).flatten()
}

/// All parts that were ready, in order.
pub open spec fn parts_ready(results: Seq<Result<Vec<Part>, FsError>>) -> Seq<Part> {
    ready_each(results).flatten()
}

proof fn refusals_take_nothing(
    states: Seq<StreamingUpload>,
    data: Seq<Seq<u8>>,
    results: Seq<Result<Vec<Part>, FsError>>,
)
    requires
        written_in_turn(states, data, results),
    ensures
        fed_in_turn(states, taken_each(data, results), ready_each(results)),
{
    let (fed, out) = (taken_each(data, results), ready_each(results));
    assert forall|i: int| #![trigger fed[i]] 0 <= i < fed.len() implies states[i + 1].took(
        &states[i],
        fed[i],
        out[i],
    ) by {
        assert(states[i + 1].wrote(&states[i], data[i], results[i]));
        if results[i] is Err {
            let before = states[i];
            assert(before.wf());
            let all = before.pending@ + fed[i];
            let size = before.part_size as nat;
            assert(all =~= before.pending@);
            assert(full_parts(all, size) == 0) by (nonlinear_arith)
                requires
                    full_parts(all, size) == all.len() as int / size as int,
                    all.len() < size,
            ;
            assert(0 * size == 0) by (nonlinear_arith);
            assert(all.skip(0) =~= before.pending@);
            assert forall|read: Seq<u8>| #[trigger]
                before.hasher.has_read(read) implies before.hasher.has_read(read + fed[i]) by {
                assert(read + fed[i] =~= read);
            }
        }
    }
}

/// However the bytes of a stream are cut in writes, and whichever of them are
/// refused: the parts of all writes, one after the other, and what is left are
/// all bytes that were taken, in order. The parts are numbered from one and
/// full, what is left is less than a part, there are no more bytes than an
/// upload may have, and the checksum is that of all of them.
pub proof fn streams_keep_what_was_written(
    states: Seq<StreamingUpload>,
    data: Seq<Seq<u8>>,
    results: Seq<Result<Vec<Part>, FsError>>,
)
    requires
        written_in_turn(states, data, results),
        untouched(states[0]),
    ensures
        states.last().same_upload(&states[0]),
        chunks(parts_ready(results)).flatten() + states.last().pending@ == bytes_taken(
            data,
            results,
        ),
        states.last().pending@.len() < states[0].part_size,
        states.last().next_part == parts_ready(results).len() + 1,
        states.last().total_bytes == bytes_taken(data, results).len(),
        bytes_taken(data, results).len() <= states[0].part_size * MAX_MULTIPART_PARTS,
        states.last().hasher.has_read(bytes_taken(data, results)),
        forall|k: int|
            0 <= k < parts_ready(results).len() ==> (#[trigger] parts_ready(results)[k]).number == k
                + 1 && parts_ready(results)[k].chunk@.len() == states[0].part_size,
{
    refusals_take_nothing(states, data, results);
    keeps_what_was_fed(states, taken_each(data, results), ready_each(results));
    assert(states.last().wf());
}

/// All parts that were sent: those of the writes, and what was left at the
/// end.
pub open spec fn all_sent(
    results: Seq<Result<Vec<Part>, FsError>>,
    rest: Option<Part>,
) -> Seq<Part> {
    match rest {
        Some(part) => parts_ready(results).push(part),
        None => parts_ready(results),
    }
}

/// What the store makes of the parts of a stream that it is told to put
/// together: the bytes sent under their numbers, in the order in which they
/// are named.
pub open spec fn stream_object(parts: Seq<UploadedPart>, sent: Seq<Part>) -> Seq<u8> {
    Seq::new(parts.len(), |i: int| sent[parts[i].number - 1].chunk@).flatten()
}

/// A stream whose parts were all stored, in whatever order the answers came, is
/// put together to exactly the bytes that were taken.
pub proof fn streams_make_up_the_object(
    states: Seq<StreamingUpload>,
    data: Seq<Seq<u8>>,
    results: Seq<Result<Vec<Part>, FsError>>,
    rest: Option<Part>,
    answers: Seq<UploadedPart>,
    sorted: Seq<UploadedPart>,
)
    requires
        written_in_turn(states, data, results),
        untouched(states[0]),
        rest is Some <==> states.last().pending@.len() > 0,
        rest matches Some(part) ==> part.is(
            states.last().next_part as int,
            states.last().pending@,
            states.last().content_md5,
        ),
        answers_all(answers, all_sent(results, rest).len()),
        in_order(sorted),
        sorted.to_multiset() == answers.to_multiset(),
    ensures
        forall|k: int|
            0 <= k < all_sent(results, rest).len() ==> (#[trigger] all_sent(results, rest)[k]).number
                == k + 1,
        stream_object(sorted, all_sent(results, rest)) == bytes_taken(data, results),
{
    let sent = all_sent(results, rest);
    let ready = parts_ready(results);
    streams_keep_what_was_written(states, data, results);
    parts_are_put_together_in_order(answers, sorted, sent.len());
    assert forall|k: int| 0 <= k < sent.len() implies (#[trigger] sent[k]).number == k + 1 by {
        if k < ready.len() {
            assert(sent[k] == ready[k]);
        }
    }
    assert(Seq::new(sorted.len(), |i: int| sent[sorted[i].number - 1].chunk@) =~= chunks(sent));
    match rest {
        Some(part) => {
            assert(chunks(sent) =~= chunks(ready).push(part.chunk@));
            chunks(ready).lemma_flatten_push(part.chunk@);
        },
        None => {
            assert(chunks(ready).flatten() + states.last().pending@ =~= chunks(ready).flatten());
        },
    }
}

proof fn parts_fit(before: &StreamingUpload, len: nat)
    requires
        before.wf(),
        !before.too_long(len),
    ensures
        before.next_part + (before.pending@.len() + len) / before.part_size as nat <= 10_001,
{
    let size = before.part_size as int;
    let done = before.next_part - 1;
    let x = before.pending@.len() + len;
    let k = x as int / size;
    assert(done + k <= 10_000) by (nonlinear_arith)
        requires
            done * size + x <= size * 10_000,
            k == x as int / size,
            size > 0,
            x >= 0,
    ;
}

} // verus!
