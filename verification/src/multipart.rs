//! Uploads in parts: how an object is cut, what is done with the answers, and
//! when an upload counts as done.

use crate::crc64::{checksum, Crc64Ecma};
use crate::digits::{number_of, parse_number};
use crate::error::{FsError, Step};
use crate::metrics::Metrics;
use crate::text::least;
use vstd::prelude::*;
use vstd::seq_lib::to_multiset_insert;
use vstd::slice::{slice_subrange, slice_to_vec};

verus! {

/// One part of an object: its number, counted from one, and the bytes
/// `start..end` that it holds.
#[derive(Clone, Copy, Debug, PartialEq, Eq, Structural)]
pub struct PartRange {
    pub number: i32,
    pub start: u64,
    pub end: u64,
}

/// How many parts of `part` bytes hold `size` bytes.
pub open spec fn part_count(size: nat, part: nat) -> nat {
    ((size + part - 1) / part as int) as nat
}

/// The `i`-th part, counted from zero.
pub open spec fn part_at(size: nat, part: nat, i: nat) -> PartRange {
    PartRange {
        number: (i + 1) as i32,
        start: (i * part) as u64,
        end: least(((i + 1) * part) as int, size as int) as u64,
    }
}

/// Cutting `size` bytes in parts of `part` bytes stays within the numbers that
/// a part can have.
pub open spec fn cuttable(size: u64, part: u64) -> bool {
    part > 0 && size <= i32::MAX * part
}

pub proof fn part_count_bounds(size: nat, part: nat)
    requires
        part > 0,
    ensures
        part_count(size, part) * part >= size,
        size > 0 ==> (part_count(size, part) - 1) * part < size,
        size == 0 ==> part_count(size, part) == 0,
        part_count(size, part) == 0 ==> size == 0,
{
    let n = part_count(size, part) as int;
    let x = size + part - 1;
    assert(n * part <= x < (n + 1) * part && n >= 0) by (nonlinear_arith)
        requires
            n == x / part as int,
            part > 0,
            x >= 0,
    ;
    assert((n + 1) * part == n * part + part) by (nonlinear_arith);
    assert((n - 1) * part == n * part - part) by (nonlinear_arith);
    if n == 0 {
        assert(n * part == 0) by (nonlinear_arith)
            requires
                n == 0,
        ;
    }
    if size == 0 {
        assert(n == 0) by (nonlinear_arith)
            requires
                n * part <= part - 1,
                n >= 0,
                part > 0,
        ;
    }
}

pub proof fn below_part_count(size: nat, part: nat, i: nat)
    requires
        part > 0,
    ensures
        i < part_count(size, part) <==> i * part < size,
{
    part_count_bounds(size, part);
    let n = part_count(size, part);
    if i < n {
        assert(i * part <= (n - 1) * part) by (nonlinear_arith)
            requires
                i <= n - 1,
                part > 0,
        ;
    } else {
        assert(i * part >= n * part) by (nonlinear_arith)
            requires
                i >= n,
        ;
    }
}

/// The bytes of part `i` of `data`.
pub open spec fn part_bytes(data: Seq<u8>, part: nat, i: nat) -> Seq<u8> {
    data.subrange((i * part) as int, least(((i + 1) * part) as int, data.len() as int))
}

/// The parts of `data`, in order.
pub open spec fn parts_of(data: Seq<u8>, part: nat) -> Seq<Seq<u8>> {
    Seq::new(part_count(data.len(), part), |i: int| part_bytes(data, part, i as nat))
}

proof fn parts_up_to(data: Seq<u8>, part: nat, n: nat)
    requires
        part > 0,
        n <= part_count(data.len(), part),
    ensures
        parts_of(data, part).take(n as int).flatten() == data.take(
            least((n * part) as int, data.len() as int),
        ),
    decreases n,
{
    let all = parts_of(data, part);
    if n == 0 {
        assert(all.take(0) =~= Seq::<Seq<u8>>::empty());
        assert(0 * part == 0) by (nonlinear_arith);
        assert(all.take(0).flatten() =~= data.take(0));
    } else {
        let k = (n - 1) as nat;
        parts_up_to(data, part, k);
        below_part_count(data.len(), part, k);
        assert(all.take(n as int) =~= all.take(k as int).push(all[k as int]));
        all.take(k as int).lemma_flatten_push(all[k as int]);
        assert((k + 1) * part == k * part + part) by (nonlinear_arith);
        assert(all.take(n as int).flatten() =~= data.take(
            least((n * part) as int, data.len() as int),
        ));
    }
}

/// The parts of an object put one after the other are the object, and every
/// part but the last is full.
pub proof fn parts_reassemble(data: Seq<u8>, part: nat)
    requires
        part > 0,
    ensures
        parts_of(data, part).flatten() == data,
        forall|i: int|
            0 <= i < parts_of(data, part).len() ==> 0 < (#[trigger] parts_of(data, part)[i]).len()
                <= part,
        forall|i: int|
            0 <= i < parts_of(data, part).len() - 1 ==> (#[trigger] parts_of(data, part)[i]).len()
                == part,
{
    let all = parts_of(data, part);
    let n = part_count(data.len(), part);
    parts_up_to(data, part, n);
    part_count_bounds(data.len(), part);
    assert(all.take(n as int) =~= all);
    assert(data.take(data.len() as int) =~= data);
    assert forall|i: int| 0 <= i < all.len() implies 0 < (#[trigger] all[i]).len() <= part by {
        below_part_count(data.len(), part, i as nat);
        assert((i + 1) * part == i * part + part) by (nonlinear_arith);
    }
    assert forall|i: int| 0 <= i < all.len() - 1 implies (#[trigger] all[i]).len() == part by {
        below_part_count(data.len(), part, (i + 1) as nat);
        assert((i + 1) * part == i * part + part) by (nonlinear_arith);
    }
}

/// A part that the store has taken, and the tag it answered with.
#[derive(Debug, PartialEq, Eq)]
pub struct UploadedPart {
    pub number: i32,
    pub etag: String,
}

/// How the sending of one part ended.
#[derive(Debug, PartialEq, Eq)]
pub enum PartOutcome {
    /// The store took it.
    Sent { number: i32, etag: String },
    /// The request failed.
    Failed { error: FsError },
    /// No answer: the task that sent it is gone.
    Lost { detail: String },
}

/// The parts are in the order of their numbers.
pub open spec fn in_order(parts: Seq<UploadedPart>) -> bool {
    forall|i: int, j: int|
        0 <= i <= j < parts.len() ==> (#[trigger] parts[i]).number <= (#[trigger] parts[j]).number
}

/// Puts parts in the order of their numbers.
pub fn sort_parts(parts: Vec<UploadedPart>) -> (r: Vec<UploadedPart>)
    ensures
        in_order(r@),
        r@.to_multiset() == parts@.to_multiset(),
{
    let mut rest = parts;
    let mut out: Vec<UploadedPart> = Vec::new();
    let ghost all = parts@.to_multiset();
    proof {
        out@.to_multiset_ensures();
        assert(rest@.to_multiset().add(out@.to_multiset()) =~= all);
    }
    while rest.len() > 0
        invariant
            in_order(out@),
            rest@.to_multiset().add(out@.to_multiset()) == all,
        decreases rest@.len(),
    {
        let ghost rest0 = rest@;
        let ghost out0 = out@;
        let part = rest.remove(0);
        proof {
            assert(rest0 =~= seq![part] + rest@);
            assert(rest0 =~= rest@.insert(0, part));
            to_multiset_insert(rest@, 0, part);
        }
        let mut at: usize = out.len();
        while at > 0 && out[at - 1].number > part.number
            invariant
                at <= out@.len(),
                out@ == out0,
                forall|k: int| at <= k < out@.len() ==> (#[trigger] out@[k]).number > part.number,
            decreases at,
        {
            at -= 1;
        }
        out.insert(at, part);
        proof {
            to_multiset_insert(out0, at as int, part);
            assert(out@ =~= out0.insert(at as int, part));
            assert(rest@.to_multiset().add(out@.to_multiset()) =~= all);
            assert forall|i: int, j: int| 0 <= i <= j < out@.len() implies (
            #[trigger] out@[i]).number <= (#[trigger] out@[j]).number by {
                let a = if i < at {
                    i
                } else {
                    i - 1
                };
                let b = if j < at {
                    j
                } else {
                    j - 1
                };
                if i < at {
                    assert(out@[i] == out0[i]);
                } else if i > at {
                    assert(out@[i] == out0[i - 1]);
                }
                if j < at {
                    assert(out@[j] == out0[j]);
                } else if j > at {
                    assert(out@[j] == out0[j - 1]);
                }
                if i < at && j == at {
                    assert(out0[i].number <= out0[at - 1].number);
                }
            }
        }
    }
    proof {
        rest@.to_multiset_ensures();
        assert(rest@.to_multiset() =~= vstd::multiset::Multiset::<UploadedPart>::empty());
        assert(out@.to_multiset() =~= all);
    }
    out
}

/// The checksum that the store reported, from its header: none where the
/// header is missing or no number.
pub fn reported_crc64(header: Option<&str>) -> (r: Option<u64>)
    ensures
        r == (match header {
            Some(value) => number_of(value@, 10),
            None => None,
        }),
{
    match header {
        Some(value) => parse_number(value, 10),
        None => None,
    }
}

/// Compares the checksum that the store reported with the one computed here.
pub open spec fn checked(expected: u64, reported: Option<u64>) -> Result<(), FsError> {
    match reported {
        Some(actual) => if actual == expected {
            Ok(())
        } else {
            Err(FsError::CrcMismatch { expected, actual })
        },
        None => Err(FsError::CrcMissing),
    }
}

/// The counters after a checksum was compared: a mismatch counts, a missing
/// one does not.
pub open spec fn crc_counted(m: Metrics, expected: u64, reported: Option<u64>) -> Metrics {
    if reported is Some && reported->0 != expected {
        Metrics { crc64_mismatches: m.crc64_mismatches.wrapping_add(1), ..m }
    } else {
        m
    }
}

/// Compares the checksum that the store reported with the one computed here,
/// and counts a mismatch.
pub fn check_crc64_response(reported: Option<u64>, expected: u64, m: &mut Metrics) -> (r: Result<
    (),
    FsError,
>)
    ensures
        r == checked(expected, reported),
        *final(m) == crc_counted(*old(m), expected, reported),
{
    match reported {
        Some(actual) => {
            if actual == expected {
                Ok(())
            } else {
                m.crc64_mismatches = m.crc64_mismatches.wrapping_add(1);
                Err(FsError::CrcMismatch { expected, actual })
            }
        },
        None => Err(FsError::CrcMissing),
    }
}

/// What the store answered when asked to start an upload.
#[derive(Debug, PartialEq, Eq)]
pub enum CreateReply {
    /// Started, under this id where it gave one.
    Created { upload_id: Option<String> },
    /// Not started.
    Refused { cause: Vec<String> },
}

/// The counters after an upload could not be started.
pub open spec fn create_counted(m: Metrics, reply: CreateReply) -> Metrics {
    match reply {
        CreateReply::Created { .. } => m,
        CreateReply::Refused { .. } => Metrics {
            s3_errors: m.s3_errors.wrapping_add(1),
            s3_multipart_errors: m.s3_multipart_errors.wrapping_add(1),
            ..m
        },
    }
}

/// The id of an upload that was started; a refusal is counted.
pub fn upload_started(reply: CreateReply, m: &mut Metrics) -> (r: Result<String, FsError>)
    ensures
        r == (match reply {
            CreateReply::Created { upload_id: Some(id) } => Ok::<String, FsError>(id),
            CreateReply::Created { upload_id: None } => Err(FsError::NoUploadId),
            CreateReply::Refused { cause } => Err(
                FsError::Failed { step: Step::CreateUpload, cause },
            ),
        }),
        *final(m) == create_counted(*old(m), reply),
{
    match reply {
        CreateReply::Created { upload_id } => match upload_id {
            Some(id) => Ok(id),
            None => Err(FsError::NoUploadId),
        },
        CreateReply::Refused { cause } => {
            m.s3_errors = m.s3_errors.wrapping_add(1);
            m.s3_multipart_errors = m.s3_multipart_errors.wrapping_add(1);
            Err(FsError::Failed { step: Step::CreateUpload, cause })
        },
    }
}

/// What is done once no part is under way any more.
#[derive(Debug, PartialEq, Eq)]
pub enum Joined {
    /// Ask the store to put these parts together; the whole object has this
    /// checksum, where one was computed.
    Complete { parts: Vec<UploadedPart>, expected_crc: Option<u64> },
    /// Abort the upload and fail with this error.
    Abort { error: FsError },
}

/// What the store answered when asked to put the parts together.
#[derive(Debug, PartialEq, Eq)]
pub enum CompleteReply {
    /// Done; the checksum it reported, where it did.
    Completed { crc: Option<u64> },
    /// It failed, or no answer came.
    Refused { cause: Vec<String> },
}

/// What is done after the store was asked to put the parts together.
#[derive(Debug, PartialEq, Eq)]
pub enum Completion {
    /// The upload has ended, well or badly; nothing is to be aborted.
    Finished { result: Result<(), FsError> },
    /// The object may be there all the same: ask for its size.
    Verify { cause: Vec<String> },
}

/// What is done after the object's size was asked for.
#[derive(Debug, PartialEq, Eq)]
pub enum Verdict {
    /// The object is there in full: the upload has succeeded.
    Finished,
    /// Abort the upload and fail with this error.
    Abort { error: FsError },
}

/// What a completion request leads to. An object that was put together but
/// whose checksum is wrong stays: there is nothing left to abort.
pub fn upload_completed(expected_crc: Option<u64>, reply: CompleteReply, m: &mut Metrics) -> (r:
    Completion)
    ensures
        r == (match reply {
            CompleteReply::Completed { crc } => Completion::Finished {
                result: match expected_crc {
                    Some(expected) => checked(expected, crc),
                    None => Ok(()),
                },
            },
            CompleteReply::Refused { cause } => Completion::Verify { cause },
        }),
        *final(m) == (match (reply, expected_crc) {
            (CompleteReply::Completed { crc }, Some(expected)) => crc_counted(
                *old(m),
                expected,
                crc,
            ),
            _ => *old(m),
        }),
{
    match reply {
        CompleteReply::Completed { crc } => match expected_crc {
            Some(expected) => Completion::Finished {
                result: check_crc64_response(crc, expected, m),
            },
            None => Completion::Finished { result: Ok(()) },
        },
        CompleteReply::Refused { cause } => Completion::Verify { cause },
    }
}

/// A refused completion may still have taken place: an object of exactly the
/// uploaded size means that it has. Anything else is a failure.
pub fn completion_verified(cause: Vec<String>, same_size: Option<bool>) -> (r: Verdict)
    ensures
        r == (if same_size == Some(true) {
            Verdict::Finished
        } else {
            Verdict::Abort { error: FsError::Failed { step: Step::CompleteUpload, cause } }
        }),
{
    match same_size {
        Some(true) => Verdict::Finished,
        _ => Verdict::Abort { error: FsError::Failed { step: Step::CompleteUpload, cause } },
    }
}

/// Whether an object has the expected size, from what the store says of it;
/// nothing is known where the request failed or no length was given. The
/// request counts whether or not it is answered.
pub fn head_reports_size(length: Option<i64>, expected_bytes: u64, m: &mut Metrics) -> (r: Option<
    bool,
>)
    ensures
        r == (match length {
            None => None::<bool>,
            Some(n) => Some(n as u64 == expected_bytes),
        }),
        *final(m) == (Metrics { s3_heads: old(m).s3_heads.wrapping_add(1), ..*old(m) }),
{
    m.s3_heads = m.s3_heads.wrapping_add(1);
    match length {
        None => None,
        Some(n) => Some(n as u64 == expected_bytes),
    }
}

/// A multipart upload of an object whose size is known: cuts it in parts and
/// gathers the answers.
#[derive(Debug)]
pub struct MultipartWrite {
    pub size: u64,
    pub part_size: u64,
    /// Parts handed out so far.
    pub handed: u32,
    /// Bytes handed out so far.
    pub offset: u64,
    /// The checksum of the bytes handed out, where one is wanted.
    pub hasher: Option<Crc64Ecma>,
    /// The parts that the store has taken, in the order of its answers.
    pub parts: Vec<UploadedPart>,
    /// The last failure, where there was one.
    pub failure: Option<FsError>,
}

impl MultipartWrite {
    pub open spec fn wf(&self) -> bool {
        &&& cuttable(self.size, self.part_size)
        &&& self.handed <= part_count(self.size as nat, self.part_size as nat)
        &&& self.offset == least(self.handed * self.part_size, self.size as int)
    }

    /// The checksum kept, where one is, is that of the first bytes of `data`
    /// up to where the parts handed out end.
    pub open spec fn hashed(&self, data: Seq<u8>) -> bool {
        &&& data.len() == self.size
        &&& self.hasher is Some ==> self.hasher->0.has_read(data.take(self.offset as int))
    }

    /// Nothing but the parts handed out, and the checksum, has changed.
    pub open spec fn same_answers(&self, before: &Self) -> bool {
        &&& self.size == before.size
        &&& self.part_size == before.part_size
        &&& self.parts@ == before.parts@
        &&& self.failure == before.failure
    }

    /// Nothing but the answers has changed.
    pub open spec fn same_progress(&self, before: &Self) -> bool {
        &&& self.size == before.size
        &&& self.part_size == before.part_size
        &&& self.handed == before.handed
        &&& self.offset == before.offset
        &&& self.hasher == before.hasher
    }

    pub fn new(size: u64, part_size: u64, verify_crc64: bool) -> (r: Self)
        requires
            cuttable(size, part_size),
        ensures
            r.wf(),
            r.size == size,
            r.part_size == part_size,
            r.handed == 0,
            r.parts@.len() == 0,
            r.failure is None,
            r.hasher is Some <==> verify_crc64,
            r.hasher is Some ==> r.hasher->0.has_read(Seq::empty()),
            forall|data: Seq<u8>| data.len() == size ==> #[trigger] r.hashed(data),
    {
        assert(0 * part_size == 0) by (nonlinear_arith);
        let hasher = if verify_crc64 {
            Some(Crc64Ecma::new())
        } else {
            None
        };
        assert(forall|data: Seq<u8>| #[trigger] data.take(0) =~= Seq::<u8>::empty());
        MultipartWrite {
            size,
            part_size,
            handed: 0,
            offset: 0,
            hasher,
            parts: Vec::new(),
            failure: None,
        }
    }

    /// The next part to send, until the object is used up.
    pub fn next_part(&mut self) -> (r: Option<PartRange>)
        requires
            old(self).wf(),
        ensures
            final(self).wf(),
            final(self).same_answers(old(self)),
            final(self).hasher == old(self).hasher,
            old(self).handed < part_count(old(self).size as nat, old(self).part_size as nat) ==> {
                &&& r == Some(
                    part_at(
                        old(self).size as nat,
                        old(self).part_size as nat,
                        old(self).handed as nat,
                    ),
                )
                &&& final(self).handed == old(self).handed + 1
                &&& r->0.start == old(self).offset
                &&& r->0.end == final(self).offset
                &&& r->0.start < r->0.end <= old(self).size
            },
            old(self).handed == part_count(old(self).size as nat, old(self).part_size as nat) ==> r
                is None && *final(self) == *old(self) && old(self).offset == old(self).size,
    {
        let ghost size = self.size as nat;
        let ghost part = self.part_size as nat;
        let ghost i = self.handed as nat;
        proof {
            below_part_count(size, part, i);
            part_count_bounds(size, part);
            assert((i + 1) * part == i * part + part) by (nonlinear_arith);
        }
        if self.offset >= self.size {
            return None;
        }
        proof {
            assert(i < i32::MAX) by (nonlinear_arith)
                requires
                    i * part < size,
                    size <= i32::MAX * part,
            ;
        }
        let start: u64 = self.offset;
        let end: u64 = if self.size - start > self.part_size {
            start + self.part_size
        } else {
            self.size
        };
        let number: i32 = self.handed as i32 + 1;
        self.handed = self.handed + 1;
        self.offset = end;
        proof {
            below_part_count(size, part, i + 1);
        }
        Some(PartRange { number, start, end })
    }

    /// Takes note of the bytes of the part handed out last, read from where
    /// the object comes from.
    pub fn read(&mut self, chunk: &[u8])
        requires
            old(self).wf(),
        ensures
            final(self).wf(),
            final(self).same_answers(old(self)),
            final(self).handed == old(self).handed,
            final(self).offset == old(self).offset,
            final(self).hasher is Some <==> old(self).hasher is Some,
            forall|before: Seq<u8>|
                old(self).hasher is Some && #[trigger] old(self).hasher->0.has_read(before)
                    ==> final(self).hasher->0.has_read(before + chunk@),
    {
        match self.hasher {
            Some(h) => {
                let mut next = h;
                next.update(chunk);
                self.hasher = Some(next);
            },
            None => {},
        }
    }

    /// The next part of an object held in memory, with its bytes.
    pub fn take_chunk(&mut self, data: &[u8]) -> (r: Option<(PartRange, Vec<u8>)>)
        requires
            old(self).wf(),
            old(self).hashed(data@),
        ensures
            final(self).wf(),
            final(self).hashed(data@),
            final(self).same_answers(old(self)),
            final(self).hasher is Some <==> old(self).hasher is Some,
            old(self).handed < part_count(old(self).size as nat, old(self).part_size as nat) ==> {
                &&& r is Some
                &&& (r->0).0 == part_at(
                    old(self).size as nat,
                    old(self).part_size as nat,
                    old(self).handed as nat,
                )
                &&& (r->0).1@ == parts_of(data@, old(self).part_size as nat)[old(self).handed as int]
                &&& final(self).handed == old(self).handed + 1
            },
            old(self).handed == part_count(old(self).size as nat, old(self).part_size as nat) ==> r
                is None && *final(self) == *old(self) && old(self).offset == data@.len(),
    {
        let ghost was = *self;
        let total: usize = data.len();
        match self.next_part() {
            None => None,
            Some(range) => {
                assert(range.end <= total);
                let from: usize = range.start as usize;
                let to: usize = range.end as usize;
                let slice = slice_subrange(data, from, to);
                self.read(slice);
                proof {
                    let n = was.size as nat;
                    let part = was.part_size as nat;
                    let i = was.handed as nat;
                    below_part_count(n, part, i);
                    assert(range.start == i * part);
                    assert(slice@ =~= part_bytes(data@, part, i));
                    assert(data@.take(range.start as int) + slice@ =~= data@.take(
                        range.end as int,
                    ));
                }
                Some((range, slice_to_vec(slice)))
            },
        }
    }

    /// Takes note of how the sending of a part ended. Of several failures the
    /// last one is kept.
    pub fn part_done(&mut self, outcome: PartOutcome)
        ensures
            final(self).same_progress(old(self)),
            old(self).wf() ==> final(self).wf(),
            outcome matches PartOutcome::Sent { number, etag } ==> final(self).parts@
                == old(self).parts@.push(UploadedPart { number, etag }) && final(self).failure
                == old(self).failure,
            outcome matches PartOutcome::Failed { error } ==> final(self).failure == Some(error)
                && final(self).parts@ == old(self).parts@,
            outcome matches PartOutcome::Lost { detail } ==> final(self).failure == Some(
                FsError::UploadTaskPanicked { detail },
            ) && final(self).parts@ == old(self).parts@,
    {
        match outcome {
            PartOutcome::Sent { number, etag } => {
                self.parts.push(UploadedPart { number, etag });
            },
            PartOutcome::Failed { error } => {
                self.failure = Some(error);
            },
            PartOutcome::Lost { detail } => {
                self.failure = Some(FsError::UploadTaskPanicked { detail });
            },
        }
    }

    /// What is done once every part has ended: one failure aborts the upload,
    /// none lets the parts be put together in the order of their numbers.
    pub fn join(self) -> (r: Joined)
        ensures
            self.failure matches Some(e) ==> r == (Joined::Abort { error: e }),
            self.failure is None ==> {
                &&& r is Complete
                &&& in_order(r->Complete_parts@)
                &&& r->Complete_parts@.to_multiset() == self.parts@.to_multiset()
                &&& r->expected_crc is Some <==> self.hasher is Some
                &&& forall|data: Seq<u8>|
                    self.hasher is Some && #[trigger] self.hasher->0.has_read(data)
                        ==> r->expected_crc == Some(checksum(data))
            },
    {
        match self.failure {
            Some(error) => Joined::Abort { error },
            None => {
                let expected_crc = match self.hasher {
                    Some(h) => Some(h.finalize()),
                    None => None,
                };
                Joined::Complete { parts: sort_parts(self.parts), expected_crc }
            },
        }
    }
}

/// The answers hold each of the numbers one to `n` once.
pub open spec fn answers_all(sent: Seq<UploadedPart>, n: nat) -> bool {
    &&& sent.len() == n
    &&& forall|i: int| 0 <= i < n ==> 1 <= (#[trigger] sent[i]).number <= n
    &&& forall|i: int, j: int|
        0 <= i < j < n ==> (#[trigger] sent[i]).number != (#[trigger] sent[j]).number
}

/// In whatever order the answers came, the parts are put together as part one,
/// part two and so on, none missing and none twice.
pub proof fn parts_are_put_together_in_order(
    sent: Seq<UploadedPart>,
    sorted: Seq<UploadedPart>,
    n: nat,
)
    requires
        answers_all(sent, n),
        in_order(sorted),
        sorted.to_multiset() == sent.to_multiset(),
    ensures
        sorted.len() == n,
        forall|i: int| 0 <= i < n ==> (#[trigger] sorted[i]).number == i + 1,
        forall|i: int| 0 <= i < n ==> sent.contains(#[trigger] sorted[i]),
{
    sent.to_multiset_ensures();
    sorted.to_multiset_ensures();
    assert(sent.no_duplicates());
    sent.lemma_multiset_has_no_duplicates();
    sorted.lemma_multiset_has_no_duplicates_conv();
    assert forall|i: int| 0 <= i < n implies sent.contains(#[trigger] sorted[i]) by {
        assert(sorted.contains(sorted[i]));
        assert(sorted.to_multiset().contains(sorted[i]));
        assert(sent.to_multiset().contains(sorted[i]));
    }
    assert forall|i: int, j: int| 0 <= i < j < n implies (#[trigger] sorted[i]).number < (
    #[trigger] sorted[j]).number by {
        let a = choose|a: int| 0 <= a < n && sent[a] == sorted[i];
        let b = choose|b: int| 0 <= b < n && sent[b] == sorted[j];
        assert(sent.contains(sorted[i]) && sent.contains(sorted[j]));
        assert(sent[a] == sorted[i] && sent[b] == sorted[j]);
        if sorted[i].number == sorted[j].number {
            assert(a == b);
            assert(sorted[i] == sorted[j]);
        }
    }
    assert forall|i: int| 0 <= i < n implies (#[trigger] sorted[i]).number == i + 1 by {
        ascending_from_below(sorted, n, i);
        ascending_from_above(sorted, n, i);
    }
}

proof fn ascending_from_below(s: Seq<UploadedPart>, n: nat, i: int)
    requires
        s.len() == n,
        0 <= i < n,
        s[0].number >= 1,
        forall|a: int, b: int|
            0 <= a < b < n ==> (#[trigger] s[a]).number < (#[trigger] s[b]).number,
    ensures
        s[i].number >= i + 1,
    decreases i,
{
    if i > 0 {
        ascending_from_below(s, n, i - 1);
    }
}

proof fn ascending_from_above(s: Seq<UploadedPart>, n: nat, i: int)
    requires
        s.len() == n,
        0 <= i < n,
        s[n - 1].number <= n,
        forall|a: int, b: int|
            0 <= a < b < n ==> (#[trigger] s[a]).number < (#[trigger] s[b]).number,
    ensures
        s[i].number <= i + 1,
    decreases n - i,
{
    if i < n - 1 {
        ascending_from_above(s, n, i + 1);
    }
}

/// What the store makes of the parts of `data` that it is told to put
/// together: their bytes, in the order in which they are named.
pub open spec fn put_together(parts: Seq<UploadedPart>, data: Seq<u8>, part: nat) -> Seq<u8> {
    Seq::new(parts.len(), |i: int| parts_of(data, part)[parts[i].number - 1]).flatten()
}

/// An upload whose parts were all taken, in whatever order the answers came,
/// is put together to exactly the object.
pub proof fn uploads_make_up_the_object(
    data: Seq<u8>,
    part: nat,
    sent: Seq<UploadedPart>,
    sorted: Seq<UploadedPart>,
)
    requires
        part > 0,
        answers_all(sent, part_count(data.len(), part)),
        in_order(sorted),
        sorted.to_multiset() == sent.to_multiset(),
    ensures
        put_together(sorted, data, part) == data,
{
    parts_are_put_together_in_order(sent, sorted, part_count(data.len(), part));
    parts_reassemble(data, part);
    assert(Seq::new(sorted.len(), |i: int| parts_of(data, part)[sorted[i].number - 1]) =~= parts_of(
        data,
        part,
    ));
}

} // verus!
