//! An upload sends the object and nothing else, and counts as done only where
//! the store has it.

use crate::budget::{
    permit_source, permit_units, units_of, upload_budget_units, whole_units, DirtyBudget,
    DirtyPermit, UploadBudget, BUDGET_UNIT,
};
use crate::copying::{CopyNext, CopyReply, MultipartCopy};
use crate::crc64::{
    bit_at, checksum, checksums_are_remainders, crc64ecma, dividend, divided, Crc64Ecma,
};
use crate::error::FsError;
use crate::hashes::{base64_text, md5_digest};
use crate::laws::numbers::{asks_for, decimal_spelled, plain_digit, worth};
use crate::metrics::Metrics;
use crate::multipart::{
    below_part_count, check_crc64_response, completion_verified, head_reports_size,
    part_count_bounds, reported_crc64, sort_parts, upload_completed, CompleteReply, Completion,
    Joined, MultipartWrite, PartOutcome, PartRange, UploadedPart, Verdict,
};
use crate::streaming::{
    chunks, full_part, full_parts, stream_parts_reassemble, Part, StreamingUpload,
};
use crate::writing::{
    plan_mkdir, put_checks, put_done, upload_route, MkdirPlan, PutReply, UploadRoute,
};
use vstd::prelude::*;

verus! {

/// `crc` is the checksum of `data`: the complement of what a long division of
/// its bits by the generator leaves.
pub open spec fn is_checksum(crc: u64, data: Seq<u8>) -> bool {
    &&& divided(dividend(data)).len() == 64
    &&& forall|j: int| 0 <= j < 64 ==> bit_at(crc, j) == !#[trigger] divided(dividend(data))[j]
}

/// A checksum that is taken at once is that of the bytes.
pub proof fn checksums_are_of_the_bytes(data: &[u8], r: u64)
    requires
        call_ensures(crc64ecma, (data,), r),
    ensures
        is_checksum(r, data@),
{
    checksums_are_remainders(data@);
}

/// A checksum that is taken in two pieces is that of both together.
pub proof fn checksums_in_pieces_are_of_the_whole(
    fresh: Crc64Ecma,
    hasher: &mut Crc64Ecma,
    a: &[u8],
    again: &mut Crc64Ecma,
    b: &[u8],
    r: u64,
)
    requires
        call_ensures(Crc64Ecma::new, (), fresh),
        *old(hasher) == fresh,
        call_ensures(Crc64Ecma::update, (hasher, a), ()),
        *old(again) == *final(hasher),
        call_ensures(Crc64Ecma::update, (again, b), ()),
        call_ensures(Crc64Ecma::finalize, (*final(again),), r),
    ensures
        is_checksum(r, a@ + b@),
{
    assert(final(hasher).has_read(Seq::<u8>::empty() + a@));
    assert(Seq::<u8>::empty() + a@ =~= a@);
    assert(final(again).has_read(a@ + b@));
    checksums_are_remainders(a@ + b@);
}

/// A part begins where the one before ended, at the first byte to begin with;
/// it has the full size or reaches the end; and there is one as long as any
/// byte is left.
pub open spec fn cuts_next(
    before: &MultipartWrite,
    after: &MultipartWrite,
    range: Option<PartRange>,
) -> bool {
    &&& range is Some <==> before.offset < before.size
    &&& range matches Some(part) ==> {
        &&& part.number == before.handed + 1
        &&& part.start == before.offset
        &&& part.end == after.offset
        &&& part.end - part.start == before.part_size || (part.end == before.size && part.end
            - part.start < before.part_size)
        &&& after.handed == before.handed + 1
    }
    &&& range is None ==> after.offset == before.offset && after.handed == before.handed
    &&& after.size == before.size
    &&& after.part_size == before.part_size
    &&& after.parts@ == before.parts@
}

proof fn cut_next(before: &MultipartWrite, after: &MultipartWrite, range: Option<PartRange>)
    requires
        before.wf(),
        after.wf(),
        after.same_answers(before),
        before.handed < crate::multipart::part_count(
            before.size as nat,
            before.part_size as nat,
        ) ==> range == Some(
            crate::multipart::part_at(
                before.size as nat,
                before.part_size as nat,
                before.handed as nat,
            ),
        ) && after.handed == before.handed + 1,
        before.handed == crate::multipart::part_count(
            before.size as nat,
            before.part_size as nat,
        ) ==> range is None && *after == *before,
    ensures
        cuts_next(before, after, range),
{
    let (n, part, i) = (before.size as nat, before.part_size as nat, before.handed as nat);
    below_part_count(n, part, i);
    part_count_bounds(n, part);
    assert((i + 1) * part == i * part + part) by (nonlinear_arith);
    if range is Some {
        assert(i < i32::MAX) by (nonlinear_arith)
            requires
                i * part < n,
                n <= i32::MAX * part,
        ;
    }
}

/// An upload begins with nothing handed out, and cuts part after part.
pub proof fn parts_follow_each_other(
    size: u64,
    part_size: u64,
    verify_crc64: bool,
    fresh: MultipartWrite,
    write: &mut MultipartWrite,
    r: Option<PartRange>,
)
    requires
        part_size > 0,
        size <= i32::MAX * part_size,
        call_ensures(MultipartWrite::new, (size, part_size, verify_crc64), fresh),
        old(write).wf(),
        call_ensures(MultipartWrite::next_part, (write,), r),
    ensures
        fresh.offset == 0,
        fresh.handed == 0,
        fresh.size == size,
        fresh.part_size == part_size,
        fresh.hasher is Some <==> verify_crc64,
        cuts_next(old(write), final(write), r),
{
    assert(0 * part_size == 0) by (nonlinear_arith);
    cut_next(old(write), final(write), r);
}

/// A part of an object in memory holds the object's bytes of its range.
pub proof fn parts_hold_the_objects_bytes(
    write: &mut MultipartWrite,
    data: &[u8],
    r: Option<(PartRange, Vec<u8>)>,
)
    requires
        old(write).wf(),
        old(write).hashed(data@),
        call_ensures(MultipartWrite::take_chunk, (write, data), r),
    ensures
        cuts_next(
            old(write),
            final(write),
            match r {
                Some((range, _)) => Some(range),
                None => None,
            },
        ),
        r matches Some((range, bytes)) ==> bytes@ == data@.subrange(
            range.start as int,
            range.end as int,
        ),
{
    let range = match r {
        Some((range, _)) => Some(range),
        None => None,
    };
    cut_next(old(write), final(write), range);
    if r is Some {
        let (n, part, i) = (
            old(write).size as nat,
            old(write).part_size as nat,
            old(write).handed as nat,
        );
        below_part_count(n, part, i);
        assert((r->0).1@ =~= data@.subrange((r->0).0.start as int, (r->0).0.end as int));
    }
}

/// The checksum of an object in memory is taken along with its parts: it is
/// always that of the bytes that were handed out.
pub proof fn checksums_follow_the_parts(
    size: u64,
    part_size: u64,
    fresh: MultipartWrite,
    write: &mut MultipartWrite,
    data: &[u8],
    r: Option<(PartRange, Vec<u8>)>,
    read: &mut MultipartWrite,
    chunk: &[u8],
    before: Seq<u8>,
)
    requires
        part_size > 0,
        size <= i32::MAX * part_size,
        call_ensures(MultipartWrite::new, (size, part_size, true), fresh),
        old(write).wf(),
        old(write).hasher is Some,
        old(write).size == data@.len(),
        old(write).hasher->0.has_read(data@.take(old(write).offset as int)),
        call_ensures(MultipartWrite::take_chunk, (write, data), r),
        old(read).wf(),
        old(read).hasher is Some,
        old(read).hasher->0.has_read(before),
        call_ensures(MultipartWrite::read, (read, chunk), ()),
    ensures
        fresh.hasher is Some && fresh.hasher->0.has_read(Seq::empty()),
        final(write).hasher is Some && final(write).hasher->0.has_read(
            data@.take(final(write).offset as int),
        ),
        final(read).hasher is Some && final(read).hasher->0.has_read(before + chunk@),
{
    assert(old(write).hashed(data@));
}

/// When all of an object has been handed out and every part was taken, the
/// parts are put together under their numbers, in order, none left out and
/// none added, and the checksum to compare is that of the object.
pub proof fn joined_uploads_are_whole(write: MultipartWrite, r: Joined, data: Seq<u8>)
    requires
        call_ensures(MultipartWrite::join, (write,), r),
    ensures
        write.failure matches Some(e) ==> r == (Joined::Abort { error: e }),
        write.failure is None ==> {
            &&& r is Complete
            &&& r->Complete_parts@.to_multiset() == write.parts@.to_multiset()
            &&& forall|i: int, j: int|
                0 <= i < j < r->Complete_parts@.len() ==> (
                #[trigger] r->Complete_parts@[i]).number <= (
                #[trigger] r->Complete_parts@[j]).number
            &&& r->expected_crc is Some <==> write.hasher is Some
            &&& write.hasher is Some && write.hashed(data) && write.offset == write.size ==> {
                &&& is_checksum(r->expected_crc->0, data)
            }
        },
{
    if write.hashed(data) && write.offset == write.size {
        assert(data.take(data.len() as int) =~= data);
        checksums_are_remainders(data);
    }
}

/// Parts that are sorted are the same parts, in the order of their numbers.
pub proof fn sorted_parts_are_the_same_parts(parts: Vec<UploadedPart>, r: Vec<UploadedPart>)
    requires
        call_ensures(sort_parts, (parts,), r),
    ensures
        r@.to_multiset() == parts@.to_multiset(),
        forall|i: int, j: int|
            0 <= i < j < r@.len() ==> (#[trigger] r@[i]).number <= (#[trigger] r@[j]).number,
{
}

/// One part that was not taken fails the whole upload, whatever else was.
pub proof fn one_lost_part_fails_the_upload(
    write: &mut MultipartWrite,
    outcome: PartOutcome,
    r: Joined,
)
    requires
        call_ensures(MultipartWrite::part_done, (write, outcome), ()),
        call_ensures(MultipartWrite::join, (*final(write),), r),
    ensures
        !(outcome is Sent) ==> r is Abort,
        outcome matches PartOutcome::Failed { error } ==> r == (Joined::Abort { error }),
        old(write).failure is Some ==> r is Abort,
        outcome matches PartOutcome::Sent { number, etag } ==> {
            &&& old(write).failure is None ==> r is Complete && r->Complete_parts@.to_multiset()
                == old(write).parts@.push(UploadedPart { number, etag }).to_multiset()
        },
{
}

/// A checksum passes only where the store reported the same.
pub proof fn only_the_same_checksum_passes(
    reported: Option<u64>,
    expected: u64,
    m: &mut Metrics,
    r: Result<(), FsError>,
)
    requires
        call_ensures(check_crc64_response, (reported, expected, m), r),
    ensures
        r is Ok <==> reported == Some(expected),
        reported matches Some(actual) ==> actual != expected ==> r == Err::<(), FsError>(
            FsError::CrcMismatch { expected, actual },
        ),
        reported is None ==> r == Err::<(), FsError>(FsError::CrcMissing),
{
}

/// A header of digits reports the number that they spell; one that holds
/// anything else, or none, reports nothing.
pub proof fn reported_checksums_are_read(header: Option<&str>, r: Option<u64>)
    requires
        call_ensures(reported_crc64, (header,), r),
    ensures
        header is None ==> r is None,
        header matches Some(s) ==> s@.len() > 0 && s@[0] != '+' ==> {
            &&& r is Some <==> {
                &&& forall|i: int| 0 <= i < s@.len() ==> plain_digit(#[trigger] s@[i])
                &&& worth(s@, 10) <= u64::MAX
            }
            &&& r is Some ==> r->0 == worth(s@, 10)
        },
{
    if header is Some && header->0@.len() > 0 && header->0@[0] != '+' {
        crate::laws::numbers::digits_are_read(header->0@, 10);
    }
}

/// An upload that was put together has succeeded where no checksum is wanted,
/// or the same was reported; one whose completion was refused is looked at
/// first, and has succeeded only where the object has the size that was sent.
pub proof fn completions_are_believed_when_checked(
    expected_crc: Option<u64>,
    reply: CompleteReply,
    m: &mut Metrics,
    r: Completion,
    length: Option<i64>,
    bytes: u64,
    m2: &mut Metrics,
    same: Option<bool>,
    cause: Vec<String>,
    v: Verdict,
)
    requires
        call_ensures(upload_completed, (expected_crc, reply, m), r),
        call_ensures(head_reports_size, (length, bytes, m2), same),
        call_ensures(completion_verified, (cause, same), v),
        length is Some ==> length->0 >= 0,
    ensures
        reply matches CompleteReply::Completed { crc } ==> r is Finished && (r->result is Ok <==> (
        expected_crc is None || crc == expected_crc)),
        reply matches CompleteReply::Refused { cause } ==> r == (Completion::Verify { cause }),
        v is Finished <==> length is Some && length->0 == bytes,
{
}

/// An object that is sent at once goes with its own checksum, and is stored
/// where the store said so and reported the same.
pub proof fn single_uploads_are_checked(
    data: &[u8],
    verify_crc64: bool,
    content_md5: bool,
    sent: (Option<u64>, Option<String>),
    reply: PutReply,
    m: &mut Metrics,
    r: Result<(), FsError>,
)
    requires
        call_ensures(put_checks, (data, verify_crc64, content_md5), sent),
        call_ensures(put_done, (sent.0, reply, m), r),
    ensures
        sent.0 is Some <==> verify_crc64,
        sent.0 is Some ==> is_checksum(sent.0->0, data@),
        sent.1 is Some <==> content_md5,
        sent.1 is Some ==> sent.1->0@ == base64_text(md5_digest(data@)),
        reply is Refused ==> r is Err,
        reply matches PutReply::Stored { crc } ==> (r is Ok <==> !verify_crc64 || crc == sent.0),
{
    checksums_are_remainders(data@);
}

/// Up to sixteen mebibytes an object is sent at once, and above in parts.
pub proof fn large_objects_go_in_parts(size: u64, r: UploadRoute)
    requires
        call_ensures(upload_route, (size,), r),
    ensures
        r is Multipart <==> size > 16 * 1024 * 1024,
        r is Single <==> size <= 16 * 1024 * 1024,
{
}

/// A directory is made at its own path, with one slash at the end; never on a
/// read-only mount, and never the root.
pub proof fn directories_are_made_at_their_path(
    read_only: bool,
    path: &str,
    bin: &Option<crate::trash::SystemTrashMatch>,
    r: Result<MkdirPlan, FsError>,
)
    requires
        call_ensures(plan_mkdir, (read_only, path, bin), r),
    ensures
        read_only ==> r == Err::<MkdirPlan, FsError>(FsError::ReadOnly),
        !read_only && crate::laws::paths::only(path@, '/') ==> r == Err::<MkdirPlan, FsError>(
            FsError::RootExists,
        ),
        !read_only && !crate::laws::paths::only(path@, '/') ==> r is Ok,
        r matches Ok(MkdirPlan::Marker { path: made }) ==> {
            &&& made@.last() == '/'
            &&& made@ == path@ || made@ == path@ + seq!['/']
            &&& path@.len() > 0 && path@.last() == '/' ==> made@ == path@
        },
        r is Ok ==> (r->Ok_0 is InBin <==> *bin is Some && bin->0 is Dir),
{
    crate::laws::paths::root_is_only_slashes(path@);
    assert(path@.push('/') =~= path@ + seq!['/']);
}

/// A part of a copy asks for the bytes behind those of the part before, a full
/// part or up to the end.
pub proof fn copy_requests_follow_each_other(copy: &MultipartCopy, r: (i32, String))
    requires
        copy.wf(),
        copy.size > 0,
        call_ensures(MultipartCopy::request, (copy,), r),
    ensures
        r.0 == copy.copied + 1,
        ({
            let start = copy.copied * copy.part_size;
            let end = if start + copy.part_size < copy.size {
                start + copy.part_size
            } else {
                copy.size as int
            };
            asks_for(r.1@, start, end - 1) && start < end
        }),
{
    let (n, part, i) = (copy.size as nat, copy.part_size as nat, copy.copied as nat);
    part_count_bounds(n, part);
    below_part_count(n, part, i);
    assert((i + 1) * part == i * part + part) by (nonlinear_arith);
    assert(i < i32::MAX) by (nonlinear_arith)
        requires
            i * part < n,
            n <= i32::MAX * part,
    ;
    let start = copy.copied * copy.part_size;
    let end = if start + copy.part_size < copy.size {
        start + copy.part_size
    } else {
        copy.size as int
    };
    decimal_spelled(start as nat);
    decimal_spelled((end - 1) as nat);
}

/// A copy is put together when its last byte is copied and not before, from
/// all parts, each under its number and with the tag that came back.
pub proof fn copies_end_with_the_last_byte(
    copy: &mut MultipartCopy,
    reply: CopyReply,
    r: CopyNext,
)
    requires
        old(copy).wf(),
        call_ensures(MultipartCopy::part_copied, (copy, reply), r),
    ensures
        reply is Refused ==> r is Abort,
        reply matches CopyReply::Copied { etag } ==> {
            let number = (old(copy).copied + 1) as i32;
            let parts = old(copy).parts@ + seq![UploadedPart { number, etag }];
            &&& r is Continue <==> (old(copy).copied + 1) * old(copy).part_size < old(copy).size
            &&& r is Continue ==> final(copy).parts@ == parts && final(copy).copied == old(
                copy,
            ).copied + 1 && final(copy).size == old(copy).size && final(copy).part_size == old(
                copy,
            ).part_size
            &&& !(r is Continue) ==> r is Complete && r->Complete_parts@ == parts
        },
{
    let (n, part, i) = (
        old(copy).size as nat,
        old(copy).part_size as nat,
        old(copy).copied as nat,
    );
    part_count_bounds(n, part);
    below_part_count(n, part, i + 1);
    assert((i + 1) * part > 0) by (nonlinear_arith)
        requires
            part > 0,
    ;
    if reply is Copied {
        let number = (i + 1) as i32;
        let p = UploadedPart { number, etag: reply->etag };
        assert(old(copy).parts@.push(p) =~= old(copy).parts@ + seq![p]);
    }
}

/// A copy in parts begins at the first byte, with parts of the configured size
/// but of five mebibytes at least.
pub proof fn copies_begin_at_the_first_byte(
    size: u64,
    configured_part_size: u64,
    r: MultipartCopy,
)
    requires
        call_ensures(MultipartCopy::new, (size, configured_part_size), r),
    ensures
        r.copied == 0,
        r.parts@.len() == 0,
        r.size == size,
        r.part_size >= 5 * 1024 * 1024,
        r.part_size >= configured_part_size,
        r.part_size == configured_part_size || r.part_size == 5 * 1024 * 1024,
{
}

/// Units of a mebibyte hold the bytes, and none of them is idle.
pub open spec fn units_hold(units: int, bytes: int) -> bool {
    &&& bytes <= units * 1_048_576
    &&& (units - 1) * 1_048_576 < bytes || units == 0
}

pub(crate) proof fn rounded_up(bytes: nat)
    ensures
        units_hold(units_of(bytes) as int, bytes as int),
{
    let (u, x) = (units_of(bytes) as int, bytes as int);
    assert(BUDGET_UNIT == 1_048_576);
    assert(u == (x + 1_048_575) / 1_048_576);
    assert(x <= u * 1_048_576 && (u - 1) * 1_048_576 < x || u == 0) by (nonlinear_arith)
        requires
            u == (x + 1_048_575) / 1_048_576,
            x >= 0,
    ;
    if u == 0 {
        assert(x == 0) by (nonlinear_arith)
            requires
                0 == (x + 1_048_575) / 1_048_576,
                x >= 0,
        ;
    }
}

/// Bytes take as many units as hold them, and no more.
pub proof fn units_are_the_fewest_that_hold(bytes: usize, r: usize)
    requires
        call_ensures(whole_units, (bytes,), r),
    ensures
        units_hold(r as int, bytes as int),
{
    rounded_up(bytes as nat);
}

/// A budget has the units that hold its bytes, as far as units can be counted,
/// and there is none without bytes.
pub proof fn budgets_have_the_units_of_their_bytes(
    max_bytes: Option<usize>,
    r: Option<usize>,
    budget: UploadBudget,
    dirty_bytes: usize,
    dirty: Option<DirtyBudget>,
    unit: usize,
    all: usize,
    limited: bool,
)
    requires
        call_ensures(upload_budget_units, (max_bytes,), r),
        call_ensures(UploadBudget::new, (max_bytes,), budget),
        call_ensures(DirtyBudget::new, (dirty_bytes,), dirty),
        dirty is Some ==> call_ensures(DirtyBudget::unit, (&dirty->0,), unit),
        dirty is Some ==> call_ensures(DirtyBudget::max_units, (&dirty->0,), all),
        call_ensures(UploadBudget::is_limited, (&budget,), limited),
    ensures
        dirty is Some ==> unit == 1_048_576,
        dirty matches Some(d) ==> all == d.all_units(),
        limited <==> budget.limited(),
        r is Some <==> max_bytes is Some && max_bytes->0 > 0,
        budget.limited() <==> max_bytes is Some && max_bytes->0 > 0,
        r matches Some(units) ==> {
            &&& units == budget.all_units()
            &&& units_hold(units as int, max_bytes->0 as int) || (units == u32::MAX
                && max_bytes->0 > units * 1_048_576)
        },
        dirty is Some <==> dirty_bytes > 0,
        dirty matches Some(d) ==> {
            let units = d.all_units();
            units_hold(units as int, dirty_bytes as int) || (units == u32::MAX && dirty_bytes
                > units * 1_048_576)
        },
{
    rounded_up(dirty_bytes as nat);
    if max_bytes is Some {
        rounded_up(max_bytes->0 as nat);
    }
}

/// What is larger than a whole budget is refused, and everything else takes
/// the units that hold it.
pub proof fn only_what_never_fits_is_refused(
    dirty: &DirtyBudget,
    upload: &UploadBudget,
    bytes: usize,
    a: Result<usize, FsError>,
    b: Result<usize, FsError>,
)
    requires
        dirty.wf(),
        upload.wf(),
        call_ensures(DirtyBudget::units_for, (dirty, bytes), a),
        call_ensures(UploadBudget::units_for, (upload, bytes), b),
    ensures
        a is Ok <==> bytes <= dirty.all_units() * 1_048_576,
        a matches Ok(units) ==> units_hold(units as int, bytes as int),
        a is Err ==> a->Err_0 == (FsError::DirtyTooLarge { bytes: bytes as u64 }),
        b is Ok <==> !upload.limited() || bytes <= upload.all_units() * 1_048_576,
        b matches Ok(units) ==> if upload.limited() {
            units_hold(units as int, bytes as int)
        } else {
            units == 0
        },
{
    rounded_up(bytes as nat);
}

/// A permit for an object holds the units of the object's bytes, of that very
/// budget; an object of no bytes needs none, and without a limit none is
/// needed.
pub proof fn permits_hold_the_objects_units(
    budget: &UploadBudget,
    bytes: usize,
    r: Result<Option<tokio::sync::OwnedSemaphorePermit>, FsError>,
)
    requires
        budget.wf(),
        call_ensures(UploadBudget::acquire_upload_budget, (budget, bytes), r),
    ensures
        !budget.limited() || bytes == 0 ==> r is Ok && r->Ok_0 is None,
        budget.limited() && bytes > budget.all_units() * 1_048_576 ==> r is Err,
        budget.limited() && bytes > 0 && r is Ok ==> r->Ok_0 is Some,
        r matches Ok(Some(permit)) ==> units_hold(permit_units(permit) as int, bytes as int)
            && permit_source(permit) == budget.source(),
{
    rounded_up(bytes as nat);
}

/// Units of the buffers' budget are had where none are needed, never where
/// there are not as many, and otherwise as many as were asked for, of that
/// very budget.
pub proof fn buffers_get_the_units_they_ask_for(
    budget: &DirtyBudget,
    units: usize,
    r: Option<DirtyPermit>,
    waited: Option<tokio::sync::OwnedSemaphorePermit>,
    w: Result<DirtyPermit, FsError>,
    grown_budget: &UploadBudget,
    g: Option<tokio::sync::OwnedSemaphorePermit>,
    bytes: usize,
    given: Result<Option<tokio::sync::OwnedSemaphorePermit>, FsError>,
)
    requires
        budget.wf(),
        grown_budget.wf(),
        call_ensures(DirtyBudget::try_acquire_units, (budget, units), r),
        call_ensures(DirtyBudget::acquire_units, (units, waited), w),
        call_ensures(UploadBudget::grow, (grown_budget, units), g),
        call_ensures(UploadBudget::granted, (bytes, units, waited), given),
    ensures
        units == 0 ==> r is Some,
        units > budget.all_units() ==> r is None,
        r matches Some(permit) ==> permit.units() == units && (units > 0 ==> permit.source()
            == *budget.source()),
        w is Ok <==> units == 0 || waited is Some,
        w matches Ok(permit) ==> if units == 0 {
            permit.units() == 0
        } else {
            permit.units() == permit_units(waited->0)
        },
        !grown_budget.limited() || units > grown_budget.all_units() ==> g is None,
        g matches Some(permit) ==> permit_units(permit) == units && permit_source(permit)
            == grown_budget.source(),
        given is Ok <==> units == 0 || waited is Some,
        given matches Ok(permit) ==> if units == 0 {
            permit is None
        } else {
            permit == waited
        },
{
}

/// A write to a stream is taken whole or not at all. What is taken comes out
/// in full parts, numbered on, with nothing lost, added or out of order, and
/// less than a part is left for the next time. Each part goes with the digest
/// of its own bytes, where digests are sent.
pub proof fn streams_pass_on_what_is_written(
    stream: &mut StreamingUpload,
    data: &[u8],
    budget: &UploadBudget,
    r: Result<Vec<Part>, FsError>,
)
    requires
        old(stream).wf(),
        old(stream).countable(data@.len()),
        budget.wf(),
        call_ensures(StreamingUpload::write, (stream, data, budget), r),
    ensures
        r is Err ==> *final(stream) == *old(stream),
        r matches Ok(parts) ==> {
            &&& chunks(parts@).flatten() + final(stream).pending@ == old(stream).pending@ + data@
            &&& final(stream).pending@.len() < old(stream).part_size
            &&& final(stream).total_bytes == old(stream).total_bytes + data@.len()
            &&& final(stream).next_part == old(stream).next_part + parts@.len()
            &&& final(stream).part_size == old(stream).part_size
            &&& forall|i: int|
                0 <= i < parts@.len() ==> {
                    let part = #[trigger] parts@[i];
                    &&& part.number == old(stream).next_part + i
                    &&& part.chunk@.len() == old(stream).part_size
                    &&& part.md5 is Some <==> old(stream).content_md5
                    &&& part.md5 is Some ==> part.md5->0@ == base64_text(md5_digest(part.chunk@))
                }
        },
        old(stream).total_bytes + data@.len() > old(stream).part_size * 10_000 ==> r is Err,
        !budget.limited() && old(stream).total_bytes + data@.len() <= old(stream).part_size
            * 10_000 ==> r is Ok,
        r is Ok && budget.limited() && data@.len() > 0 ==> final(stream).total_bytes
            <= final(stream).budget_units * 1_048_576,
        r is Ok && final(stream).budget_units != old(stream).budget_units ==> units_hold(
            final(stream).budget_units as int,
            final(stream).total_bytes as int,
        ),
        r is Ok ==> final(stream).budget_units >= old(stream).budget_units,
        old(stream).part_size * 10_000 <= u64::MAX && old(stream).total_bytes + data@.len() > old(
            stream,
        ).part_size * 10_000 ==> r == Err::<Vec<Part>, FsError>(
            FsError::StreamTooLong {
                max_bytes: (old(stream).part_size * 10_000) as u64,
                part_size: old(stream).part_size as u64,
            },
        ),
        r is Err && old(stream).total_bytes + data@.len() <= old(stream).part_size * 10_000
            ==> r == Err::<Vec<Part>, FsError>(
            FsError::StreamBudgetHeld { bytes: (old(stream).total_bytes + data@.len()) as u64 },
        ),
{
    if r is Ok {
        let parts = r->Ok_0@;
        let all = old(stream).pending@ + data@;
        let size = old(stream).part_size as nat;
        let n = full_parts(all, size);
        assert(n >= 0 && n * size <= all.len() && all.len() - n * size < size)
            by (nonlinear_arith)
            requires
                n == all.len() as int / size as int,
                size > 0,
        ;
        let cut = Seq::new(n as nat, |i: int| full_part(all, size, i));
        assert forall|i: int| 0 <= i < n implies chunks(parts)[i] == cut[i] by {
            assert(parts[i].chunk@ == full_part(all, size, i));
        }
        assert(chunks(parts) =~= cut);
        stream_parts_reassemble(all, size);
        assert forall|i: int| 0 <= i < parts.len() implies {
            let part = #[trigger] parts[i];
            &&& part.number == old(stream).next_part + i
            &&& part.chunk@.len() == old(stream).part_size
            &&& part.md5 is Some <==> old(stream).content_md5
            &&& part.md5 is Some ==> part.md5->0@ == base64_text(md5_digest(part.chunk@))
        } by {
            assert(parts[i].is(
                old(stream).next_part + i,
                full_part(all, size, i),
                old(stream).content_md5,
            ));
            assert(0 <= i * size && (i + 1) * size <= n * size && (i + 1) * size - i * size == size)
                by (nonlinear_arith)
                requires
                    0 <= i < n,
                    size > 0,
            ;
        }
    }
}

/// Bytes of a stream are taken in where no more units are needed, or a permit
/// for them was had, and refused otherwise; the permit is kept with the
/// stream. Units are needed as far as those held do not hold the bytes.
pub proof fn streams_keep_the_permits_they_need(
    stream: &mut StreamingUpload,
    data: &[u8],
    limited: bool,
    permit: Option<tokio::sync::OwnedSemaphorePermit>,
    r: Result<Vec<Part>, FsError>,
    len: usize,
    needed: u64,
)
    requires
        old(stream).wf(),
        old(stream).countable(data@.len()),
        old(stream).total_bytes + data@.len() <= old(stream).part_size * 10_000,
        len == data@.len(),
        call_ensures(StreamingUpload::accept, (stream, data, limited, permit), r),
        call_ensures(StreamingUpload::units_needed, (old(stream), len, limited), needed),
    ensures
        r is Ok <==> needed == 0 || permit is Some,
        !limited || len == 0 ==> needed == 0,
        needed > 0 ==> units_hold(
            old(stream).budget_units + needed,
            old(stream).total_bytes + len,
        ),
        limited && len > 0 && needed == 0 ==> old(stream).total_bytes + len <= old(
            stream,
        ).budget_units * 1_048_576,
        r is Ok ==> final(stream).budget_units == old(stream).budget_units + needed,
        r is Ok && needed > 0 ==> final(stream).budget_permits@ == old(stream).budget_permits@
            + seq![permit->0],
        r is Ok && needed == 0 ==> final(stream).budget_permits@ == old(stream).budget_permits@,
        r is Err ==> *final(stream) == *old(stream),
{
    rounded_up((old(stream).total_bytes + len) as nat);
    if r is Ok && needed > 0 {
        let held = old(stream).budget_permits@;
        assert(held.push(permit->0) =~= held + seq![permit->0]);
    }
}

/// A stream tells the key that it was begun with.
pub proof fn streams_tell_their_key(
    key: String,
    id: String,
    part_size: usize,
    verify_crc64: bool,
    content_md5: bool,
    stream: StreamingUpload,
    r: &str,
)
    requires
        part_size > 0,
        call_ensures(
            StreamingUpload::begin,
            (key, id, part_size, verify_crc64, content_md5),
            stream,
        ),
        call_ensures(StreamingUpload::key, (&stream,), r),
    ensures
        r@ == key@,
        stream.upload_id@ == id@,
        stream.part_size == part_size,
        stream.verify_crc64 == verify_crc64,
        stream.content_md5 == content_md5,
        stream.hasher.has_read(Seq::empty()),
        stream.total_bytes == 0,
        stream.pending@.len() == 0,
        stream.next_part == 1,
{
}

/// What is left at the end goes as the last part, whole, and nothing is left
/// behind.
pub proof fn streams_end_with_what_is_left(stream: &mut StreamingUpload, r: Option<Part>)
    requires
        old(stream).wf(),
        call_ensures(StreamingUpload::flush, (stream,), r),
    ensures
        match r {
            Some(part) => part.chunk@ == old(stream).pending@,
            None => old(stream).pending@.len() == 0,
        },
        r matches Some(part) ==> {
            &&& part.number == old(stream).next_part
            &&& part.chunk@.len() > 0
            &&& part.md5 is Some <==> old(stream).content_md5
            &&& part.md5 is Some ==> part.md5->0@ == base64_text(md5_digest(part.chunk@))
        },
        final(stream).pending@.len() == 0,
        final(stream).hasher == old(stream).hasher,
        final(stream).total_bytes == old(stream).total_bytes,
        final(stream).parts@ == old(stream).parts@,
        final(stream).failure == old(stream).failure,
        final(stream).key@ == old(stream).key@,
{
}

/// A stream is put together in the order of its parts' numbers, with the
/// checksum of all that was written; one part that was not taken aborts it.
pub proof fn joined_streams_are_whole(
    stream: &mut StreamingUpload,
    outcome: PartOutcome,
    again: &mut StreamingUpload,
    r: Joined,
    written: Seq<u8>,
)
    requires
        old(stream).hasher.has_read(written),
        call_ensures(StreamingUpload::part_done, (stream, outcome), ()),
        *old(again) == *final(stream),
        call_ensures(StreamingUpload::join, (again,), r),
    ensures
        !(outcome is Sent) || old(stream).failure is Some ==> r is Abort && final(again).aborted,
        outcome matches PartOutcome::Sent { number, etag } ==> {
            old(stream).failure is None ==> {
                &&& r is Complete
                &&& r->Complete_parts@.to_multiset() == old(stream).parts@.push(
                    UploadedPart { number, etag },
                ).to_multiset()
                &&& forall|i: int, j: int|
                    0 <= i < j < r->Complete_parts@.len() ==> (
                    #[trigger] r->Complete_parts@[i]).number <= (
                    #[trigger] r->Complete_parts@[j]).number
                &&& r->expected_crc is Some <==> old(stream).verify_crc64
                &&& r->expected_crc is Some ==> is_checksum(r->expected_crc->0, written)
            }
        },
{
    checksums_are_remainders(written);
}

/// A stream that was completed or given up is not aborted again, and one that
/// was not is aborted once.
pub proof fn streams_are_aborted_once(
    stream: &mut StreamingUpload,
    first: bool,
    again: &mut StreamingUpload,
    second: bool,
)
    requires
        call_ensures(StreamingUpload::abandon, (stream,), first),
        *old(again) == *final(stream),
        call_ensures(StreamingUpload::abandon, (again,), second),
    ensures
        first <==> !old(stream).aborted,
        !second,
{
}

/// A stream has succeeded where the store put it together and, if a checksum
/// is wanted, reported the same; or where the store refused and yet the object
/// has all its bytes.
pub proof fn streams_succeed_when_stored(
    stream: &mut StreamingUpload,
    expected_crc: Option<u64>,
    reply: CompleteReply,
    m: &mut Metrics,
    r: Completion,
    other: &mut StreamingUpload,
    cause: Vec<String>,
    same_size: Option<bool>,
    m2: &mut Metrics,
    v: Verdict,
)
    requires
        call_ensures(StreamingUpload::completed, (stream, expected_crc, reply, m), r),
        call_ensures(StreamingUpload::verified, (other, cause, same_size, m2), v),
    ensures
        reply matches CompleteReply::Completed { crc } ==> r is Finished && (r->result is Ok <==> (
        expected_crc is None || crc == expected_crc)) && final(stream).aborted,
        reply is Refused ==> r is Verify && *final(stream) == *old(stream),
        v is Finished <==> same_size == Some(true),
        final(other).aborted,
{
}

} // verus!
