//! Reading gives the bytes of the object, from wherever they come.

use crate::block_read::BlockRead;
use crate::error::{FsError, Step};
use crate::fetching::{
    got_range, is_invalid_range_text, is_s3_invalid_range, is_s3_not_found, lossy_text, slice_at,
    GetReply,
};
use crate::fs::ObjectFs;
use crate::metrics::Metrics;
use crate::operations::{BinRead, RangeNext};
use crate::read_cache::Window;
use crate::reading::{ReadNext, Reader};
use crate::text::occurs_in;
use vstd::prelude::*;

verus! {

/// Every window holds a stretch of the object of its path, from the byte at
/// which it starts.
pub open spec fn mirrors(
    windows: Map<Seq<char>, Window>,
    objects: Map<Seq<char>, Seq<u8>>,
) -> bool {
    forall|p: Seq<char>| #[trigger]
        windows.contains_key(p) ==> {
            let (start, n) = (windows[p].start as int, windows[p].data@.len() as int);
            &&& objects.contains_key(p)
            &&& start + n <= objects[p].len()
            &&& windows[p].data@ == objects[p].subrange(start, start + n)
        }
}

/// Where `offset` lies in an object of `size` bytes, its end at most.
pub open spec fn within(offset: int, size: nat) -> int {
    if offset < size {
        offset
    } else {
        size as int
    }
}

/// The `len` bytes of `object` from `offset` on, or as many as there are.
pub open spec fn bytes_at(object: Seq<u8>, offset: int, len: int) -> Seq<u8> {
    object.subrange(within(offset, object.len()), within(offset + len, object.len()))
}

/// A read that is answered at once gets all the bytes it asked for, and they
/// are the object's. A read that is not fetches at least as many, from the
/// same offset. Nothing that is kept becomes wrong.
pub proof fn begun_reads_are_exact(
    reader: &mut Reader,
    path: &str,
    offset: u64,
    len: usize,
    now: u64,
    m: &mut Metrics,
    r: ReadNext,
    objects: Map<Seq<char>, Seq<u8>>,
)
    requires
        call_ensures(Reader::begin, (reader, path, offset, len, now, m), r),
        mirrors(old(reader).cache@, objects),
    ensures
        r matches ReadNext::Ready { data } ==> {
            &&& data@.len() == len
            &&& objects.contains_key(path@)
            &&& offset + len <= objects[path@].len()
            &&& data@ == objects[path@].subrange(offset as int, offset + len)
        },
        r matches ReadNext::Ready { data } ==> old(reader).window > 0
            && old(reader).cache@.contains_key(path@),
        r matches ReadNext::Fetch { len: fetch, .. } ==> {
            &&& fetch >= len
            &&& fetch > len ==> fetch == old(reader).window
        },
        r is Ready ==> final(reader).cache@[path@].last_used == now,
        mirrors(final(reader).cache@, objects),
        final(reader).cache@.dom() == old(reader).cache@.dom(),
{
    begun_exactly(
        old(reader),
        final(reader),
        path@,
        offset,
        len,
        now,
        *old(m),
        *final(m),
        r,
        objects,
    );
}

proof fn begun_exactly(
    was: &Reader,
    is_now: &Reader,
    path: Seq<char>,
    offset: u64,
    len: usize,
    now: u64,
    m: Metrics,
    after_m: Metrics,
    r: ReadNext,
    objects: Map<Seq<char>, Seq<u8>>,
)
    requires
        is_now.begun(was, path, offset, len, now, m, after_m, r),
        mirrors(was.cache@, objects),
    ensures
        r matches ReadNext::Ready { data } ==> {
            &&& data@.len() == len
            &&& objects.contains_key(path)
            &&& offset + len <= objects[path].len()
            &&& data@ == objects[path].subrange(offset as int, offset + len)
        },
        r matches ReadNext::Fetch { len: fetch, .. } ==> {
            &&& fetch >= len
            &&& fetch > len ==> fetch == was.window
        },
        mirrors(is_now.cache@, objects),
        is_now.cache@.dom() == was.cache@.dom(),
{
    let before = was.cache@;
    let after = is_now.cache@;
    if r is Ready {
        let w = before[path];
        let object = objects[path];
        assert(before.contains_key(path));
        assert(object.subrange(w.start as int, w.start + w.data@.len()).subrange(
            offset - w.start,
            offset - w.start + len,
        ) =~= object.subrange(offset as int, offset + len));
        assert forall|p: Seq<char>| #[trigger] after.contains_key(p) implies {
            let (start, n) = (after[p].start as int, after[p].data@.len() as int);
            &&& objects.contains_key(p)
            &&& start + n <= objects[p].len()
            &&& after[p].data@ == objects[p].subrange(start, start + n)
        } by {
            assert(before.contains_key(p));
        }
    }
    assert(after.dom() =~= before.dom());
}

/// A read that ends with what the store gave, the object's bytes from the
/// offset on, hands out the object's bytes: as many as were asked for, or all
/// up to the end. Nothing that is kept becomes wrong.
pub proof fn completed_reads_are_exact(
    reader: &mut Reader,
    path: &str,
    offset: u64,
    len: usize,
    fetch_len: usize,
    data: Vec<u8>,
    now: u64,
    r: Vec<u8>,
    objects: Map<Seq<char>, Seq<u8>>,
)
    requires
        call_ensures(Reader::complete, (reader, path, offset, len, fetch_len, data, now), r),
        mirrors(old(reader).cache@, objects),
        objects.contains_key(path@),
        len <= fetch_len,
        data@ == bytes_at(objects[path@], offset as int, fetch_len as int),
    ensures
        r@ == bytes_at(objects[path@], offset as int, len as int),
        mirrors(final(reader).cache@, objects),
{
    let (before, after) = (old(reader).cache@, final(reader).cache@);
    assert(r@ =~= bytes_at(objects[path@], offset as int, len as int));
    if after != before {
        assert forall|p: Seq<char>| #[trigger] after.contains_key(p) implies {
            let (start, n) = (after[p].start as int, after[p].data@.len() as int);
            &&& objects.contains_key(p)
            &&& start + n <= objects[p].len()
            &&& after[p].data@ == objects[p].subrange(start, start + n)
        } by {
            if p == path@ {
                assert(after[p].data@ == data@);
            } else {
                assert(after.remove(path@).contains_key(p));
                assert(before.contains_key(p));
            }
        }
    }
}

/// What was forgotten is not read from memory any more, and all other windows
/// stay.
pub proof fn forgotten_reads_are_fetched(
    reader: &mut Reader,
    path: &str,
    again: &mut Reader,
    offset: u64,
    len: usize,
    now: u64,
    m: &mut Metrics,
    r: ReadNext,
)
    requires
        call_ensures(Reader::invalidate, (reader, path), ()),
        *old(again) == *final(reader),
        call_ensures(Reader::begin, (again, path, offset, len, now, m), r),
    ensures
        r is Fetch && !r->sequential,
        forall|p: Seq<char>|
            p != path@ && old(reader).cache@.contains_key(p) ==> {
                &&& #[trigger] final(reader).cache@.contains_key(p)
                &&& final(reader).cache@[p] == old(reader).cache@[p]
            },
{
}

/// A read fetches more than it was asked for only where it begins where the
/// last read of its path ended, and then the window.
pub proof fn only_reads_in_sequence_fetch_ahead(
    reader: &mut Reader,
    path: &str,
    offset: u64,
    len: usize,
    now: u64,
    m: &mut Metrics,
    r: ReadNext,
)
    requires
        call_ensures(Reader::begin, (reader, path, offset, len, now, m), r),
    ensures
        r matches ReadNext::Fetch { len: fetch, sequential } ==> {
            &&& sequential <==> old(reader).window > 0 && old(reader).hints@.contains_key(path@)
                && old(reader).hints@[path@] == offset
            &&& !sequential ==> fetch == len
            &&& sequential && len < old(reader).window ==> fetch == old(reader).window
            &&& sequential && len >= old(reader).window ==> fetch == len
        },
{
}

/// A read right behind the one before is recognised, and fetches the whole
/// window where it is smaller.
pub proof fn sequential_reads_fetch_the_window(
    reader: &mut Reader,
    path: &str,
    offset: u64,
    len: usize,
    now: u64,
    m: &mut Metrics,
    r: ReadNext,
    again: &mut Reader,
    more: usize,
    m2: &mut Metrics,
    r2: ReadNext,
)
    requires
        call_ensures(Reader::begin, (reader, path, offset, len, now, m), r),
        *old(again) == *final(reader),
        offset + len <= u64::MAX,
        old(reader).window > more,
        call_ensures(Reader::begin, (again, path, (offset + len) as u64, more, now, m2), r2),
    ensures
        r2 matches ReadNext::Fetch { len: fetch, sequential } ==> sequential && fetch
            == old(reader).window,
{
}

/// The whole of a read: what the mount hands out, at once or after it fetched,
/// are the object's bytes.
pub proof fn mount_reads_are_exact(
    fs: &mut ObjectFs,
    path: &str,
    offset: u64,
    len: usize,
    bin: BinRead,
    now: u64,
    r: RangeNext,
    objects: Map<Seq<char>, Seq<u8>>,
)
    requires
        call_ensures(ObjectFs::read_range, (fs, path, offset, len, bin, now), r),
        mirrors(old(fs).reader.cache@, objects),
    ensures
        len == 0 ==> r is Done && r->result is Ok && r->result->Ok_0@.len() == 0,
        (bin is Plain || bin is Original) && r is Done && len > 0 ==> {
            &&& r->result is Ok
            &&& r->result->Ok_0@.len() == len
            &&& objects.contains_key(path@)
            &&& offset + len <= objects[path@].len()
            &&& r->result->Ok_0@ == objects[path@].subrange(offset as int, offset + len)
        },
        bin is Plain && r is Fetch ==> r->len >= len,
        bin matches BinRead::Original { key } ==> r is Fetch ==> r->key@ == key@ && r->len >= len,
        bin matches BinRead::Failed { error } ==> len > 0 ==> r == (RangeNext::Done {
            result: Err(error),
        }),
        bin is NoInfo && len > 0 ==> r == (RangeNext::Done {
            result: Err(FsError::EntryInfoMissing),
        }),
        bin matches BinRead::Info { bytes } ==> len > 0 ==> {
            &&& r is Done
            &&& r->result is Ok
            &&& r->result->Ok_0@ == bytes_at(bytes@, offset as int, len as int)
        },
        mirrors(final(fs).reader.cache@, objects),
{
    if len > 0 && (bin is Plain || bin is Original) {
        let counted = crate::operations::read_counted(old(fs).metrics);
        let next = choose|next: ReadNext|
            {
                &&& #[trigger] final(fs).reader.begun(
                    &old(fs).reader,
                    path@,
                    offset,
                    len,
                    now,
                    counted,
                    final(fs).metrics,
                    next,
                )
                &&& next matches ReadNext::Ready { data } ==> r == (RangeNext::Done {
                    result: Ok(data),
                })
                &&& next matches ReadNext::Fetch { len: fetch, sequential } ==> {
                    &&& r is Fetch
                    &&& r->key@ == (match bin {
                        BinRead::Original { key } => key@,
                        _ => crate::paths::object_key(old(fs).prefix@, path@),
                    })
                    &&& r->len == fetch
                    &&& r->sequential == sequential
                }
            };
        begun_exactly(
            &old(fs).reader,
            &final(fs).reader,
            path@,
            offset,
            len,
            now,
            counted,
            final(fs).metrics,
            next,
            objects,
        );
    }
}

/// A read answers from the window wherever that holds all the bytes.
pub proof fn held_bytes_are_not_fetched(
    reader: &mut Reader,
    path: &str,
    offset: u64,
    len: usize,
    now: u64,
    m: &mut Metrics,
    r: ReadNext,
)
    requires
        call_ensures(Reader::begin, (reader, path, offset, len, now, m), r),
        old(reader).window > 0,
        old(reader).cache@.contains_key(path@),
        old(reader).cache@[path@].start <= offset,
        offset + len <= old(reader).cache@[path@].start + old(reader).cache@[path@].data@.len(),
        old(reader).cache@[path@].start + old(reader).cache@[path@].data@.len() <= u64::MAX,
    ensures
        r is Ready,
{
}

/// What was fetched beyond what was asked for is kept: the next read behind it
/// is answered at once.
pub proof fn what_was_fetched_ahead_is_read_next(
    reader: &mut Reader,
    path: &str,
    offset: u64,
    len: usize,
    fetch_len: usize,
    data: Vec<u8>,
    now: u64,
    r: Vec<u8>,
    again: &mut Reader,
    from: u64,
    more: usize,
    m: &mut Metrics,
    next: ReadNext,
)
    requires
        call_ensures(Reader::complete, (reader, path, offset, len, fetch_len, data, now), r),
        old(reader).window > 0,
        len < fetch_len,
        0 < data@.len() <= old(reader).cache.max_bytes(),
        offset + data@.len() <= u64::MAX,
        *old(again) == *final(reader),
        offset <= from,
        from + more <= offset + data@.len(),
        call_ensures(Reader::begin, (again, path, from, more, now, m), next),
    ensures
        next is Ready,
        next->data@ == data@.subrange(from - offset, from - offset + more),
{
}

/// What a read by blocks has got so far are the object's bytes from its offset
/// on, and what it has got where it stopped early is all there is.
pub open spec fn follows(read: &BlockRead, object: Seq<u8>) -> bool {
    &&& read.out@ == bytes_at(object, read.offset as int, read.pos - read.offset)
    &&& read.eof ==> read.out@ == bytes_at(object, read.offset as int, read.end - read.offset)
    &&& read.pos > read.offset ==> read.pos <= object.len()
    &&& read.end > 0 ==> {
        &&& read.last * read.block_size < read.end
        &&& read.end <= read.last * read.block_size + read.block_size
    }
}

/// A read by blocks begins with nothing, at its offset, and is to end behind
/// its last byte.
pub proof fn block_reads_begin_with_nothing(
    offset: u64,
    len: usize,
    block_size: usize,
    r: BlockRead,
    object: Seq<u8>,
)
    requires
        block_size > 0,
        call_ensures(BlockRead::new, (offset, len, block_size), r),
    ensures
        follows(&r, object),
        r.out@.len() == 0,
        r.offset == offset,
        offset + len <= u64::MAX ==> r.end == offset + len,
        offset + len > u64::MAX ==> r.end == u64::MAX,
{
    assert(r.out@ =~= bytes_at(object, offset as int, r.pos - r.offset));
    if r.end > 0 {
        let (x, s, q) = (r.end - 1, block_size as int, r.last as int);
        assert(q * s < r.end && r.end <= q * s + s) by (nonlinear_arith)
            requires
                x == r.end - 1,
                x >= 0,
                s > 0,
                q == x / s,
        ;
    }
}

/// The next block is the one that holds the first byte not read yet.
pub proof fn the_next_block_holds_the_next_byte(read: &BlockRead, r: Option<(u64, u64)>)
    requires
        read.wf(),
        call_ensures(BlockRead::next, (read,), r),
    ensures
        r matches Some((block, start)) ==> {
            &&& start == block * read.block_size
            &&& start <= read.pos < start + read.block_size
            &&& !read.eof
        },
        r is None ==> read.eof || read.pos == read.end,
{
}

proof fn block_taken(
    before: &BlockRead,
    after: &BlockRead,
    object: Seq<u8>,
    block: u64,
    start: u64,
    data: Seq<u8>,
)
    requires
        before.wf(),
        before.wants_more(),
        block == before.block,
        start == block * before.block_size,
        follows(before, object),
        data == bytes_at(object, start as int, before.block_size as int),
        after.served(before, data),
    ensures
        follows(after, object),
{
    let n = object.len() as int;
    let s = before.block_size as int;
    let within = before.within();
    let offset = before.offset as int;
    if data.len() <= within {
        assert(bytes_at(object, offset, before.end - offset) =~= before.out@);
    } else {
        let take = after.pos - before.pos;
        assert(data.subrange(within, within + take) =~= object.subrange(
            before.pos as int,
            before.pos + take,
        ));
        assert(after.out@ =~= bytes_at(object, offset, after.pos - offset));
        if after.eof {
            assert(after.pos == n || after.pos == after.end);
            assert(bytes_at(object, offset, after.end - offset) =~= after.out@);
        }
    }
}

/// A block that is the object's, from the cache or from the store, takes the
/// read on along the object.
pub proof fn block_reads_follow_the_object(
    read: &mut BlockRead,
    next: Option<(u64, u64)>,
    data: &[u8],
    keep: bool,
    object: Seq<u8>,
)
    requires
        old(read).wf(),
        call_ensures(BlockRead::next, (old(read),), next),
        next is Some,
        follows(old(read), object),
        data@ == bytes_at(object, (next->0).1 as int, old(read).block_size as int),
        call_ensures(BlockRead::fetched, (read, data), keep),
    ensures
        follows(final(read), object),
        final(read).offset == old(read).offset,
        final(read).end == old(read).end,
        keep <==> (next->0).1 < object.len(),
        final(read).eof <==> (next->0).1 + old(read).block_size > object.len(),
{
    block_taken(old(read), final(read), object, (next->0).0, (next->0).1, data@);
}

/// The same of a block that the cache held.
pub proof fn cached_blocks_follow_the_object(
    read: &mut BlockRead,
    next: Option<(u64, u64)>,
    data: &[u8],
    m: &mut Metrics,
    object: Seq<u8>,
)
    requires
        old(read).wf(),
        call_ensures(BlockRead::next, (old(read),), next),
        next is Some,
        follows(old(read), object),
        data@ == bytes_at(object, (next->0).1 as int, old(read).block_size as int),
        call_ensures(BlockRead::hit, (read, data, m), ()),
    ensures
        follows(final(read), object),
        final(read).eof <==> (next->0).1 + old(read).block_size > object.len(),
        final(read).offset == old(read).offset,
        final(read).end == old(read).end,
{
    block_taken(old(read), final(read), object, (next->0).0, (next->0).1, data@);
}

/// A read by blocks that asks for no more has got the object's bytes: all that
/// it was to read, or all up to the end of the object.
pub proof fn block_reads_are_exact(read: &BlockRead, next: Option<(u64, u64)>, object: Seq<u8>)
    requires
        read.wf(),
        follows(read, object),
        call_ensures(BlockRead::next, (read,), next),
        next is None,
    ensures
        read.out@ == bytes_at(object, read.offset as int, read.end - read.offset),
{
}

/// What is fetched ahead begins behind the read, less than a block away.
pub proof fn blocks_ahead_lie_behind_the_read(
    read: &BlockRead,
    sequential: bool,
    depth: usize,
    m: &mut Metrics,
    r: Option<(u64, usize)>,
    object: Seq<u8>,
)
    requires
        read.wf(),
        read.end > 0,
        follows(read, object),
        call_ensures(BlockRead::prefetch, (read, sequential, depth, m), r),
    ensures
        r is Some <==> sequential && depth > 0 && !read.eof,
        r matches Some((first, count)) ==> {
            &&& read.end <= first * read.block_size < read.end + read.block_size
            &&& count == depth
        },
{
    if r is Some {
        let (l, s) = (read.last as int, read.block_size as int);
        assert((l + 1) * s == l * s + s) by (nonlinear_arith);
    }
}

/// What came is handed on as it came; nothing comes from behind the end; and
/// what did not come is an error.
pub proof fn what_came_is_handed_on(
    len: usize,
    reply: GetReply,
    m: &mut Metrics,
    r: Result<Vec<u8>, FsError>,
)
    requires
        call_ensures(got_range, (len, reply, m), r),
    ensures
        r is Ok <==> reply is Body || reply is BehindEnd,
        reply matches GetReply::Body { bytes } ==> r->Ok_0@ == bytes@,
        reply is BehindEnd ==> r->Ok_0@.len() == 0,
        reply matches GetReply::Refused { cause } ==> r->Err_0 == (FsError::Failed {
            step: Step::Get,
            cause,
        }),
        reply matches GetReply::BodyFailed { cause } ==> r->Err_0 == (FsError::Failed {
            step: Step::GetBody,
            cause,
        }),
        reply is TimedOut ==> r->Err_0 == (FsError::BodyStalled { len: len as u64 }),
{
}

/// A part of something held here is that part.
pub proof fn slices_are_exact(bytes: &[u8], offset: u64, len: usize, r: Vec<u8>)
    requires
        call_ensures(slice_at, (bytes, offset, len), r),
    ensures
        r@ == bytes_at(bytes@, offset as int, len as int),
{
    assert(r@ =~= bytes_at(bytes@, offset as int, len as int));
}

/// A read that ends with what was fetched is gone on from behind all of it.
pub proof fn reads_go_on_behind_what_was_fetched(
    reader: &mut Reader,
    path: &str,
    offset: u64,
    len: usize,
    fetch_len: usize,
    data: Vec<u8>,
    now: u64,
    r: Vec<u8>,
    again: &mut Reader,
    more: usize,
    m: &mut Metrics,
    next: ReadNext,
)
    requires
        call_ensures(Reader::complete, (reader, path, offset, len, fetch_len, data, now), r),
        old(reader).window > 0,
        offset + data@.len() <= u64::MAX,
        *old(again) == *final(reader),
        call_ensures(Reader::begin, (again, path, (offset + data@.len()) as u64, more, now, m), next),
    ensures
        next matches ReadNext::Fetch { sequential, .. } ==> sequential,
{
}

/// An object is missing where the store says so, and a range lies behind its
/// end where the store says that, by its status or in words.
pub proof fn refusals_are_read_as_they_are_meant(
    status: Option<u16>,
    body: &str,
    missing: bool,
    behind: bool,
    a: Seq<char>,
    b: Seq<char>,
)
    requires
        call_ensures(is_s3_not_found, (status,), missing),
        call_ensures(is_invalid_range_text, (status, body), behind),
    ensures
        missing <==> status == Some(404u16),
        status == Some(416u16) ==> behind,
        status == Some(400u16) && body@ == a + "InvalidRange"@ + b ==> behind,
        behind ==> status == Some(416u16) || status == Some(400u16),
        behind && status == Some(400u16) ==> exists|i: int|
            0 <= i && i + 12 <= body@.len() && #[trigger] body@.subrange(i, i + 12)
                == "InvalidRange"@,
{
    reveal_strlit("InvalidRange");
    let w = "InvalidRange"@;
    if status == Some(400u16) && body@ == a + w + b {
        assert(body@.subrange(a.len() as int, (a.len() + w.len()) as int) =~= w);
        assert(occurs_in(w, body@));
    }
    if behind && status == Some(400u16) {
        let i = choose|i: int|
            0 <= i && i + w.len() <= body@.len() && #[trigger] body@.subrange(i, i + w.len()) == w;
        assert(body@.subrange(i, i + 12) == w);
    }
}

/// A refusal in bytes is read as the text that the bytes are.
pub proof fn refusals_in_bytes_are_read_as_text(
    status: Option<u16>,
    body: &[u8],
    r: bool,
    text: &str,
    s: bool,
)
    requires
        call_ensures(is_s3_invalid_range, (status, body), r),
        call_ensures(is_invalid_range_text, (status, text), s),
        text@ == lossy_text(body@),
    ensures
        r == s,
{
}

} // verus!
