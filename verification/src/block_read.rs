//! Reading a range of an object block by block: which blocks are needed, what
//! each of them contributes, and what is fetched ahead afterwards.

use crate::metrics::Metrics;
use crate::text::least;
use vstd::prelude::*;
use vstd::slice::slice_subrange;

verus! {

/// Block `b` of an object, cut short where the object ends.
pub open spec fn block_of(object: Seq<u8>, block_size: nat, b: nat) -> Seq<u8> {
    object.subrange(
        least((b * block_size) as int, object.len() as int),
        least(((b + 1) * block_size) as int, object.len() as int),
    )
}

/// The bytes `start..end` of an object, as far as there are any.
pub open spec fn range_of(object: Seq<u8>, start: nat, end: nat) -> Seq<u8> {
    object.subrange(
        least(start as int, object.len() as int),
        least(end as int, object.len() as int),
    )
}

/// The sum of two numbers, held at the largest one there is.
pub open spec fn capped_sum(a: nat, b: nat) -> nat {
    if a + b > u64::MAX {
        u64::MAX as nat
    } else {
        a + b
    }
}

/// A read of the bytes `offset..end` under way.
#[derive(Debug)]
pub struct BlockRead {
    pub block_size: usize,
    pub offset: u64,
    pub end: u64,
    /// The first byte not read yet.
    pub pos: u64,
    /// The block that is needed next.
    pub block: u64,
    /// The last block of the range.
    pub last: u64,
    /// Whether the object ended before the range did.
    pub eof: bool,
    pub out: Vec<u8>,
}

impl BlockRead {
    /// More blocks are needed.
    pub open spec fn wants_more(&self) -> bool {
        !self.eof && self.block <= self.last
    }

    /// How far into the block that is needed next the read begins.
    pub open spec fn within(&self) -> int {
        self.pos - self.block * self.block_size
    }

    /// How many bytes of the block that is needed next are wanted.
    pub open spec fn wanted(&self) -> int {
        least(self.end - self.pos, self.block_size - self.within())
    }

    /// `self` is `before` after it took what it wanted of `data`.
    pub open spec fn served(&self, before: &Self, data: Seq<u8>) -> bool {
        let within = before.within();
        let take = least(before.wanted(), data.len() - within);
        &&& self.block_size == before.block_size
        &&& self.offset == before.offset
        &&& self.end == before.end
        &&& self.last == before.last
        &&& if data.len() <= within {
            &&& self.eof
            &&& self.out@ == before.out@
            &&& self.pos == before.pos
            &&& self.block == before.block
        } else {
            &&& self.eof == (data.len() < before.block_size || take < before.wanted())
            &&& self.out@ == before.out@ + data.subrange(within, within + take)
            &&& self.pos == before.pos + take
            &&& self.block == (if self.eof {
                before.block as int
            } else {
                before.block + 1
            })
        }
    }

    pub open spec fn wf(&self) -> bool {
        &&& self.block_size > 0
        &&& self.last < u64::MAX
        &&& self.offset <= self.pos <= self.end
        &&& self.out@.len() == self.pos - self.offset
        &&& self.wants_more() ==> {
            &&& self.block * self.block_size <= self.pos
            &&& self.pos < self.block * self.block_size + self.block_size
            &&& self.last * self.block_size <= self.end
            &&& self.end <= self.last * self.block_size + self.block_size
        }
        &&& !self.eof && !self.wants_more() ==> self.pos == self.end
    }

    /// What has been read is what `object` holds there.
    pub open spec fn reads(&self, object: Seq<u8>) -> bool {
        &&& self.out@ == range_of(object, self.offset as nat, self.pos as nat)
        &&& self.eof ==> self.out@ == range_of(object, self.offset as nat, self.end as nat)
        &&& self.pos > self.offset ==> self.pos <= object.len()
    }

    /// A read of `len` bytes from `offset`.
    pub fn new(offset: u64, len: usize, block_size: usize) -> (r: Self)
        requires
            block_size > 0,
        ensures
            r.wf(),
            r.block_size == block_size,
            r.offset == offset,
            r.pos == offset,
            r.end == capped_sum(offset as nat, len as nat),
            r.block == offset as int / block_size as int,
            r.last == (if r.end == 0 {
                0int
            } else {
                (r.end - 1) / block_size as int
            }),
            !r.eof,
            forall|object: Seq<u8>| #[trigger] r.reads(object),
    {
        let end: u64 = offset.saturating_add(len as u64);
        let size: u64 = block_size as u64;
        let block: u64 = offset / size;
        let last: u64 = if end == 0 {
            0
        } else {
            (end - 1) / size
        };
        proof {
            division(offset as int, size as int);
            if end > 0 {
                division(end - 1, size as int);
                assert(block > last ==> offset == end) by (nonlinear_arith)
                    requires
                        block * size <= offset < block * size + size,
                        last * size <= end - 1 < last * size + size,
                        offset <= end,
                        size > 0,
                ;
            }
        }
        let r = BlockRead {
            block_size,
            offset,
            end,
            pos: offset,
            block,
            last,
            eof: false,
            out: Vec::new(),
        };
        assert forall|object: Seq<u8>| #[trigger] r.reads(object) by {
            assert(range_of(object, offset as nat, offset as nat) =~= Seq::<u8>::empty());
        }
        r
    }

    /// The block that is needed next, and the byte that it begins with.
    pub fn next(&self) -> (r: Option<(u64, u64)>)
        requires
            self.wf(),
        ensures
            r is Some <==> self.wants_more(),
            r is Some ==> (r->0).0 == self.block && (r->0).1 == self.block * self.block_size,
    {
        if self.eof || self.block > self.last {
            return None;
        }
        let start: u64 = self.block * (self.block_size as u64);
        Some((self.block, start))
    }

    /// Takes what is wanted of the block that was needed. A block that ends
    /// early is the last one of its object.
    fn serve(&mut self, data: &[u8])
        requires
            old(self).wf(),
            old(self).wants_more(),
        ensures
            final(self).wf(),
            final(self).served(old(self), data@),
    {
        let ghost was = *self;
        let start: u64 = self.block * (self.block_size as u64);
        let within: usize = (self.pos - start) as usize;
        let left: u64 = self.end - self.pos;
        let room: usize = self.block_size - within;
        let want: usize = if left < room as u64 {
            left as usize
        } else {
            room
        };
        if within >= data.len() {
            self.eof = true;
            return;
        }
        let take: usize = if want < data.len() - within {
            want
        } else {
            data.len() - within
        };
        let slice = slice_subrange(data, within, within + take);
        self.out.extend_from_slice(slice);
        self.pos = self.pos + take as u64;
        assert(self.out@ =~= was.out@ + data@.subrange(was.within(), was.within() + take));
        if data.len() < self.block_size || take < want {
            self.eof = true;
            return;
        }
        proof {
            let b = was.block as int;
            let s = was.block_size as int;
            let l = was.last as int;
            assert((b + 1) * s == b * s + s) by (nonlinear_arith);
            if b < l {
                assert((b + 1) * s <= l * s) by (nonlinear_arith)
                    requires
                        b + 1 <= l,
                        s > 0,
                ;
            }
        }
        self.block = self.block + 1;
    }

    /// Takes a block that the cache held.
    pub fn hit(&mut self, data: &[u8], m: &mut Metrics)
        requires
            old(self).wf(),
            old(self).wants_more(),
        ensures
            final(self).wf(),
            final(self).served(old(self), data@),
            forall|object: Seq<u8>|
                #[trigger] old(self).reads(object) && data@ == block_of(
                    object,
                    old(self).block_size as nat,
                    old(self).block as nat,
                ) ==> final(self).reads(object),
            *final(m) == (Metrics {
                disk_cache_hits: old(m).disk_cache_hits.wrapping_add(1),
                ..*old(m)
            }),
    {
        let ghost was = *self;
        m.disk_cache_hits = m.disk_cache_hits.wrapping_add(1);
        self.serve(data);
        proof {
            assert forall|object: Seq<u8>|
                #[trigger] was.reads(object) && data@ == block_of(
                    object,
                    was.block_size as nat,
                    was.block as nat,
                ) implies self.reads(object) by {
                self.right_block_reads_right(&was, data@, object);
            }
        }
    }

    /// Takes note that the cache does not hold the block that is needed.
    pub fn miss(&self, m: &mut Metrics)
        ensures
            *final(m) == (Metrics {
                disk_cache_misses: old(m).disk_cache_misses.wrapping_add(1),
                ..*old(m)
            }),
    {
        m.disk_cache_misses = m.disk_cache_misses.wrapping_add(1);
    }

    /// Takes a block that was fetched, and says whether it is worth keeping: an
    /// empty one lies behind the end of the object.
    pub fn fetched(&mut self, data: &[u8]) -> (keep: bool)
        requires
            old(self).wf(),
            old(self).wants_more(),
        ensures
            final(self).wf(),
            final(self).served(old(self), data@),
            keep == (data@.len() > 0),
            forall|object: Seq<u8>|
                #[trigger] old(self).reads(object) && data@ == block_of(
                    object,
                    old(self).block_size as nat,
                    old(self).block as nat,
                ) ==> final(self).reads(object),
    {
        let ghost was = *self;
        self.serve(data);
        proof {
            assert forall|object: Seq<u8>|
                #[trigger] was.reads(object) && data@ == block_of(
                    object,
                    was.block_size as nat,
                    was.block as nat,
                ) implies self.reads(object) by {
                self.right_block_reads_right(&was, data@, object);
            }
        }
        data.len() > 0
    }

    /// The blocks to fetch ahead once the read is done: the first of them and
    /// how many, where the read was sequential and the object goes on.
    pub fn prefetch(&self, sequential: bool, depth: usize, m: &mut Metrics) -> (r: Option<
        (u64, usize),
    >)
        requires
            self.wf(),
        ensures
            r == (if sequential && !self.eof && depth > 0 {
                Some(((self.last + 1) as u64, depth))
            } else {
                None
            }),
            *final(m) == (if r is Some {
                Metrics { prefetch_started: old(m).prefetch_started.wrapping_add(1), ..*old(m) }
            } else {
                *old(m)
            }),
    {
        if sequential && !self.eof && depth > 0 {
            m.prefetch_started = m.prefetch_started.wrapping_add(1);
            Some((self.last + 1, depth))
        } else {
            None
        }
    }

    /// A read that is served the right block has still read what the object
    /// holds.
    proof fn right_block_reads_right(&self, before: &Self, data: Seq<u8>, object: Seq<u8>)
        requires
            before.wf(),
            before.wants_more(),
            before.reads(object),
            data == block_of(object, before.block_size as nat, before.block as nat),
            self.served(before, data),
        ensures
            self.reads(object),
    {
        let n = object.len() as int;
        let b = before.block as int;
        let s = before.block_size as int;
        assert((b + 1) * s == b * s + s) by (nonlinear_arith);
        let within = before.within();
        if data.len() <= within {
            assert(range_of(object, self.offset as nat, self.end as nat) =~= range_of(
                object,
                self.offset as nat,
                self.pos as nat,
            ));
        } else {
            let take = least(before.wanted(), data.len() - within);
            assert(data.subrange(within, within + take) =~= object.subrange(
                before.pos as int,
                before.pos + take,
            ));
            assert(self.out@ =~= range_of(object, self.offset as nat, self.pos as nat));
            if self.eof {
                assert(self.pos == n || self.pos == self.end);
                assert(range_of(object, self.offset as nat, self.end as nat) =~= range_of(
                    object,
                    self.offset as nat,
                    self.pos as nat,
                ));
            }
        }
    }
}

/// A read that was served nothing but the object's own blocks ends with
/// exactly the bytes of the range that the object holds.
pub proof fn finished_reads_are_exact(read: &BlockRead, object: Seq<u8>)
    requires
        read.wf(),
        read.reads(object),
        !read.wants_more(),
    ensures
        read.out@ == range_of(object, read.offset as nat, read.end as nat),
{
}

proof fn division(x: int, d: int)
    requires
        x >= 0,
        d > 0,
    ensures
        (x / d) * d <= x < (x / d) * d + d,
{
    assert((x / d) * d <= x < (x / d) * d + d) by (nonlinear_arith)
        requires
            x >= 0,
            d > 0,
    ;
}

} // verus!
