//! Reading a range of a file: from the read-ahead window where it holds the
//! bytes, and otherwise from the store, a whole window at once where the read
//! continues the one before it.

use crate::block_read::{capped_sum, range_of};
use crate::config::read_fetch_len;
use crate::keymap::KeyMap;
use crate::metrics::Metrics;
use crate::read_cache::{least_recent, room_made, ReadCache, Window, MAX_READ_SEQ_ENTRIES};
use crate::text::least;
use vstd::prelude::*;
use vstd::slice::{slice_subrange, slice_to_vec};

verus! {

/// Where the last read of each path ended.
pub struct ReadHints {
    seq: KeyMap<u64>,
}

impl View for ReadHints {
    type V = Map<Seq<char>, u64>;

    closed spec fn view(&self) -> Map<Seq<char>, u64> {
        self.seq@
    }
}

/// The hints after a read of `path` that ended at `end`. They never grow past
/// their bound: where they would, all the others are dropped.
pub open spec fn noted(hints: Map<Seq<char>, u64>, path: Seq<char>, end: u64) -> Map<
    Seq<char>,
    u64,
> {
    if hints.dom().len() >= MAX_READ_SEQ_ENTRIES {
        Map::empty().insert(path, end)
    } else {
        hints.insert(path, end)
    }
}

impl ReadHints {
    pub closed spec fn wf(&self) -> bool {
        self.seq.wf() && self.seq@.dom().len() <= MAX_READ_SEQ_ENTRIES
    }

    /// The bound holds at all times.
    pub proof fn stays_bounded(&self)
        requires
            self.wf(),
        ensures
            self@.dom().len() <= MAX_READ_SEQ_ENTRIES,
    {
    }

    pub fn new() -> (r: Self)
        ensures
            r.wf(),
            r@ == Map::<Seq<char>, u64>::empty(),
    {
        let r = ReadHints { seq: KeyMap::new() };
        assert(r.seq@.dom() =~= Set::<Seq<char>>::empty());
        r
    }

    /// Whether a read of `path` at `offset` continues the one before it.
    pub fn continues(&self, path: &str, offset: u64) -> (r: bool)
        requires
            self.wf(),
        ensures
            r == (self@.contains_key(path@) && self@[path@] == offset),
    {
        match self.seq.get(path) {
            Some(end) => *end == offset,
            None => false,
        }
    }

    /// Takes note of where a read ended.
    pub fn note_read_end(&mut self, path: &str, end: u64)
        requires
            old(self).wf(),
        ensures
            final(self).wf(),
            final(self)@ == noted(old(self)@, path@, end),
    {
        let ghost was = *self;
        proof {
            self.seq.keys_are_the_domain();
        }
        if self.seq.len() >= MAX_READ_SEQ_ENTRIES {
            self.seq.clear();
            assert(self.seq@.dom() =~= Set::<Seq<char>>::empty());
        }
        let ghost mid = *self;
        self.seq.insert(path, end);
        proof {
            mid.seq.keys_are_the_domain();
            assert(self.seq@.dom() =~= mid.seq@.dom().insert(path@));
        }
    }

    /// Forgets `path`.
    pub fn forget(&mut self, path: &str)
        requires
            old(self).wf(),
        ensures
            final(self).wf(),
            final(self)@ == old(self)@.remove(path@),
    {
        let ghost was = *self;
        proof {
            self.seq.keys_are_the_domain();
        }
        let _ = self.seq.remove(path);
        assert(self.seq@.dom() =~= was.seq@.dom().remove(path@));
    }

    /// Forgets everything.
    pub fn clear(&mut self)
        ensures
            final(self).wf(),
            final(self)@ == Map::<Seq<char>, u64>::empty(),
    {
        self.seq.clear();
        assert(self.seq@.dom() =~= Set::<Seq<char>>::empty());
    }
}

/// What a read does next.
#[derive(Debug, PartialEq, Eq)]
pub enum ReadNext {
    /// The bytes are here.
    Ready { data: Vec<u8> },
    /// Fetch this many bytes from the offset; the read continues the one
    /// before it, or does not.
    Fetch { len: usize, sequential: bool },
}

/// What is remembered of the reads of one mount.
pub struct Reader {
    /// The read-ahead window; zero for none.
    pub window: usize,
    pub cache: ReadCache,
    pub hints: ReadHints,
}

impl Reader {
    pub open spec fn wf(&self) -> bool {
        self.cache.wf() && self.hints.wf()
    }

    pub fn new(window: usize, max_bytes: usize) -> (r: Self)
        ensures
            r.wf(),
            r.window == window,
            r.cache@ == Map::<Seq<char>, Window>::empty(),
            r.cache.max_bytes() == max_bytes,
            r.hints@ == Map::<Seq<char>, u64>::empty(),
    {
        Reader { window, cache: ReadCache::new(max_bytes), hints: ReadHints::new() }
    }

    /// The read can be served from the window of its path.
    pub open spec fn serves(&self, path: Seq<char>, offset: u64, len: usize) -> bool {
        self.window > 0 && self.cache.covers(path, offset, len)
    }

    /// The read continues the one before it.
    pub open spec fn sequential(&self, path: Seq<char>, offset: u64) -> bool {
        self.window > 0 && self.hints@.contains_key(path) && self.hints@[path] == offset
    }

    /// A read was begun: served from the path's window where that covers it,
    /// and otherwise to be fetched, a window's length where the read continues
    /// the one before it.
    pub open spec fn begun(
        &self,
        before: &Self,
        path: Seq<char>,
        offset: u64,
        len: usize,
        now: u64,
        m: Metrics,
        after_m: Metrics,
        r: ReadNext,
    ) -> bool {
        &&& self.window == before.window
        &&& self.cache.max_bytes() == before.cache.max_bytes()
        &&& before.serves(path, offset, len) ==> {
            let w = before.cache@[path];
            &&& r is Ready
            &&& r->data@ == w.data@.subrange(offset - w.start, offset - w.start + len)
            &&& self.cache@ == before.cache@.insert(
                path,
                Window { last_used: now, ..w },
            )
            &&& self.hints@ == noted(before.hints@, path, (offset + len) as u64)
            &&& after_m == (Metrics {
                read_cache_hits: m.read_cache_hits.wrapping_add(1),
                ..m
            })
        }
        &&& !before.serves(path, offset, len) ==> {
            let sequential = before.sequential(path, offset);
            &&& r == (ReadNext::Fetch {
                len: if len < before.window && sequential {
                    before.window
                } else {
                    len
                },
                sequential,
            })
            &&& self.cache@ == before.cache@
            &&& self.hints@ == (if before.window > 0 {
                noted(before.hints@, path, capped_sum(offset as nat, len as nat) as u64)
            } else {
                before.hints@
            })
            &&& after_m == (if before.window > 0 {
                Metrics {
                    read_cache_misses: m.read_cache_misses.wrapping_add(1),
                    ..m
                }
            } else {
                m
            })
        }
    }

    /// Begins a read of `len` bytes from `offset`.
    pub fn begin(&mut self, path: &str, offset: u64, len: usize, now: u64, m: &mut Metrics) -> (r:
        ReadNext)
        requires
            old(self).wf(),
        ensures
            final(self).wf(),
            final(self).begun(old(self), path@, offset, len, now, *old(m), *final(m), r),
    {
        if self.window == 0 {
            return ReadNext::Fetch { len: read_fetch_len(len, 0, false), sequential: false };
        }
        match self.cache.hit(path, offset, len, now) {
            Some(data) => {
                m.read_cache_hits = m.read_cache_hits.wrapping_add(1);
                let end: u64 = offset.saturating_add(data.len() as u64);
                self.hints.note_read_end(path, end);
                return ReadNext::Ready { data };
            },
            None => {},
        }
        m.read_cache_misses = m.read_cache_misses.wrapping_add(1);
        let sequential = self.hints.continues(path, offset);
        self.hints.note_read_end(path, offset.saturating_add(len as u64));
        ReadNext::Fetch { len: read_fetch_len(len, self.window, sequential), sequential }
    }

    /// Ends a read with what was fetched: more than was asked for is kept as
    /// the path's window, and what was asked for is handed out.
    pub fn complete(
        &mut self,
        path: &str,
        offset: u64,
        len: usize,
        fetch_len: usize,
        data: Vec<u8>,
        now: u64,
    ) -> (r: Vec<u8>)
        requires
            old(self).wf(),
        ensures
            final(self).wf(),
            final(self).window == old(self).window,
            final(self).cache.max_bytes() == old(self).cache.max_bytes(),
            r@ == data@.take(least(len as int, data@.len() as int)),
            final(self).hints@ == (if old(self).window > 0 {
                noted(
                    old(self).hints@,
                    path@,
                    capped_sum(offset as nat, data@.len()) as u64,
                )
            } else {
                old(self).hints@
            }),
            !(old(self).window > 0 && fetch_len > len && 0 < data@.len()
                <= old(self).cache.max_bytes()) ==> final(self).cache@ == old(self).cache@,
            old(self).window > 0 && fetch_len > len && 0 < data@.len()
                <= old(self).cache.max_bytes() ==> {
                &&& final(self).cache@.contains_key(path@)
                &&& final(self).cache@[path@].start == offset
                &&& final(self).cache@[path@].data@ == data@
                &&& final(self).cache@[path@].last_used == now
                &&& final(self).cache.took_in(&old(self).cache, path@, final(self).cache@[path@])
                &&& final(self).cache@.remove(path@).submap_of(old(self).cache@)
            },
    {
        let take: usize = if len < data.len() {
            len
        } else {
            data.len()
        };
        let part = slice_to_vec(slice_subrange(data.as_slice(), 0, take));
        assert(part@ =~= data@.take(least(len as int, data@.len() as int)));
        let end: u64 = offset.saturating_add(data.len() as u64);
        if self.window > 0 {
            if fetch_len > len {
                let ghost was = *self;
                let ghost bytes = data@;
                self.cache.insert(path, offset, data, now);
                proof {
                    if 0 < bytes.len() <= was.cache.max_bytes() {
                        let (kept, b, n) = choose|
                            kept: Map<Seq<char>, Window>,
                            b: int,
                            n: nat,
                        |
                            #[trigger] room_made(
                                was.cache@.remove(path@),
                                was.cache.bytes_without(path@),
                                kept,
                                b,
                                bytes.len() as int,
                                was.cache.max_bytes() as int,
                                n,
                            ) && self.cache@ == kept.insert(
                                path@,
                                Window { start: offset, data, last_used: now },
                            );
                        room_keeps_windows(
                            was.cache@.remove(path@),
                            was.cache.bytes_without(path@),
                            kept,
                            b,
                            bytes.len() as int,
                            was.cache.max_bytes() as int,
                            n,
                        );
                        assert(kept.dom().subset_of(was.cache@.remove(path@).dom()));
                        assert(!kept.contains_key(path@)) by {
                            if kept.contains_key(path@) {
                                assert(was.cache@.remove(path@).contains_key(path@));
                            }
                        }
                        assert(self.cache@.remove(path@) =~= kept);
                        assert forall|k: Seq<char>| #[trigger]
                            kept.contains_key(k) implies was.cache@.contains_key(k)
                            && was.cache@[k] == kept[k] by {
                            assert(was.cache@.remove(path@).contains_key(k));
                        }
                        assert(self.cache@.remove(path@).submap_of(was.cache@));
                    }
                }
            }
            self.hints.note_read_end(path, end);
        }
        part
    }

    /// Forgets what was read of `path`.
    pub fn invalidate(&mut self, path: &str)
        requires
            old(self).wf(),
        ensures
            final(self).wf(),
            final(self).window == old(self).window,
            final(self).cache.max_bytes() == old(self).cache.max_bytes(),
            final(self).cache@ == old(self).cache@.remove(path@),
            final(self).hints@ == old(self).hints@.remove(path@),
    {
        self.cache.invalidate(path);
        self.hints.forget(path);
    }

    /// Forgets everything that was read.
    pub fn clear(&mut self)
        requires
            old(self).wf(),
        ensures
            final(self).wf(),
            final(self).window == old(self).window,
            final(self).cache.max_bytes() == old(self).cache.max_bytes(),
            final(self).cache@ == Map::<Seq<char>, Window>::empty(),
            final(self).hints@ == Map::<Seq<char>, u64>::empty(),
    {
        self.cache.clear();
        self.hints.clear();
    }
}

proof fn room_keeps_windows(
    before: Map<Seq<char>, Window>,
    bytes: int,
    after: Map<Seq<char>, Window>,
    bytes_after: int,
    need: int,
    max: int,
    n: nat,
)
    requires
        room_made(before, bytes, after, bytes_after, need, max, n),
    ensures
        after.submap_of(before),
    decreases n,
{
    if n > 0 {
        let k = choose|k: Seq<char>|
            least_recent(before, k) && room_made(
                #[trigger] before.remove(k),
                bytes - before[k].data@.len(),
                after,
                bytes_after,
                need,
                max,
                (n - 1) as nat,
            );
        room_keeps_windows(
            before.remove(k),
            bytes - before[k].data@.len(),
            after,
            bytes_after,
            need,
            max,
            (n - 1) as nat,
        );
    }
}

/// Every window holds what the object of its path holds there.
pub open spec fn faithful(
    cache: Map<Seq<char>, Window>,
    objects: Map<Seq<char>, Seq<u8>>,
) -> bool {
    forall|p: Seq<char>| #[trigger]
        cache.contains_key(p) ==> {
            &&& objects.contains_key(p)
            &&& cache[p].start + cache[p].data@.len() <= objects[p].len()
            &&& cache[p].data@ == objects[p].subrange(
                cache[p].start as int,
                cache[p].start + cache[p].data@.len(),
            )
        }
}

/// A read that is served from a window gets the object's bytes, as long as the
/// object is what it was when the window was read.
pub proof fn windows_serve_the_object(
    reader: &Reader,
    objects: Map<Seq<char>, Seq<u8>>,
    path: Seq<char>,
    offset: u64,
    len: usize,
)
    requires
        faithful(reader.cache@, objects),
        reader.serves(path, offset, len),
    ensures
        ({
            let w = reader.cache@[path];
            w.data@.subrange(offset - w.start, offset - w.start + len) == range_of(
                objects[path],
                offset as nat,
                (offset + len) as nat,
            )
        }),
{
    let w = reader.cache@[path];
    assert(w.data@.subrange(offset - w.start, offset - w.start + len) =~= range_of(
        objects[path],
        offset as nat,
        (offset + len) as nat,
    ));
}

/// A read that was fetched hands out the object's bytes, and what it leaves in
/// the cache is again what the objects hold.
pub proof fn fetched_reads_are_exact(
    before: &Reader,
    after: &Reader,
    objects: Map<Seq<char>, Seq<u8>>,
    path: Seq<char>,
    offset: u64,
    len: usize,
    fetch_len: usize,
    data: Seq<u8>,
    result: Seq<u8>,
)
    requires
        faithful(before.cache@, objects),
        objects.contains_key(path),
        data == range_of(objects[path], offset as nat, (offset + fetch_len) as nat),
        len <= fetch_len,
        result == data.take(least(len as int, data.len() as int)),
        after.cache@ == before.cache@ || {
            &&& data.len() > 0
            &&& after.cache@.contains_key(path)
            &&& after.cache@[path].start == offset
            &&& after.cache@[path].data@ == data
            &&& after.cache@.remove(path).submap_of(before.cache@)
        },
    ensures
        result == range_of(objects[path], offset as nat, (offset + len) as nat),
        faithful(after.cache@, objects),
{
    let object = objects[path];
    assert(result =~= range_of(object, offset as nat, (offset + len) as nat));
    if after.cache@ != before.cache@ {
        assert forall|p: Seq<char>| #[trigger] after.cache@.contains_key(p) implies {
            &&& objects.contains_key(p)
            &&& after.cache@[p].start + after.cache@[p].data@.len() <= objects[p].len()
            &&& after.cache@[p].data@ == objects[p].subrange(
                after.cache@[p].start as int,
                after.cache@[p].start + after.cache@[p].data@.len(),
            )
        } by {
            if p == path {
                assert(data =~= object.subrange(offset as int, offset + data.len()));
            } else {
                assert(after.cache@.remove(path).contains_key(p));
                assert(before.cache@.contains_key(p));
            }
        }
    }
}

} // verus!
