//! The read-ahead cache: one window of bytes per path, bounded in bytes and in
//! number, and the hints by which a sequential read is recognised.

use crate::keymap::KeyMap;
use vstd::prelude::*;
use vstd::slice::{slice_subrange, slice_to_vec};

verus! {

/// How many windows are held at most.
pub const READ_CACHE_MAX_ENTRIES: usize = 256;

/// How many hints are held at most; they are all dropped where one more would
/// be too many.
pub const MAX_READ_SEQ_ENTRIES: usize = 4096;

/// A window: the bytes of an object from `start` on.
#[derive(Debug)]
pub struct Window {
    pub start: u64,
    pub data: Vec<u8>,
    pub last_used: u64,
}

/// The windows of one mount.
pub struct ReadCache {
    entries: KeyMap<Window>,
    bytes: usize,
    max_bytes: usize,
}

impl View for ReadCache {
    type V = Map<Seq<char>, Window>;

    closed spec fn view(&self) -> Map<Seq<char>, Window> {
        self.entries@
    }
}

/// How many bytes a window holds.
pub open spec fn window_len() -> spec_fn(Window) -> nat {
    |w: Window| w.data@.len()
}

/// `k` is one of the windows that were used longest ago.
pub open spec fn least_recent(m: Map<Seq<char>, Window>, k: Seq<char>) -> bool {
    &&& m.contains_key(k)
    &&& forall|j: Seq<char>| #[trigger] m.contains_key(j) ==> m[k].last_used <= m[j].last_used
}

/// A window of `need` bytes fits beside `count` windows of `bytes` bytes.
pub open spec fn fits(count: nat, bytes: int, need: int, max: int) -> bool {
    count < READ_CACHE_MAX_ENTRIES && bytes + need <= max
}

/// `after`, with `bytes_after` bytes, is `before`, with `bytes`, without `n`
/// windows: each time one of those used longest ago, and only as long as
/// `need` bytes do not fit.
pub open spec fn room_made(
    before: Map<Seq<char>, Window>,
    bytes: int,
    after: Map<Seq<char>, Window>,
    bytes_after: int,
    need: int,
    max: int,
    n: nat,
) -> bool
    decreases n,
{
    if n == 0 {
        after == before && bytes_after == bytes
    } else {
        !fits(before.dom().len(), bytes, need, max) && exists|k: Seq<char>|
            least_recent(before, k) && room_made(
                #[trigger] before.remove(k),
                bytes - before[k].data@.len(),
                after,
                bytes_after,
                need,
                max,
                (n - 1) as nat,
            )
    }
}

impl ReadCache {
    /// How many bytes the windows hold together.
    pub closed spec fn bytes(&self) -> nat {
        self.bytes as nat
    }

    /// How many bytes they may hold.
    pub closed spec fn max_bytes(&self) -> nat {
        self.max_bytes as nat
    }

    /// The bytes are counted right, and both bounds hold.
    pub closed spec fn wf(&self) -> bool {
        &&& self.entries.wf()
        &&& self.bytes == self.entries.sum(window_len())
        &&& self.bytes <= self.max_bytes
        &&& self.entries@.dom().len() <= READ_CACHE_MAX_ENTRIES
    }

    /// Both bounds hold at all times.
    pub proof fn stays_bounded(&self)
        requires
            self.wf(),
        ensures
            self.bytes() <= self.max_bytes(),
            self@.dom().finite(),
            self@.dom().len() <= READ_CACHE_MAX_ENTRIES,
    {
        self.entries.keys_are_the_domain();
    }

    pub fn new(max_bytes: usize) -> (r: Self)
        ensures
            r.wf(),
            r@ == Map::<Seq<char>, Window>::empty(),
            r.bytes() == 0,
            r.max_bytes() == max_bytes,
    {
        let r = ReadCache { entries: KeyMap::new(), bytes: 0, max_bytes };
        assert(r.entries@.dom() =~= Set::<Seq<char>>::empty());
        r
    }

    /// The bytes `offset..offset + len` of `path` lie within its window.
    pub open spec fn covers(&self, path: Seq<char>, offset: u64, len: usize) -> bool {
        &&& self@.contains_key(path)
        &&& self@[path].start <= offset
        &&& offset + len <= self@[path].start + self@[path].data@.len()
        &&& self@[path].start + self@[path].data@.len() <= u64::MAX
    }

    /// The bytes asked for, where the window holds all of them. The window is
    /// then the one used last.
    pub fn hit(&mut self, path: &str, offset: u64, len: usize, now: u64) -> (r: Option<Vec<u8>>)
        requires
            old(self).wf(),
        ensures
            final(self).wf(),
            final(self).max_bytes() == old(self).max_bytes(),
            final(self).bytes() == old(self).bytes(),
            r is Some <==> old(self).covers(path@, offset, len),
            r is Some ==> {
                let w = old(self)@[path@];
                &&& r->0@ == w.data@.subrange(offset - w.start, offset - w.start + len)
                &&& final(self)@ == old(self)@.insert(path@, Window { last_used: now, ..w })
            },
            r is None ==> final(self)@ == old(self)@,
    {
        let ghost was = *self;
        let (from, to): (usize, usize) = match self.entries.get(path) {
            None => {
                return None;
            },
            Some(w) => {
                let held: usize = w.data.len();
                if w.start > u64::MAX - held as u64 {
                    return None;
                }
                let end: u64 = w.start + held as u64;
                if offset < w.start || offset > end || len as u64 > end - offset {
                    return None;
                }
                let from: usize = (offset - w.start) as usize;
                (from, from + len)
            },
        };
        proof {
            self.entries.keys_are_the_domain();
        }
        match self.entries.remove(path) {
            None => None,
            Some(w) => {
                let part = slice_to_vec(slice_subrange(w.data.as_slice(), from, to));
                let again = Window { start: w.start, data: w.data, last_used: now };
                self.entries.insert(path, again);
                proof {
                    assert(self@ =~= was@.insert(path@, Window { last_used: now, ..w }));
                    assert(self@.dom() =~= was@.dom());
                    assert(window_len()(again) == window_len()(w));
                }
                Some(part)
            },
        }
    }

    /// Drops the window of `path`.
    pub fn invalidate(&mut self, path: &str)
        requires
            old(self).wf(),
        ensures
            final(self).wf(),
            final(self).max_bytes() == old(self).max_bytes(),
            final(self)@ == old(self)@.remove(path@),
            final(self).bytes() == (if old(self)@.contains_key(path@) {
                old(self).bytes() - old(self)@[path@].data@.len()
            } else {
                old(self).bytes() as int
            }),
    {
        let ghost was = *self;
        proof {
            self.entries.keys_are_the_domain();
        }
        match self.entries.remove(path) {
            Some(w) => {
                assert(self.entries.sum(window_len()) + window_len()(w) == was.entries.sum(
                    window_len(),
                ));
                self.bytes = self.bytes - w.data.len();
            },
            None => {
                assert(self.entries.sum(window_len()) == was.entries.sum(window_len()));
            },
        }
        assert(self@.dom() =~= was@.dom().remove(path@));
    }

    /// Drops all windows.
    pub fn clear(&mut self)
        requires
            old(self).wf(),
        ensures
            final(self).wf(),
            final(self).max_bytes() == old(self).max_bytes(),
            final(self)@ == Map::<Seq<char>, Window>::empty(),
            final(self).bytes() == 0,
    {
        self.entries.clear();
        self.bytes = 0;
        assert(self.entries@.dom() =~= Set::<Seq<char>>::empty());
    }

    fn drop_least_recent(&mut self)
        requires
            old(self).wf(),
            old(self)@.dom().len() > 0,
        ensures
            final(self).wf(),
            final(self).max_bytes() == old(self).max_bytes(),
            final(self)@.dom().len() == old(self)@.dom().len() - 1,
            exists|k: Seq<char>|
                least_recent(old(self)@, k) && final(self)@ == #[trigger] old(self)@.remove(k)
                    && final(self).bytes() == old(self).bytes() - old(self)@[k].data@.len(),
    {
        let n: usize = self.entries.len();
        let mut best: usize = 0;
        let mut used: u64 = self.entries.value_at(0).last_used;
        let mut i: usize = 1;
        while i < n
            invariant
                self.entries.wf(),
                n == self.entries.keys().len(),
                best < n,
                1 <= i <= n,
                used == self.entries@[self.entries.keys()[best as int]].last_used,
                forall|j: int|
                    0 <= j < i ==> used <= self.entries@[#[trigger] self.entries.keys()[j]].last_used,
            decreases n - i,
        {
            let t: u64 = self.entries.value_at(i).last_used;
            if t < used {
                best = i;
                used = t;
            }
            i += 1;
        }
        let k = self.entries.key_at(best).to_owned();
        let ghost was = *self;
        proof {
            self.entries.keys_are_the_domain();
            assert forall|j: Seq<char>| #[trigger] was@.contains_key(j) implies was@[k@].last_used
                <= was@[j].last_used by {
                assert(self.entries@.contains_key(j));
                let x = self.entries.keys().index_of(j);
                assert(self.entries.keys()[x] == j);
            }
            assert(least_recent(was@, k@));
        }
        self.invalidate(k.as_str());
        proof {
            assert(self@.dom() =~= was@.dom().remove(k@));
        }
    }

    /// Keeps a window for `path`, in place of the one it had. An empty window,
    /// and one larger than the whole cache, is not kept. Windows used longest
    /// ago make room for it.
    pub fn insert(&mut self, path: &str, start: u64, data: Vec<u8>, now: u64)
        requires
            old(self).wf(),
        ensures
            final(self).wf(),
            final(self).max_bytes() == old(self).max_bytes(),
            data@.len() == 0 || data@.len() > old(self).max_bytes() ==> *final(self) == *old(self),
            0 < data@.len() <= old(self).max_bytes() ==> final(self).took_in(
                old(self),
                path@,
                Window { start, data, last_used: now },
            ),
    {
        let need: usize = data.len();
        if need == 0 || need > self.max_bytes {
            return;
        }
        let ghost was = *self;
        self.invalidate(path);
        let ghost start_map = self@;
        let ghost start_bytes = self.bytes() as int;
        let ghost max = self.max_bytes() as int;
        let ghost mut steps: nat = 0;
        proof {
            self.entries.keys_are_the_domain();
            assert(start_map == was@.remove(path@));
        }
        while self.bytes > self.max_bytes - need || self.entries.len() >= READ_CACHE_MAX_ENTRIES
            invariant
                self.wf(),
                0 < need <= self.max_bytes,
                max == self.max_bytes,
                !self@.contains_key(path@),
                forall|end: Map<Seq<char>, Window>, b: int, k: nat|
                    #[trigger] room_made(self@, self.bytes() as int, end, b, need as int, max, k)
                        ==> room_made(start_map, start_bytes, end, b, need as int, max, k + steps),
            decreases self@.dom().len(),
        {
            let ghost before = *self;
            proof {
                self.entries.keys_are_the_domain();
                if self@.dom().len() == 0 {
                    assert(self.entries.keys().len() == 0);
                    self.nothing_weighs_nothing();
                }
            }
            self.drop_least_recent();
            proof {
                let k0 = choose|k: Seq<char>|
                    least_recent(before@, k) && self@ == #[trigger] before@.remove(k)
                        && self.bytes() == before.bytes() - before@[k].data@.len();
                assert forall|end: Map<Seq<char>, Window>, b: int, k: nat| #[trigger]
                    room_made(
                        self@,
                        self.bytes() as int,
                        end,
                        b,
                        need as int,
                        max,
                        k,
                    ) implies room_made(
                    start_map,
                    start_bytes,
                    end,
                    b,
                    need as int,
                    max,
                    k + (steps + 1),
                ) by {
                    assert(before@.remove(k0) == self@);
                    assert(room_made(
                        before@,
                        before.bytes() as int,
                        end,
                        b,
                        need as int,
                        max,
                        k + 1,
                    ));
                }
                steps = steps + 1;
            }
        }
        let ghost kept = self@;
        let ghost bytes = self.bytes() as int;
        proof {
            assert(room_made(self@, self.bytes() as int, kept, bytes, need as int, max, 0));
            assert(room_made(start_map, start_bytes, kept, bytes, need as int, max, 0 + steps));
            self.entries.keys_are_the_domain();
        }
        let ghost mid = *self;
        let w = Window { start, data, last_used: now };
        self.entries.insert(path, w);
        self.bytes = self.bytes + need;
        proof {
            assert(window_len()(w) == need);
            assert(self.entries.sum(window_len()) == mid.entries.sum(window_len()) + window_len()(w));
            assert(self@.dom() =~= mid@.dom().insert(path@));
            assert(self@ == kept.insert(path@, w));
            assert(fits(kept.dom().len(), bytes, need as int, was.max_bytes() as int));
            assert(room_made(
                was@.remove(path@),
                was.bytes_without(path@),
                kept,
                bytes,
                need as int,
                was.max_bytes() as int,
                steps,
            ));
        }
    }

    /// `self` is `before` with the window `w` of `path` taken in: in place of
    /// the one that the path had, and of those that had to make room.
    pub open spec fn took_in(&self, before: &Self, path: Seq<char>, w: Window) -> bool {
        exists|kept: Map<Seq<char>, Window>, bytes: int, n: nat|
            {
                &&& #[trigger] room_made(
                    before@.remove(path),
                    before.bytes_without(path),
                    kept,
                    bytes,
                    w.data@.len() as int,
                    before.max_bytes() as int,
                    n,
                )
                &&& fits(
                    kept.dom().len(),
                    bytes,
                    w.data@.len() as int,
                    before.max_bytes() as int,
                )
                &&& self@ == kept.insert(path, w)
                &&& self.bytes() == bytes + w.data@.len()
            }
    }

    /// The bytes of all windows but that of `path`.
    pub open spec fn bytes_without(&self, path: Seq<char>) -> int {
        if self@.contains_key(path) {
            self.bytes() - self@[path].data@.len()
        } else {
            self.bytes() as int
        }
    }

    proof fn nothing_weighs_nothing(&self)
        requires
            self.wf(),
            self.entries.keys().len() == 0,
        ensures
            self.bytes == 0,
    {
        self.entries.empty_sum(window_len());
    }
}

} // verus!
