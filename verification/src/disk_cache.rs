//! The disk cache: which blocks it holds, in which order they were used, how
//! much room they take, and which of them go when it is too much.

use crate::disk_format::{
    block_file, block_name, block_of_file, etag_file, etag_name, format_order, frame_block,
    framed, framed_len,
    holds_block_of, key_len, order_of, order_text, order_view, parse_block_file, parse_order, temporary_file,
    temporary_name, unframe_block, Unframed,
};
use crate::fetching::{lossy_of, lossy_text};
use crate::text::same;
use std::collections::VecDeque;
use vstd::prelude::*;
use vstd::seq_lib::to_multiset_insert;
use vstd::utf8::*;

verus! {

/// The cache's room is counted in whole units of this many bytes.
pub const DISK_CACHE_BUDGET_UNIT: u64 = 1024 * 1024;

/// `s` without the first `x` in it.
pub open spec fn without_first<T>(s: Seq<T>, x: T) -> Seq<T>
    decreases s.len(),
{
    if s.len() == 0 {
        s
    } else if s[0] == x {
        s.drop_first()
    } else {
        seq![s[0]] + without_first(s.drop_first(), x)
    }
}

proof fn without_first_at<T>(s: Seq<T>, x: T, i: int)
    requires
        0 <= i < s.len(),
        s[i] == x,
        forall|j: int| 0 <= j < i ==> s[j] != x,
    ensures
        without_first(s, x) == s.remove(i),
    decreases s.len(),
{
    if i == 0 {
        assert(s.remove(0) =~= s.drop_first());
    } else {
        let t = s.drop_first();
        without_first_at(t, x, i - 1);
        assert(s.remove(i) =~= seq![s[0]] + t.remove(i - 1));
    }
}

proof fn without_absent<T>(s: Seq<T>, x: T)
    requires
        !s.contains(x),
    ensures
        without_first(s, x) == s,
    decreases s.len(),
{
    if s.len() > 0 {
        let t = s.drop_first();
        assert(!t.contains(x)) by {
            if t.contains(x) {
                let i = t.index_of(x);
                assert(s[i + 1] == x);
            }
        }
        assert(s[0] != x);
        without_absent(t, x);
        assert(s =~= seq![s[0]] + t);
    }
}

/// The order after `e` was used: it is the last one now.
pub open spec fn touched<T>(order: Seq<T>, e: T) -> Seq<T> {
    without_first(order, e).push(e)
}

/// Using a block lists it once, at the end, and drops no other block.
pub proof fn touching_keeps_the_rest<T>(order: Seq<T>, e: T)
    requires
        order.no_duplicates(),
    ensures
        touched(order, e).no_duplicates(),
        touched(order, e).last() == e,
        forall|x: T| #[trigger] touched(order, e).contains(x) <==> order.contains(x) || x == e,
{
    let t = touched(order, e);
    if order.contains(e) {
        let i = order.index_of(e);
        without_first_at(order, e, i);
        let r = order.remove(i);
        assert(t == r.push(e));
        assert forall|a: int, b: int| 0 <= a < t.len() && 0 <= b < t.len() && a != b implies t[a]
            != t[b] by {
            let x = if a < i {
                a
            } else if a < r.len() {
                a + 1
            } else {
                i
            };
            let y = if b < i {
                b
            } else if b < r.len() {
                b + 1
            } else {
                i
            };
            assert(t[a] == order[x]);
            assert(t[b] == order[y]);
        }
        assert forall|x: T| #[trigger] t.contains(x) <==> order.contains(x) || x == e by {
            if t.contains(x) {
                let a = t.index_of(x);
                let y = if a < i {
                    a
                } else if a < r.len() {
                    a + 1
                } else {
                    i
                };
                assert(order[y] == x);
            }
            if order.contains(x) {
                let y = order.index_of(x);
                if y < i {
                    assert(t[y] == x);
                } else if y > i {
                    assert(t[y - 1] == x);
                } else {
                    assert(t[t.len() - 1] == x);
                }
            }
            if x == e {
                assert(t[t.len() - 1] == x);
            }
        }
    } else {
        without_absent(order, e);
        assert(t == order.push(e));
        assert forall|x: T| #[trigger] t.contains(x) <==> order.contains(x) || x == e by {
            if t.contains(x) {
                let a = t.index_of(x);
                if a < order.len() {
                    assert(order[a] == x);
                }
            }
            if order.contains(x) {
                assert(t[order.index_of(x)] == x);
            }
            if x == e {
                assert(t[t.len() - 1] == x);
            }
        }
        assert forall|a: int, b: int| 0 <= a < t.len() && 0 <= b < t.len() && a != b implies t[a]
            != t[b] by {
            if a == order.len() {
                assert(order.contains(order[b]));
            } else if b == order.len() {
                assert(order.contains(order[a]));
            }
        }
    }
}

/// Ordered by time, the earliest first.
pub open spec fn by_time<T>(v: Seq<(i128, T)>) -> bool {
    forall|i: int, j: int| 0 <= i <= j < v.len() ==> (#[trigger] v[i]).0 <= (#[trigger] v[j]).0
}

/// Orders by time, the earliest first.
pub fn sort_by_time<T>(v: Vec<(i128, T)>) -> (r: Vec<(i128, T)>)
    ensures
        by_time(r@),
        r@.to_multiset() == v@.to_multiset(),
{
    let mut rest = v;
    let mut out: Vec<(i128, T)> = Vec::new();
    let ghost all = v@.to_multiset();
    proof {
        out@.to_multiset_ensures();
        assert(rest@.to_multiset().add(out@.to_multiset()) =~= all);
    }
    while rest.len() > 0
        invariant
            by_time(out@),
            rest@.to_multiset().add(out@.to_multiset()) == all,
        decreases rest@.len(),
    {
        let ghost rest0 = rest@;
        let ghost out0 = out@;
        let e = rest.remove(0);
        proof {
            assert(rest0 =~= rest@.insert(0, e));
            to_multiset_insert(rest@, 0, e);
        }
        let mut at: usize = out.len();
        while at > 0 && out[at - 1].0 > e.0
            invariant
                at <= out@.len(),
                out@ == out0,
                forall|k: int| at <= k < out@.len() ==> (#[trigger] out@[k]).0 > e.0,
            decreases at,
        {
            at -= 1;
        }
        out.insert(at, e);
        proof {
            to_multiset_insert(out0, at as int, e);
            assert(out@ =~= out0.insert(at as int, e));
            assert(rest@.to_multiset().add(out@.to_multiset()) =~= all);
            assert forall|i: int, j: int| 0 <= i <= j < out@.len() implies (#[trigger] out@[i]).0
                <= (#[trigger] out@[j]).0 by {
                if i < at {
                    assert(out@[i] == out0[i]);
                } else if i > at {
                    assert(out@[i] == out0[i - 1]);
                }
                if j < at {
                    assert(out@[j] == out0[j]);
                } else if j > at {
                    assert(out@[j] == out0[j - 1]);
                }
                if i < at && j == at {
                    assert(out0[i].0 <= out0[at - 1].0);
                }
            }
        }
    }
    proof {
        rest@.to_multiset_ensures();
        assert(rest@.to_multiset() =~= vstd::multiset::Multiset::<(i128, T)>::empty());
        assert(out@.to_multiset() =~= all);
    }
    out
}

/// Bytes rounded up to whole units.
pub open spec fn rounded_up(bytes: nat) -> nat {
    ((bytes + DISK_CACHE_BUDGET_UNIT - 1) / DISK_CACHE_BUDGET_UNIT as int
        * DISK_CACHE_BUDGET_UNIT) as nat
}

/// What a look into the cache gives.
#[derive(Debug, PartialEq, Eq)]
pub enum BlockLookup {
    /// The block.
    Hit { data: Vec<u8> },
    /// No block.
    Miss,
    /// No block, and the file in its place is to be removed.
    Broken,
}

/// The disk cache. The files themselves lie elsewhere; this is what is known
/// of them.
#[derive(Debug)]
pub struct DiskCache {
    pub max_bytes: u64,
    pub block_size: u64,
    /// Bytes that the blocks take up.
    pub used: u64,
    /// The blocks in the order in which they were used, the latest last.
    pub order: VecDeque<(String, u64)>,
    /// Bytes to be left free on the disk.
    pub min_free_bytes: u64,
}

impl DiskCache {
    /// The blocks in the order in which they were used.
    pub open spec fn listed(&self) -> Seq<(Seq<char>, u64)> {
        order_view(self.order@)
    }

    /// Nothing but the order has changed.
    pub open spec fn same_but_order(&self, before: &Self) -> bool {
        &&& self.max_bytes == before.max_bytes
        &&& self.block_size == before.block_size
        &&& self.used == before.used
        &&& self.min_free_bytes == before.min_free_bytes
    }

    /// A cache of which nothing is known yet. The room is rounded up to whole
    /// units, and a block has at least one byte.
    pub fn new(max_bytes: usize, block_size: usize, min_free_bytes: u64) -> (r: Self)
        requires
            rounded_up(max_bytes as nat) <= u64::MAX,
        ensures
            r.max_bytes == rounded_up(max_bytes as nat),
            r.block_size == (if block_size == 0 {
                1
            } else {
                block_size as int
            }),
            r.used == 0,
            r.listed() == Seq::<(Seq<char>, u64)>::empty(),
            r.min_free_bytes == min_free_bytes,
    {
        let units: u64 = max_bytes as u64 / DISK_CACHE_BUDGET_UNIT;
        let whole: u64 = units * DISK_CACHE_BUDGET_UNIT;
        let max: u64 = if whole < max_bytes as u64 {
            whole + DISK_CACHE_BUDGET_UNIT
        } else {
            whole
        };
        let block_size: u64 = if block_size == 0 {
            1
        } else {
            block_size as u64
        };
        let r = DiskCache {
            max_bytes: max,
            block_size,
            used: 0,
            order: VecDeque::new(),
            min_free_bytes,
        };
        assert(r.listed() =~= Seq::<(Seq<char>, u64)>::empty());
        r
    }

    /// The name of the file that keeps the tag of `key`.
    pub fn etag_path(&self, key: &str) -> (r: String)
        ensures
            r@ == etag_name(key@),
    {
        etag_file(key)
    }

    /// The name of the order file.
    pub fn order_path(&self) -> (r: String)
        ensures
            r@ == "lru.order"@,
    {
        "lru.order".to_owned()
    }

    /// The name of the file of a block.
    pub fn path_for(&self, key: &str, block: u64) -> (r: String)
        ensures
            r@ == block_name(key@, block),
    {
        block_file(key, block)
    }

    /// The name under which a block is written before it is moved into place.
    pub fn temporary_path(&self, key: &str, block: u64) -> (r: String)
        ensures
            r@ == temporary_name(key@, block),
    {
        temporary_file(key, block)
    }

    /// Adds the blocks that an order file lists.
    pub fn load_order(&mut self, raw: &str)
        ensures
            final(self).same_but_order(old(self)),
            final(self).listed() == old(self).listed() + order_of(raw@),
    {
        let ghost before = self.listed();
        let more = parse_order(raw);
        let ghost added = order_view(more@);
        let mut i: usize = 0;
        assert(self.listed() =~= before + added.take(0));
        while i < more.len()
            invariant
                i <= more@.len(),
                added == order_view(more@),
                self.same_but_order(old(self)),
                self.listed() == before + added.take(i as int),
            decreases more@.len() - i,
        {
            let ghost now = self.order@;
            let e = (more[i].0.clone(), more[i].1);
            self.order.push_back(e);
            proof {
                assert(order_view(self.order@) =~= order_view(now).push((e.0@, e.1)));
                assert(self.listed() =~= before + added.take(i + 1));
            }
            i += 1;
        }
        assert(added.take(added.len() as int) =~= added);
    }

    /// Adds blocks that were found, the one written first first.
    pub fn rebuild_order_from_mtime(&mut self, found: Vec<(i128, (String, u64))>)
        ensures
            final(self).same_but_order(old(self)),
            exists|sorted: Seq<(i128, (String, u64))>|
                {
                    &&& #[trigger] by_time(sorted)
                    &&& sorted.to_multiset() == found@.to_multiset()
                    &&& final(self).listed() == old(self).listed() + sorted.map_values(
                        |f: (i128, (String, u64))| (f.1.0@, f.1.1),
                    )
                },
    {
        let ghost before = self.listed();
        let sorted = sort_by_time(found);
        let ghost all = sorted@;
        let ghost g = |f: (i128, (String, u64))| (f.1.0@, f.1.1);
        let mut i: usize = 0;
        assert(all.take(0).map_values(g) =~= Seq::<(Seq<char>, u64)>::empty());
        assert(self.listed() =~= before + all.take(0).map_values(g));
        while i < sorted.len()
            invariant
                i <= sorted@.len(),
                sorted@ == all,
                g == (|f: (i128, (String, u64))| (f.1.0@, f.1.1)),
                self.same_but_order(old(self)),
                self.listed() == before + all.take(i as int).map_values(g),
            decreases sorted@.len() - i,
        {
            let ghost now = self.order@;
            let e = (sorted[i].1.0.clone(), sorted[i].1.1);
            self.order.push_back(e);
            proof {
                assert(order_view(self.order@) =~= order_view(now).push((e.0@, e.1)));
                assert(all.take(i + 1).map_values(g) =~= all.take(i as int).map_values(g).push(
                    (e.0@, e.1),
                ));
                assert(self.listed() =~= before + all.take(i + 1).map_values(g));
            }
            i += 1;
        }
        assert(all.take(all.len() as int) =~= all);
    }

    /// The order file.
    pub fn save_order(&self) -> (r: String)
        ensures
            r@ == order_text(self.listed()),
    {
        format_order(&self.order)
    }

    /// Takes note that a block was used.
    pub fn touch(&mut self, key: &str, block: u64)
        ensures
            final(self).same_but_order(old(self)),
            final(self).listed() == touched(old(self).listed(), (key@, block)),
    {
        let ghost before = self.listed();
        let mut i: usize = 0;
        while i < self.order.len()
            invariant
                i <= self.order@.len(),
                *self == *old(self),
                before == self.listed(),
                forall|j: int| 0 <= j < i ==> #[trigger] before[j] != (key@, block),
            decreases self.order@.len() - i,
        {
            if self.order[i].1 == block && same(self.order[i].0.as_str(), key) {
                match self.order.remove(i) {
                    Some(e) => {
                        self.order.push_back(e);
                    },
                    None => {},
                }
                proof {
                    without_first_at(before, (key@, block), i as int);
                    assert(self.listed() =~= before.remove(i as int).push((key@, block)));
                }
                return;
            }
            i += 1;
        }
        self.order.push_back((key.to_owned(), block));
        proof {
            without_absent(before, (key@, block));
            assert(self.listed() =~= before.push((key@, block)));
        }
    }

    /// What a block's file holds; a block that is found counts as used.
    pub fn read_block(&mut self, key: &str, block: u64, raw: Option<&[u8]>) -> (r: BlockLookup)
        ensures
            final(self).same_but_order(old(self)),
            raw is None || raw->0@.len() < 12 ==> r is Miss && final(self).listed() == old(self).listed(),
            raw is Some && raw->0@.len() >= 12 && !holds_block_of(raw->0@, key@) ==> r is Broken
                && final(self).listed() == old(self).listed(),
            raw is Some && raw->0@.len() >= 12 && holds_block_of(raw->0@, key@) ==> {
                &&& r is Hit
                &&& r->data@ == raw->0@.skip(4 + key_len(raw->0@) + 8)
                &&& final(self).listed() == touched(old(self).listed(), (key@, block))
            },
    {
        let raw = match raw {
            Some(raw) => raw,
            None => {
                return BlockLookup::Miss;
            },
        };
        match unframe_block(key, raw) {
            Unframed::TooShort => BlockLookup::Miss,
            Unframed::Useless => BlockLookup::Broken,
            Unframed::Data { data } => {
                self.touch(key, block);
                BlockLookup::Hit { data }
            },
        }
    }

    /// Writing a block of that many bytes would leave too little free, where
    /// it is known how much that is.
    pub open spec fn too_little_free(&self, available: Option<u64>, bytes: nat) -> bool {
        &&& self.min_free_bytes > 0
        &&& available is Some
        &&& (available->0 < bytes || available->0 - bytes < self.min_free_bytes)
    }

    /// The file for a block, unless writing it would leave too little free.
    pub fn block_to_write(&self, key: &str, data: &[u8], available: Option<u64>) -> (r: Option<
        Vec<u8>,
    >)
        ensures
            r is None <==> self.too_little_free(available, framed_len(key@, data@.len())),
            r is Some ==> r->0@ == framed(key@, data@),
    {
        let frame = frame_block(key, data);
        proof {
            frame_len(key@, data@);
        }
        match available {
            Some(avail) => {
                if self.min_free_bytes > 0 && avail.saturating_sub(frame.len() as u64)
                    < self.min_free_bytes {
                    return None;
                }
            },
            None => {},
        }
        Some(frame)
    }

    /// Takes note that a block of `bytes` was written in place of one of
    /// `replaced`, and says whether the cache is too full now.
    pub fn block_written(&mut self, key: &str, block: u64, bytes: u64, replaced: u64) -> (full:
        bool)
        ensures
            final(self).listed() == touched(old(self).listed(), (key@, block)),
            final(self).used == old(self).used.wrapping_add(bytes).wrapping_sub(replaced),
            *final(self) == (DiskCache {
                order: final(self).order,
                used: final(self).used,
                ..*old(self)
            }),
            full == (final(self).used > final(self).max_bytes),
    {
        self.touch(key, block);
        self.used = self.used.wrapping_add(bytes).wrapping_sub(replaced);
        self.used > self.max_bytes
    }

    /// The block that goes next: the one used longest ago, as long as the
    /// cache is too full and any is listed.
    pub fn evict_next(&mut self) -> (r: Option<(String, u64)>)
        ensures
            final(self).same_but_order(old(self)),
            r is Some <==> old(self).used > old(self).max_bytes && old(self).listed().len() > 0,
            r is Some ==> {
                &&& ((r->0).0@, (r->0).1) == old(self).listed()[0]
                &&& final(self).listed() == old(self).listed().drop_first()
            },
            r is None ==> final(self).listed() == old(self).listed(),
    {
        if self.used <= self.max_bytes {
            return None;
        }
        let ghost before = self.listed();
        let e = self.order.pop_front();
        proof {
            if e is Some {
                assert(self.listed() =~= before.drop_first());
            }
        }
        e
    }

    /// Takes note that a block's file of that many bytes is gone.
    pub fn evicted(&mut self, bytes: u64)
        ensures
            *final(self) == (DiskCache {
                used: if old(self).used >= bytes {
                    (old(self).used - bytes) as u64
                } else {
                    0
                },
                ..*old(self)
            }),
    {
        self.used = self.used.saturating_sub(bytes);
    }

    /// Whether the cache is still too full.
    pub fn over_budget(&self) -> (r: bool)
        ensures
            r == (self.used > self.max_bytes),
    {
        self.used > self.max_bytes
    }

    /// Counts the bytes of all blocks anew.
    pub fn rescan_used(&mut self, lens: &Vec<u64>)
        requires
            total(lens@) <= u64::MAX,
        ensures
            *final(self) == (DiskCache { used: total(lens@) as u64, ..*old(self) }),
    {
        let mut used: u64 = 0;
        let mut i: usize = 0;
        assert(lens@.take(0) =~= Seq::<u64>::empty());
        while i < lens.len()
            invariant
                i <= lens@.len(),
                used == total(lens@.take(i as int)),
                total(lens@) <= u64::MAX,
            decreases lens@.len() - i,
        {
            proof {
                assert(lens@.take(i + 1).drop_last() =~= lens@.take(i as int));
                total_grows(lens@, i + 1);
            }
            used = used + lens[i];
            i += 1;
        }
        assert(lens@.take(lens@.len() as int) =~= lens@);
        self.used = used;
    }

    /// Drops a key's blocks from the order.
    pub fn invalidate(&mut self, key: &str)
        ensures
            final(self).same_but_order(old(self)),
            final(self).listed() == old(self).listed().filter(
                |e: (Seq<char>, u64)| e.0 != key@,
            ),
    {
        let ghost keep = |e: (Seq<char>, u64)| e.0 != key@;
        let ghost all = self.listed();
        let mut kept: VecDeque<(String, u64)> = VecDeque::new();
        let mut i: usize = 0;
        assert(all.take(0) =~= Seq::<(Seq<char>, u64)>::empty());
        assert(all.take(0).filter(keep) =~= Seq::<(Seq<char>, u64)>::empty());
        assert(order_view(kept@) =~= all.take(0).filter(keep));
        while i < self.order.len()
            invariant
                i <= self.order@.len(),
                *self == *old(self),
                all == self.listed(),
                keep == (|e: (Seq<char>, u64)| e.0 != key@),
                order_view(kept@) == all.take(i as int).filter(keep),
            decreases self.order@.len() - i,
        {
            let ghost kept0 = kept@;
            let e = (self.order[i].0.clone(), self.order[i].1);
            proof {
                assert(all.take(i + 1) =~= all.take(i as int).push(all[i as int]));
                assert(all.take(i + 1).drop_last() =~= all.take(i as int));
                reveal(Seq::filter);
                assert(all[i as int] == (e.0@, e.1));
            }
            if !same(e.0.as_str(), key) {
                kept.push_back(e);
                assert(order_view(kept@) =~= order_view(kept0).push((e.0@, e.1)));
            }
            assert(order_view(kept@) =~= all.take(i + 1).filter(keep));
            i += 1;
        }
        assert(all.take(all.len() as int) =~= all);
        self.order = kept;
    }

    /// Takes note that the file of an invalidated block is gone.
    pub fn file_removed(&mut self, bytes: u64)
        ensures
            *final(self) == (DiskCache {
                used: old(self).used.wrapping_sub(bytes),
                ..*old(self)
            }),
    {
        self.used = self.used.wrapping_sub(bytes);
    }

    /// Forgets all blocks.
    pub fn clear(&mut self)
        ensures
            final(self).listed() == Seq::<(Seq<char>, u64)>::empty(),
            final(self).used == 0,
            *final(self) == (DiskCache {
                order: final(self).order,
                used: 0,
                ..*old(self)
            }),
    {
        self.order.clear();
        self.used = 0;
        assert(self.listed() =~= Seq::<(Seq<char>, u64)>::empty());
    }
}

/// The bytes that are left once blocks of these sizes were evicted, the first
/// one first, for as long as there are more bytes than `max`.
pub open spec fn left_after_evictions(used: nat, sizes: Seq<nat>, max: nat) -> nat
    decreases sizes.len(),
{
    if used <= max || sizes.len() == 0 {
        used
    } else {
        let left = if used >= sizes[0] {
            (used - sizes[0]) as nat
        } else {
            0
        };
        left_after_evictions(left, sizes.drop_first(), max)
    }
}

/// The bytes of blocks of these sizes.
pub open spec fn bytes_of(sizes: Seq<nat>) -> nat
    decreases sizes.len(),
{
    if sizes.len() == 0 {
        0
    } else {
        sizes[0] + bytes_of(sizes.drop_first())
    }
}

/// Where every block is listed and its file can be removed, evicting brings
/// the cache down to the room it has.
pub proof fn eviction_makes_room(used: nat, sizes: Seq<nat>, max: nat)
    requires
        used <= bytes_of(sizes),
    ensures
        left_after_evictions(used, sizes, max) <= max,
    decreases sizes.len(),
{
    if used > max && sizes.len() > 0 {
        let left = if used >= sizes[0] {
            (used - sizes[0]) as nat
        } else {
            0
        };
        eviction_makes_room(left, sizes.drop_first(), max);
    }
}

/// The block that a file of the cache holds, with its key as text.
pub fn found_block(name: &str, raw: &[u8]) -> (r: Option<(String, u64)>)
    ensures
        r is Some <==> block_of_file(name@, raw@) is Some,
        r is Some ==> (r->0).0@ == lossy_text((block_of_file(name@, raw@)->0).0) && (r->0).1 == (
        block_of_file(name@, raw@)->0).1,
{
    match parse_block_file(name, raw) {
        None => None,
        Some((key, block)) => Some((lossy_of(key.as_slice()), block)),
    }
}

/// The sum of some lengths.
pub open spec fn total(lens: Seq<u64>) -> nat
    decreases lens.len(),
{
    if lens.len() == 0 {
        0
    } else {
        total(lens.drop_last()) + lens.last() as nat
    }
}

proof fn total_grows(lens: Seq<u64>, i: int)
    requires
        0 <= i <= lens.len(),
    ensures
        total(lens.take(i)) <= total(lens),
    decreases lens.len() - i,
{
    if i == lens.len() {
        assert(lens.take(i) =~= lens);
    } else {
        total_grows(lens, i + 1);
        assert(lens.take(i + 1).drop_last() =~= lens.take(i));
    }
}

proof fn frame_len(key: Seq<char>, data: Seq<u8>)
    ensures
        framed(key, data).len() == framed_len(key, data.len()),
{
    vstd::bytes::lemma_auto_spec_u32_to_from_le_bytes();
    vstd::bytes::lemma_auto_spec_u64_to_from_le_bytes();
}

/// The bytes in use follow the files. Beside other files that take up
/// `others`, writing a block of `bytes` in place of one of `replaced` leaves
/// exactly what the files take up then, and dropping it leaves the others.
pub proof fn accounting_follows_the_files(others: nat, replaced: u64, bytes: u64)
    requires
        others + replaced <= u64::MAX,
        others + bytes <= u64::MAX,
    ensures
        ((others + replaced) as u64).wrapping_add(bytes).wrapping_sub(replaced) == others + bytes,
        ((others + bytes) as u64).wrapping_sub(bytes) == others,
{
}

} // verus!
