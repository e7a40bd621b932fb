//! What was looked up a moment ago: paths that are there, and paths that are
//! not. Both are kept for a short time and in bounded number.

use crate::keymap::KeyMap;
use crate::listing::DirEntry;
use crate::metrics::Metrics;
use crate::text::{trim_end, trim_end_char};
use vstd::prelude::*;

verus! {

/// Values that are good for a while, by path. Times are in ticks of a clock
/// that does not go back.
pub struct TimedCache<T> {
    map: KeyMap<(u64, T)>,
    ttl: u64,
    max_entries: usize,
}

impl<T> View for TimedCache<T> {
    type V = Map<Seq<char>, (u64, T)>;

    closed spec fn view(&self) -> Map<Seq<char>, (u64, T)> {
        self.map@
    }
}

/// What was taken at `at` is still good at `now`.
pub open spec fn fresh(at: u64, now: u64, ttl: u64) -> bool {
    now - at < ttl
}

/// `k` is one of the paths that were taken longest ago.
pub open spec fn is_oldest<T>(m: Map<Seq<char>, (u64, T)>, k: Seq<char>) -> bool {
    &&& m.contains_key(k)
    &&& forall|j: Seq<char>| #[trigger] m.contains_key(j) ==> m[k].0 <= m[j].0
}

/// `after` is `before` with `value` kept for `path`. Where it was full and did
/// not hold the path, one of those taken longest ago made room.
pub open spec fn inserted<T>(
    before: Map<Seq<char>, (u64, T)>,
    after: Map<Seq<char>, (u64, T)>,
    capacity: nat,
    path: Seq<char>,
    value: (u64, T),
) -> bool {
    if before.contains_key(path) || before.dom().len() < capacity {
        after == before.insert(path, value)
    } else {
        exists|k: Seq<char>|
            is_oldest(before, k) && after == (#[trigger] before.remove(k)).insert(path, value)
    }
}

impl<T> TimedCache<T> {
    /// How long values are good.
    pub closed spec fn ttl(&self) -> u64 {
        self.ttl
    }

    /// How many values are kept.
    pub closed spec fn capacity(&self) -> nat {
        self.max_entries as nat
    }

    /// No path twice, and no more than are to be kept.
    pub closed spec fn wf(&self) -> bool {
        &&& self.map.wf()
        &&& self.max_entries > 0
        &&& self.ttl > 0
        &&& self.map@.dom().len() <= self.max_entries
    }

    /// The bound holds at all times.
    pub proof fn stays_bounded(&self)
        requires
            self.wf(),
        ensures
            self@.dom().finite(),
            self@.dom().len() <= self.capacity(),
    {
        self.map.keys_are_the_domain();
    }

    /// An empty cache; at least one value is kept, and for at least one tick.
    pub fn new(ttl: u64, max_entries: usize) -> (r: Self)
        ensures
            r.wf(),
            r@ == Map::<Seq<char>, (u64, T)>::empty(),
            r.ttl() == (if ttl == 0 {
                1
            } else {
                ttl
            }),
            r.capacity() == (if max_entries == 0 {
                1
            } else {
                max_entries as nat
            }),
    {
        let ttl: u64 = if ttl == 0 {
            1
        } else {
            ttl
        };
        let max_entries: usize = if max_entries == 0 {
            1
        } else {
            max_entries
        };
        TimedCache { map: KeyMap::new(), ttl, max_entries }
    }

    /// How many values are kept just now.
    pub fn len(&self) -> (r: usize)
        requires
            self.wf(),
        ensures
            r == self@.dom().len(),
    {
        self.map.len()
    }

    /// The value of `path`, as long as it is good.
    pub fn get(&self, path: &str, now: u64) -> (r: Option<&T>)
        requires
            self.wf(),
        ensures
            r is Some <==> self@.contains_key(path@) && fresh(self@[path@].0, now, self.ttl()),
            r is Some ==> *r->0 == self@[path@].1,
    {
        match self.map.get(path) {
            Some(e) => {
                let age: u64 = now.saturating_sub(e.0);
                if age < self.ttl {
                    Some(&e.1)
                } else {
                    None
                }
            },
            None => None,
        }
    }

    /// Whether `path` is held at all, good or not.
    pub fn holds(&self, path: &str) -> (r: bool)
        requires
            self.wf(),
        ensures
            r == self@.contains_key(path@),
    {
        self.map.get(path).is_some()
    }

    fn drop_oldest(&mut self)
        requires
            old(self).map.wf(),
            old(self).map@.dom().len() > 0,
        ensures
            final(self).map.wf(),
            final(self).ttl == old(self).ttl,
            final(self).max_entries == old(self).max_entries,
            exists|k: Seq<char>|
                is_oldest(old(self)@, k) && final(self)@ == #[trigger] old(self)@.remove(k),
    {
        let n: usize = self.map.len();
        let mut best: usize = 0;
        let mut at: u64 = self.map.value_at(0).0;
        let mut i: usize = 1;
        while i < n
            invariant
                self.map.wf(),
                n == self.map.keys().len(),
                best < n,
                1 <= i <= n,
                at == self.map@[self.map.keys()[best as int]].0,
                forall|j: int|
                    0 <= j < i ==> at <= self.map@[#[trigger] self.map.keys()[j]].0,
            decreases n - i,
        {
            let t: u64 = self.map.value_at(i).0;
            if t < at {
                best = i;
                at = t;
            }
            i += 1;
        }
        let k = self.map.key_at(best).to_owned();
        let ghost was = *self;
        proof {
            self.map.keys_are_the_domain();
            assert forall|j: Seq<char>| #[trigger] was@.contains_key(j) implies was@[k@].0
                <= was@[j].0 by {
                assert(self.map@.contains_key(j));
                let x = self.map.keys().index_of(j);
                assert(self.map.keys()[x] == j);
            }
            assert(is_oldest(was@, k@));
        }
        let _ = self.map.remove(k.as_str());
        assert(self@ == was@.remove(k@));
    }

    /// Keeps `value` for `path`. Where the cache is full and does not hold the
    /// path yet, one of those taken longest ago makes room.
    pub fn insert(&mut self, path: &str, value: T, now: u64)
        requires
            old(self).wf(),
        ensures
            final(self).wf(),
            final(self).ttl() == old(self).ttl(),
            final(self).capacity() == old(self).capacity(),
            inserted(
                old(self)@,
                final(self)@,
                old(self).capacity(),
                path@,
                (now, value),
            ),
    {
        let ghost was = *self;
        proof {
            self.map.keys_are_the_domain();
        }
        if self.map.len() >= self.max_entries && self.map.get(path).is_none() {
            self.drop_oldest();
            let ghost dropped = *self;
            self.map.insert(path, (now, value));
            proof {
                let k = choose|k: Seq<char>|
                    is_oldest(was@, k) && dropped@ == #[trigger] was@.remove(k);
                assert(self@ == was@.remove(k).insert(path@, (now, value)));
                assert(was@.remove(k).dom() =~= was@.dom().remove(k));
                assert(self@.dom() =~= was@.remove(k).dom().insert(path@));
            }
        } else {
            self.map.insert(path, (now, value));
            proof {
                assert(self@.dom() =~= was@.dom().insert(path@));
            }
        }
    }

    /// Forgets `path`.
    pub fn invalidate(&mut self, path: &str)
        requires
            old(self).wf(),
        ensures
            final(self).wf(),
            final(self).ttl() == old(self).ttl(),
            final(self).capacity() == old(self).capacity(),
            final(self)@ == old(self)@.remove(path@),
    {
        let ghost was = *self;
        proof {
            self.map.keys_are_the_domain();
        }
        let _ = self.map.remove(path);
        assert(self@.dom() =~= was@.dom().remove(path@));
    }

    /// Forgets every path that begins with `prefix`.
    pub fn invalidate_under(&mut self, prefix: &str)
        requires
            old(self).wf(),
        ensures
            final(self).wf(),
            final(self).ttl() == old(self).ttl(),
            final(self).capacity() == old(self).capacity(),
            final(self)@ == old(self)@.remove_keys(
                Set::new(|k: Seq<char>| prefix@.is_prefix_of(k)),
            ),
    {
        let ghost was = *self;
        proof {
            self.map.keys_are_the_domain();
        }
        self.map.remove_under(prefix);
        proof {
            let gone = Set::new(|k: Seq<char>| prefix@.is_prefix_of(k));
            assert(self@.dom() =~= was@.dom().difference(gone));
            vstd::set_lib::lemma_len_subset(self@.dom(), was@.dom());
        }
    }

    /// Forgets everything.
    pub fn clear(&mut self)
        requires
            old(self).wf(),
        ensures
            final(self).wf(),
            final(self).ttl() == old(self).ttl(),
            final(self).capacity() == old(self).capacity(),
            final(self)@ == Map::<Seq<char>, (u64, T)>::empty(),
    {
        self.map.clear();
        assert(self.map@.dom() =~= Set::<Seq<char>>::empty());
    }
}

/// What the caches say of a path.
#[derive(Debug, PartialEq, Eq)]
pub enum Cached {
    /// It is there.
    Present { entry: DirEntry },
    /// It is not there.
    Absent,
    /// Nothing is known.
    Unknown,
}

/// The two caches of one mount.
pub struct StatCaches {
    pub stats: TimedCache<DirEntry>,
    pub negative: TimedCache<bool>,
}

impl StatCaches {
    pub open spec fn wf(&self) -> bool {
        self.stats.wf() && self.negative.wf()
    }

    /// Both caches keep entries as long as before, and as many.
    pub open spec fn same_limits(&self, before: &Self) -> bool {
        &&& self.stats.ttl() == before.stats.ttl()
        &&& self.negative.ttl() == before.negative.ttl()
        &&& self.stats.capacity() == before.stats.capacity()
        &&& self.negative.capacity() == before.negative.capacity()
    }

    /// The path is known to be there.
    pub open spec fn knows_present(&self, path: Seq<char>, now: u64) -> bool {
        self.stats@.contains_key(path) && fresh(self.stats@[path].0, now, self.stats.ttl())
    }

    /// The path is known to be missing.
    pub open spec fn knows_absent(&self, path: Seq<char>, now: u64) -> bool {
        self.negative@.contains_key(path) && fresh(self.negative@[path].0, now, self.negative.ttl())
    }

    pub fn new(
        stat_ttl: u64,
        stat_max_entries: usize,
        negative_ttl: u64,
        negative_max_entries: usize,
    ) -> (r: Self)
        ensures
            r.wf(),
            r.stats@ == Map::<Seq<char>, (u64, DirEntry)>::empty(),
            r.negative@ == Map::<Seq<char>, (u64, bool)>::empty(),
            r.stats.ttl() == (if stat_ttl == 0 {
                1
            } else {
                stat_ttl
            }),
            r.negative.ttl() == (if negative_ttl == 0 {
                1
            } else {
                negative_ttl
            }),
            r.stats.capacity() == (if stat_max_entries == 0 {
                1
            } else {
                stat_max_entries as nat
            }),
            r.negative.capacity() == (if negative_max_entries == 0 {
                1
            } else {
                negative_max_entries as nat
            }),
    {
        StatCaches {
            stats: TimedCache::new(stat_ttl, stat_max_entries),
            negative: TimedCache::new(negative_ttl, negative_max_entries),
        }
    }

    /// What is known of `path`; an answer from here is counted.
    pub fn lookup(&self, path: &str, now: u64, m: &mut Metrics) -> (r: Cached)
        requires
            self.wf(),
        ensures
            self.knows_present(path@, now) ==> {
                &&& r is Present
                &&& r->entry@ == self.stats@[path@].1@
                &&& *final(m) == (Metrics {
                    stat_cache_hits: old(m).stat_cache_hits.wrapping_add(1),
                    stat_positive_cache_hits: old(m).stat_positive_cache_hits.wrapping_add(1),
                    ..*old(m)
                })
            },
            !self.knows_present(path@, now) && self.knows_absent(path@, now) ==> {
                &&& r is Absent
                &&& *final(m) == (Metrics {
                    stat_cache_hits: old(m).stat_cache_hits.wrapping_add(1),
                    stat_negative_cache_hits: old(m).stat_negative_cache_hits.wrapping_add(1),
                    ..*old(m)
                })
            },
            !self.knows_present(path@, now) && !self.knows_absent(path@, now) ==> r is Unknown
                && *final(m) == *old(m),
    {
        match self.stats.get(path, now) {
            Some(e) => {
                m.stat_cache_hits = m.stat_cache_hits.wrapping_add(1);
                m.stat_positive_cache_hits = m.stat_positive_cache_hits.wrapping_add(1);
                return Cached::Present { entry: e.copy() };
            },
            None => {},
        }
        if self.negative_hit(path, now) {
            m.stat_cache_hits = m.stat_cache_hits.wrapping_add(1);
            m.stat_negative_cache_hits = m.stat_negative_cache_hits.wrapping_add(1);
            return Cached::Absent;
        }
        Cached::Unknown
    }

    /// Whether `path` is known to be missing.
    pub fn negative_hit(&self, path: &str, now: u64) -> (r: bool)
        requires
            self.wf(),
        ensures
            r == self.knows_absent(path@, now),
    {
        self.negative.get(path, now).is_some()
    }

    /// Keeps that `path` is missing.
    pub fn negative_insert(&mut self, path: &str, now: u64)
        requires
            old(self).wf(),
        ensures
            final(self).wf(),
            final(self).same_limits(old(self)),
            final(self).stats == old(self).stats,
            inserted(
                old(self).negative@,
                final(self).negative@,
                old(self).negative.capacity(),
                path@,
                (now, true),
            ),
    {
        self.negative.insert(path, true, now);
    }

    /// Keeps what `path` is.
    pub fn cache_insert(&mut self, path: &str, entry: DirEntry, now: u64)
        requires
            old(self).wf(),
        ensures
            final(self).wf(),
            final(self).same_limits(old(self)),
            final(self).negative == old(self).negative,
            inserted(
                old(self).stats@,
                final(self).stats@,
                old(self).stats.capacity(),
                path@,
                (now, entry),
            ),
    {
        self.stats.insert(path, entry, now);
    }

    /// Keeps what a lookup found.
    pub fn remember(&mut self, path: &str, found: &Option<DirEntry>, now: u64)
        requires
            old(self).wf(),
        ensures
            final(self).wf(),
            final(self).same_limits(old(self)),
            found is None ==> final(self).stats@ == old(self).stats@ && inserted(
                old(self).negative@,
                final(self).negative@,
                old(self).negative.capacity(),
                path@,
                (now, true),
            ),
            found matches Some(e) ==> final(self).negative@ == old(self).negative@ && exists|
                kept: DirEntry,
            |
                kept@ == e@ && #[trigger] inserted(
                    old(self).stats@,
                    final(self).stats@,
                    old(self).stats.capacity(),
                    path@,
                    (now, kept),
                ),
    {
        match found {
            Some(e) => {
                let copy = e.copy();
                self.cache_insert(path, copy, now);
            },
            None => {
                self.negative_insert(path, now);
            },
        }
    }

    /// Forgets `path`, there or not.
    pub fn invalidate_stat(&mut self, path: &str)
        requires
            old(self).wf(),
        ensures
            final(self).wf(),
            final(self).same_limits(old(self)),
            final(self).stats@ == old(self).stats@.remove(path@),
            final(self).negative@ == old(self).negative@.remove(path@),
    {
        self.stats.invalidate(path);
        self.negative.invalidate(path);
    }

    /// Forgets what a new or lifted tombstone changes: the path, and for a
    /// directory everything under it.
    pub fn invalidate_trash_cached(&mut self, path: &str, is_dir: bool)
        requires
            old(self).wf(),
        ensures
            final(self).wf(),
            final(self).same_limits(old(self)),
            ({
                let under = if is_dir {
                    Set::new(
                        |k: Seq<char>| trim_end(path@, '/').push('/').is_prefix_of(k),
                    ).insert(path@)
                } else {
                    Set::empty().insert(path@)
                };
                &&& final(self).stats@ == old(self).stats@.remove_keys(under)
                &&& final(self).negative@ == old(self).negative@.remove_keys(under)
            }),
    {
        let ghost was = *self;
        self.invalidate_stat(path);
        if is_dir {
            let mut dir = trim_end_char(path, '/');
            dir.push('/');
            self.stats.invalidate_under(dir.as_str());
            self.negative.invalidate_under(dir.as_str());
            proof {
                let under = Set::new(
                    |k: Seq<char>| trim_end(path@, '/').push('/').is_prefix_of(k),
                ).insert(path@);
                assert(self.stats@ =~= was.stats@.remove_keys(under));
                assert(self.negative@ =~= was.negative@.remove_keys(under));
            }
        } else {
            proof {
                let under = Set::<Seq<char>>::empty().insert(path@);
                assert(self.stats@ =~= was.stats@.remove_keys(under));
                assert(self.negative@ =~= was.negative@.remove_keys(under));
            }
        }
    }

    /// Forgets everything.
    pub fn clear(&mut self)
        requires
            old(self).wf(),
        ensures
            final(self).wf(),
            final(self).same_limits(old(self)),
            final(self).stats@ == Map::<Seq<char>, (u64, DirEntry)>::empty(),
            final(self).negative@ == Map::<Seq<char>, (u64, bool)>::empty(),
    {
        self.stats.clear();
        self.negative.clear();
    }
}

/// What was just looked up is answered from here, and what was just
/// invalidated is not.
pub proof fn remembered_until_invalidated(
    after_remember: &StatCaches,
    after_invalidate: &StatCaches,
    path: Seq<char>,
    now: u64,
)
    requires
        after_remember.wf(),
        after_remember.stats.ttl() > 0,
        after_remember.stats@.contains_key(path),
        after_remember.stats@[path].0 == now,
        after_invalidate.stats@ == after_remember.stats@.remove(path),
        after_invalidate.negative@ == after_remember.negative@.remove(path),
    ensures
        after_remember.knows_present(path, now),
        !after_invalidate.knows_present(path, now),
        !after_invalidate.knows_absent(path, now),
{
}

} // verus!
