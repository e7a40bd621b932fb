//! Whether cached blocks still belong to the object as it is: its tag is
//! compared with the one kept beside the blocks, once in a while.

use crate::keymap::KeyMap;
use crate::metrics::Metrics;
use crate::stat_cache::fresh;
use crate::text::same;
use vstd::prelude::*;

verus! {

/// What a comparison leads to.
#[derive(Clone, Copy, Debug, PartialEq, Eq, Structural)]
pub enum EtagNext {
    /// The store gave no tag: nothing is known, nothing is done.
    Unknown,
    /// The blocks are good.
    Same,
    /// The blocks are of another object: they go, and the new tag is kept.
    Changed,
}

/// When each object's tag was compared last.
pub struct EtagChecks {
    checked: KeyMap<u64>,
    ttl: u64,
}

impl View for EtagChecks {
    type V = Map<Seq<char>, u64>;

    closed spec fn view(&self) -> Map<Seq<char>, u64> {
        self.checked@
    }
}

impl EtagChecks {
    /// How long a comparison is good.
    pub closed spec fn ttl(&self) -> u64 {
        self.ttl
    }

    pub closed spec fn wf(&self) -> bool {
        self.checked.wf() && self.ttl > 0
    }

    /// No comparison yet; each will be good for at least one tick.
    pub fn new(ttl: u64) -> (r: Self)
        ensures
            r.wf(),
            r@ == Map::<Seq<char>, u64>::empty(),
            r.ttl() == (if ttl == 0 {
                1
            } else {
                ttl
            }),
    {
        EtagChecks {
            checked: KeyMap::new(),
            ttl: if ttl == 0 {
                1
            } else {
                ttl
            },
        }
    }

    /// The last comparison is still good.
    pub open spec fn settled(&self, key: Seq<char>, now: u64) -> bool {
        self@.contains_key(key) && fresh(self@[key], now, self.ttl())
    }

    /// Whether a comparison is due. Only then is a request sent, and counted.
    pub fn due(&self, key: &str, now: u64, m: &mut Metrics) -> (r: bool)
        requires
            self.wf(),
        ensures
            r == !self.settled(key@, now),
            *final(m) == (if r {
                Metrics {
                    s3_heads: old(m).s3_heads.wrapping_add(1),
                    s3_etag_heads: old(m).s3_etag_heads.wrapping_add(1),
                    ..*old(m)
                }
            } else {
                *old(m)
            }),
    {
        match self.checked.get(key) {
            Some(at) => {
                let age: u64 = now.saturating_sub(*at);
                if age < self.ttl {
                    return false;
                }
            },
            None => {},
        }
        m.s3_heads = m.s3_heads.wrapping_add(1);
        m.s3_etag_heads = m.s3_etag_heads.wrapping_add(1);
        true
    }

    /// Compares the tag that the store gave, if it gave one, with the one that
    /// is kept. A comparison that could be made is good for a while.
    pub fn answered(&mut self, key: &str, kept: Option<&str>, given: Option<&str>, now: u64) -> (r:
        EtagNext)
        requires
            old(self).wf(),
        ensures
            final(self).wf(),
            final(self).ttl() == old(self).ttl(),
            given is None || given->0@.len() == 0 ==> r == EtagNext::Unknown && final(self)@
                == old(self)@,
            given is Some && given->0@.len() > 0 ==> {
                &&& final(self)@ == old(self)@.insert(key@, now)
                &&& r == (if kept is Some && kept->0@ == given->0@ {
                    EtagNext::Same
                } else {
                    EtagNext::Changed
                })
            },
    {
        let given = match given {
            Some(etag) => etag,
            None => {
                return EtagNext::Unknown;
            },
        };
        if given.is_empty() {
            return EtagNext::Unknown;
        }
        self.checked.insert(key, now);
        match kept {
            Some(etag) => {
                if same(etag, given) {
                    EtagNext::Same
                } else {
                    EtagNext::Changed
                }
            },
            None => EtagNext::Changed,
        }
    }

    /// Forgets all comparisons.
    pub fn clear(&mut self)
        requires
            old(self).wf(),
        ensures
            final(self).wf(),
            final(self).ttl() == old(self).ttl(),
            final(self)@ == Map::<Seq<char>, u64>::empty(),
    {
        self.checked.clear();
    }
}

} // verus!
