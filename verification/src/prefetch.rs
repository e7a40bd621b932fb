//! Fetching blocks ahead in the background: one task per block at most, and
//! what each answer leads to.

use crate::metrics::Metrics;
use crate::ranges::{byte_range, range_header};
use crate::text::same;
use vstd::prelude::*;

verus! {

/// The blocks that are being fetched ahead just now.
pub struct Inflight {
    entries: Vec<(String, u64)>,
}

impl View for Inflight {
    type V = Set<(Seq<char>, u64)>;

    closed spec fn view(&self) -> Set<(Seq<char>, u64)> {
        self.listed().to_set()
    }
}

impl Inflight {
    closed spec fn listed(&self) -> Seq<(Seq<char>, u64)> {
        Seq::new(self.entries@.len(), |i: int| (self.entries@[i].0@, self.entries@[i].1))
    }

    /// No block is listed twice.
    pub closed spec fn wf(&self) -> bool {
        self.listed().no_duplicates()
    }

    pub fn new() -> (r: Self)
        ensures
            r.wf(),
            r@ == Set::<(Seq<char>, u64)>::empty(),
    {
        let r = Inflight { entries: Vec::new() };
        assert(r@ =~= Set::<(Seq<char>, u64)>::empty());
        r
    }

    /// How many blocks are being fetched ahead.
    pub fn len(&self) -> (r: usize)
        requires
            self.wf(),
        ensures
            r == self@.len(),
    {
        proof {
            self.listed().unique_seq_to_set();
        }
        self.entries.len()
    }

    fn find(&self, key: &str, block: u64) -> (r: Option<usize>)
        ensures
            r is None ==> !self@.contains((key@, block)),
            r is Some ==> r->0 < self.entries@.len() && self.listed()[r->0 as int] == (key@, block),
    {
        let mut i: usize = 0;
        while i < self.entries.len()
            invariant
                i <= self.entries@.len(),
                forall|j: int| 0 <= j < i ==> #[trigger] self.listed()[j] != (key@, block),
            decreases self.entries@.len() - i,
        {
            if self.entries[i].1 == block && same(self.entries[i].0.as_str(), key) {
                return Some(i);
            }
            i += 1;
        }
        None
    }

    /// Takes a block on, unless it is being fetched already.
    pub fn begin(&mut self, key: &str, block: u64) -> (r: bool)
        requires
            old(self).wf(),
        ensures
            final(self).wf(),
            r == !old(self)@.contains((key@, block)),
            final(self)@ == old(self)@.insert((key@, block)),
    {
        let ghost was = *self;
        match self.find(key, block) {
            Some(i) => {
                assert(self.listed()[i as int] == (key@, block));
                assert(self@ =~= was@.insert((key@, block)));
                false
            },
            None => {
                self.entries.push((key.to_owned(), block));
                proof {
                    let n = was.entries@.len() as int;
                    assert(self.listed() =~= was.listed().push((key@, block)));
                    assert(!was.listed().contains((key@, block)));
                    assert forall|a: int, b: int|
                        0 <= a < self.listed().len() && 0 <= b < self.listed().len() && a
                            != b implies self.listed()[a] != self.listed()[b] by {
                        if a == n {
                            assert(self.listed()[b] == was.listed()[b]);
                        } else if b == n {
                            assert(self.listed()[a] == was.listed()[a]);
                        }
                    }
                    assert forall|x: (Seq<char>, u64)| #[trigger] self@.contains(x) <==> was@.insert(
                        (key@, block),
                    ).contains(x) by {
                        if self.listed().contains(x) {
                            let j = self.listed().index_of(x);
                            if j < n {
                                assert(was.listed()[j] == x);
                            }
                        }
                        if was.listed().contains(x) {
                            let j = was.listed().index_of(x);
                            assert(self.listed()[j] == x);
                        }
                        assert(self.listed()[n] == (key@, block));
                    }
                    assert(self@ =~= was@.insert((key@, block)));
                }
                true
            },
        }
    }

    /// Puts a block down again.
    pub fn end(&mut self, key: &str, block: u64)
        requires
            old(self).wf(),
        ensures
            final(self).wf(),
            final(self)@ == old(self)@.remove((key@, block)),
    {
        let ghost was = *self;
        match self.find(key, block) {
            None => {
                assert(self@ =~= was@.remove((key@, block)));
            },
            Some(i) => {
                self.entries.remove(i);
                proof {
                    let x0 = (key@, block);
                    let n = self.entries@.len() as int;
                    assert forall|j: int| 0 <= j < n implies #[trigger] self.listed()[j]
                        == was.listed()[if j < i {
                        j
                    } else {
                        j + 1
                    }] by {}
                    assert forall|a: int, b: int| 0 <= a < n && 0 <= b < n && a != b implies
                        self.listed()[a] != self.listed()[b] by {
                        let x = if a < i {
                            a
                        } else {
                            a + 1
                        };
                        let y = if b < i {
                            b
                        } else {
                            b + 1
                        };
                        assert(was.listed()[x] != was.listed()[y]);
                    }
                    assert forall|x: (Seq<char>, u64)| #[trigger] self@.contains(x) <==> was@.remove(
                        x0,
                    ).contains(x) by {
                        if self.listed().contains(x) {
                            let j = self.listed().index_of(x);
                            let k = if j < i {
                                j
                            } else {
                                j + 1
                            };
                            assert(was.listed()[k] == x);
                            assert(was.listed()[i as int] == x0);
                        }
                        if was.listed().contains(x) && x != x0 {
                            let k = was.listed().index_of(x);
                            if k < i {
                                assert(self.listed()[k] == x);
                            } else {
                                assert(self.listed()[k - 1] == x);
                            }
                        }
                    }
                    assert(self@ =~= was@.remove(x0));
                }
            },
        }
    }
}

/// Takes a block on for fetching ahead; one that is being fetched already is
/// skipped, and counted.
pub fn prefetch_begin(inflight: &mut Inflight, key: &str, block: u64, m: &mut Metrics) -> (r: bool)
    requires
        old(inflight).wf(),
    ensures
        final(inflight).wf(),
        r == !old(inflight)@.contains((key@, block)),
        final(inflight)@ == old(inflight)@.insert((key@, block)),
        *final(m) == (if r {
            *old(m)
        } else {
            Metrics { prefetch_skipped: old(m).prefetch_skipped.wrapping_add(1), ..*old(m) }
        }),
{
    if inflight.begin(key, block) {
        true
    } else {
        m.prefetch_skipped = m.prefetch_skipped.wrapping_add(1);
        false
    }
}

/// How fetching one block ahead ended.
#[derive(Clone, Copy, Debug, PartialEq, Eq, Structural)]
pub enum PrefetchOutcome {
    /// No leave to send a request.
    NoPermit,
    /// The request failed.
    RequestFailed,
    /// The body took too long.
    TimedOut,
    /// The body broke off.
    BodyFailed,
    /// There is nothing at that place.
    Empty,
    /// The block is here.
    Received,
}

/// What is done with it.
#[derive(Clone, Copy, Debug, PartialEq, Eq, Structural)]
pub enum PrefetchNext {
    /// Keep the block and go on with the next one.
    Store,
    /// Go on with the next one.
    Skip,
    /// Fetch no more.
    Stop,
}

/// What the end of one block leads to, and what is counted.
pub fn prefetch_ended(outcome: PrefetchOutcome, m: &mut Metrics) -> (r: PrefetchNext)
    ensures
        r == (match outcome {
            PrefetchOutcome::Received => PrefetchNext::Store,
            PrefetchOutcome::BodyFailed => PrefetchNext::Skip,
            _ => PrefetchNext::Stop,
        }),
        final(m).prefetch_failed == (match outcome {
            PrefetchOutcome::RequestFailed
            | PrefetchOutcome::TimedOut
            | PrefetchOutcome::BodyFailed => old(m).prefetch_failed.wrapping_add(1),
            _ => old(m).prefetch_failed,
        }),
        final(m).s3_errors == (if outcome == PrefetchOutcome::TimedOut {
            old(m).s3_errors.wrapping_add(1)
        } else {
            old(m).s3_errors
        }),
        *final(m) == (Metrics {
            prefetch_failed: final(m).prefetch_failed,
            s3_errors: final(m).s3_errors,
            ..*old(m)
        }),
{
    match outcome {
        PrefetchOutcome::NoPermit => PrefetchNext::Stop,
        PrefetchOutcome::RequestFailed => {
            m.prefetch_failed = m.prefetch_failed.wrapping_add(1);
            PrefetchNext::Stop
        },
        PrefetchOutcome::TimedOut => {
            m.prefetch_failed = m.prefetch_failed.wrapping_add(1);
            m.s3_errors = m.s3_errors.wrapping_add(1);
            PrefetchNext::Stop
        },
        PrefetchOutcome::BodyFailed => {
            m.prefetch_failed = m.prefetch_failed.wrapping_add(1);
            PrefetchNext::Skip
        },
        PrefetchOutcome::Empty => PrefetchNext::Stop,
        PrefetchOutcome::Received => PrefetchNext::Store,
    }
}

/// The range of one block.
pub fn block_range(block: u64, block_size: u64) -> (r: String)
    requires
        block * block_size + block_size <= u64::MAX,
    ensures
        r@ == byte_range((block * block_size) as nat, (block * block_size + block_size) as nat),
{
    assert(block * block_size >= 0) by (nonlinear_arith);
    let start: u64 = block * block_size;
    range_header(start, start + block_size)
}

} // verus!
