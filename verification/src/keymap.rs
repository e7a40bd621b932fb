//! A map from texts to values: each text at most once.

use crate::text::{same, starts_with};
use vstd::prelude::*;

verus! {

/// A map keyed by text.
pub struct KeyMap<V> {
    entries: Vec<(String, V)>,
}

spec fn sum_over<V>(s: Seq<(String, V)>, f: spec_fn(V) -> nat) -> nat
    decreases s.len(),
{
    if s.len() == 0 {
        0
    } else {
        sum_over(s.drop_last(), f) + f(s.last().1)
    }
}

proof fn sum_without<V>(s: Seq<(String, V)>, i: int, f: spec_fn(V) -> nat)
    requires
        0 <= i < s.len(),
    ensures
        sum_over(s, f) == sum_over(s.remove(i), f) + f(s[i].1),
    decreases s.len(),
{
    if i == s.len() - 1 {
        assert(s.remove(i) =~= s.drop_last());
    } else {
        sum_without(s.drop_last(), i, f);
        assert(s.remove(i).drop_last() =~= s.drop_last().remove(i));
        assert(s.remove(i).last() == s.last());
    }
}

impl<V> View for KeyMap<V> {
    type V = Map<Seq<char>, V>;

    closed spec fn view(&self) -> Map<Seq<char>, V> {
        Map::new(|k: Seq<char>| self.keys().contains(k), |k: Seq<char>|
            self.entries@[self.keys().index_of(k)].1)
    }
}

impl<V> KeyMap<V> {
    /// The keys, in the order in which they are held.
    pub closed spec fn keys(&self) -> Seq<Seq<char>> {
        Seq::new(self.entries@.len(), |i: int| self.entries@[i].0@)
    }

    /// The sum of `f` over all values.
    pub closed spec fn sum(&self, f: spec_fn(V) -> nat) -> nat {
        sum_over(self.entries@, f)
    }

    /// No key occurs twice.
    pub open spec fn wf(&self) -> bool {
        self.keys().no_duplicates()
    }

    /// What stands at place `i` is the value of its key.
    proof fn place(&self, i: int)
        requires
            self.wf(),
            0 <= i < self.entries@.len(),
        ensures
            self@.contains_key(self.entries@[i].0@),
            self@[self.entries@[i].0@] == self.entries@[i].1,
            self.keys()[i] == self.entries@[i].0@,
    {
        let k = self.entries@[i].0@;
        assert(self.keys()[i] == k);
        assert(self.keys().contains(k));
        let j = self.keys().index_of(k);
        assert(self.keys()[j] == k);
        assert(i == j);
    }

    /// The keys held in order are exactly the keys of the map, and there are as
    /// many of them.
    pub proof fn keys_are_the_domain(&self)
        requires
            self.wf(),
        ensures
            forall|k: Seq<char>| self.keys().contains(k) <==> #[trigger] self@.contains_key(k),
            self@.dom().finite(),
            self@.dom().len() == self.keys().len(),
    {
        self.keys().unique_seq_to_set();
        assert(self@.dom() =~= self.keys().to_set());
    }

    /// Without keys every sum is zero.
    pub proof fn empty_sum(&self, f: spec_fn(V) -> nat)
        requires
            self.keys().len() == 0,
        ensures
            self.sum(f) == 0,
    {
    }

    pub fn new() -> (r: Self)
        ensures
            r.wf(),
            r@ == Map::<Seq<char>, V>::empty(),
            forall|f: spec_fn(V) -> nat| #[trigger] r.sum(f) == 0,
    {
        let r = KeyMap { entries: Vec::new() };
        assert(r@ =~= Map::<Seq<char>, V>::empty());
        r
    }

    pub fn len(&self) -> (r: usize)
        requires
            self.wf(),
        ensures
            r == self@.dom().len(),
            r == self.keys().len(),
    {
        proof {
            self.keys_are_the_domain();
        }
        self.entries.len()
    }

    fn find(&self, k: &str) -> (r: Option<usize>)
        requires
            self.wf(),
        ensures
            r is None ==> !self@.contains_key(k@),
            r is Some ==> r->0 < self.entries@.len() && self.entries@[r->0 as int].0@ == k@,
    {
        let mut i: usize = 0;
        while i < self.entries.len()
            invariant
                i <= self.entries@.len(),
                forall|j: int| 0 <= j < i ==> (#[trigger] self.entries@[j]).0@ != k@,
            decreases self.entries@.len() - i,
        {
            if same(self.entries[i].0.as_str(), k) {
                return Some(i);
            }
            i += 1;
        }
        proof {
            if self.keys().contains(k@) {
                let j = self.keys().index_of(k@);
                assert(self.entries@[j].0@ == k@);
            }
        }
        None
    }

    /// The value of `k`.
    pub fn get(&self, k: &str) -> (r: Option<&V>)
        requires
            self.wf(),
        ensures
            r is Some <==> self@.contains_key(k@),
            r is Some ==> *r->0 == self@[k@],
    {
        match self.find(k) {
            None => None,
            Some(i) => {
                proof {
                    self.place(i as int);
                }
                Some(&self.entries[i].1)
            },
        }
    }

    /// The key at place `i`.
    pub fn key_at(&self, i: usize) -> (r: &str)
        requires
            self.wf(),
            i < self.keys().len(),
        ensures
            r@ == self.keys()[i as int],
            self@.contains_key(r@),
    {
        proof {
            self.place(i as int);
        }
        self.entries[i].0.as_str()
    }

    /// The value at place `i`.
    pub fn value_at(&self, i: usize) -> (r: &V)
        requires
            self.wf(),
            i < self.keys().len(),
        ensures
            self@.contains_key(self.keys()[i as int]),
            *r == self@[self.keys()[i as int]],
    {
        proof {
            self.place(i as int);
        }
        &self.entries[i].1
    }

    /// Binds `k` to `v`.
    pub fn insert(&mut self, k: &str, v: V)
        requires
            old(self).wf(),
        ensures
            final(self).wf(),
            final(self)@ == old(self)@.insert(k@, v),
            !old(self)@.contains_key(k@) ==> forall|f: spec_fn(V) -> nat| #[trigger]
                final(self).sum(f) == old(self).sum(f) + f(v),
    {
        let ghost was = *self;
        match self.find(k) {
            Some(i) => {
                self.entries.set(i, (k.to_owned(), v));
                proof {
                    assert(self.keys() =~= was.keys());
                    assert forall|t: Seq<char>| #[trigger] self@.contains_key(t) implies self@[t]
                        == was@.insert(k@, v)[t] by {
                        let j = self.keys().index_of(t);
                        assert(self.keys()[j] == t);
                        self.place(j);
                        was.place(j);
                        was.place(i as int);
                    }
                    was.place(i as int);
                    assert(self@ =~= was@.insert(k@, v));
                }
            },
            None => {
                self.entries.push((k.to_owned(), v));
                proof {
                    let n = was.entries@.len() as int;
                    assert(self.entries@.drop_last() =~= was.entries@);
                    assert(self.keys() =~= was.keys().push(k@));
                    assert(!was.keys().contains(k@));
                    assert(self.wf()) by {
                        assert forall|a: int, b: int|
                            0 <= a < self.keys().len() && 0 <= b < self.keys().len() && a
                                != b implies self.keys()[a] != self.keys()[b] by {
                            if a == n {
                                assert(was.keys()[b] == self.keys()[b]);
                            } else if b == n {
                                assert(was.keys()[a] == self.keys()[a]);
                            }
                        }
                    }
                    assert forall|t: Seq<char>| self@.contains_key(t) <==> was@.insert(k@, v).contains_key(
                        t,
                    ) by {
                        if self.keys().contains(t) {
                            let j = self.keys().index_of(t);
                            if j < n {
                                assert(was.keys()[j] == t);
                            }
                        }
                        if was.keys().contains(t) {
                            let j = was.keys().index_of(t);
                            assert(self.keys()[j] == t);
                        }
                        assert(self.keys()[n] == k@);
                    }
                    assert forall|t: Seq<char>| #[trigger] self@.contains_key(t) implies self@[t]
                        == was@.insert(k@, v)[t] by {
                        let j = self.keys().index_of(t);
                        assert(self.keys()[j] == t);
                        self.place(j);
                        if j < n {
                            was.place(j);
                            assert(was.keys()[j] == t);
                        }
                    }
                    assert(self@ =~= was@.insert(k@, v));
                }
            },
        }
    }

    /// Removes `k` and hands its value out.
    pub fn remove(&mut self, k: &str) -> (r: Option<V>)
        requires
            old(self).wf(),
        ensures
            final(self).wf(),
            final(self)@ == old(self)@.remove(k@),
            r is Some <==> old(self)@.contains_key(k@),
            r is Some ==> r->0 == old(self)@[k@],
            forall|f: spec_fn(V) -> nat| #[trigger]
                final(self).sum(f) + (if r is Some {
                    f(r->0)
                } else {
                    0
                }) == old(self).sum(f),
    {
        let ghost was = *self;
        match self.find(k) {
            None => {
                assert(self@ =~= was@.remove(k@));
                None
            },
            Some(i) => {
                let (_, v) = self.entries.remove(i);
                proof {
                    was.place(i as int);
                    was.without(*self, i as int);
                    assert forall|f: spec_fn(V) -> nat| #[trigger]
                        self.sum(f) + f(v) == was.sum(f) by {
                        sum_without(was.entries@, i as int, f);
                    }
                }
                Some(v)
            },
        }
    }

    proof fn without(self, after: Self, i: int)
        requires
            self.wf(),
            0 <= i < self.entries@.len(),
            after.entries@ == self.entries@.remove(i),
        ensures
            after.wf(),
            after@ == self@.remove(self.entries@[i].0@),
    {
        let k = self.entries@[i].0@;
        let n = after.entries@.len() as int;
        assert forall|j: int| 0 <= j < n implies after.keys()[j] == self.keys()[if j < i {
            j
        } else {
            j + 1
        }] by {}
        assert(after.wf()) by {
            assert forall|a: int, b: int| 0 <= a < n && 0 <= b < n && a != b implies after.keys()[a]
                != after.keys()[b] by {
                let x = if a < i {
                    a
                } else {
                    a + 1
                };
                let y = if b < i {
                    b
                } else {
                    b + 1
                };
                assert(self.keys()[x] != self.keys()[y]);
            }
        }
        assert forall|t: Seq<char>| after@.contains_key(t) <==> self@.remove(k).contains_key(t) by {
            if after.keys().contains(t) {
                let j = after.keys().index_of(t);
                let x = if j < i {
                    j
                } else {
                    j + 1
                };
                assert(after.keys()[j] == self.keys()[x]);
                assert(self.keys().contains(t));
                assert(self.keys()[i] == k);
            }
            if self.keys().contains(t) && t != k {
                let j = self.keys().index_of(t);
                assert(self.keys()[i] == k);
                if j < i {
                    assert(after.keys()[j] == t);
                } else {
                    assert(after.keys()[j - 1] == t);
                }
            }
        }
        assert forall|t: Seq<char>| #[trigger] after@.contains_key(t) implies after@[t]
            == self@.remove(k)[t] by {
            let j = after.keys().index_of(t);
            assert(after.keys()[j] == t);
            after.place(j);
            let x = if j < i {
                j
            } else {
                j + 1
            };
            self.place(x);
            assert(self.keys()[x] == t);
        }
        assert(after@ =~= self@.remove(k));
    }

    /// Removes every key.
    pub fn clear(&mut self)
        ensures
            final(self).wf(),
            final(self)@ == Map::<Seq<char>, V>::empty(),
            forall|f: spec_fn(V) -> nat| #[trigger] final(self).sum(f) == 0,
    {
        self.entries.clear();
        assert(self@ =~= Map::<Seq<char>, V>::empty());
    }

    /// Removes every key that begins with `prefix`, and no other.
    pub fn remove_under(&mut self, prefix: &str)
        requires
            old(self).wf(),
        ensures
            final(self).wf(),
            final(self)@ == old(self)@.remove_keys(
                Set::new(|k: Seq<char>| prefix@.is_prefix_of(k)),
            ),
    {
        let ghost was = *self;
        let ghost gone = Set::new(|k: Seq<char>| prefix@.is_prefix_of(k));
        let mut i: usize = 0;
        while i < self.entries.len()
            invariant
                self.wf(),
                i <= self.entries@.len(),
                forall|j: int|
                    0 <= j < i ==> !prefix@.is_prefix_of((#[trigger] self.entries@[j]).0@),
                self@.remove_keys(gone) == was@.remove_keys(gone),
                gone == Set::new(|k: Seq<char>| prefix@.is_prefix_of(k)),
            decreases self.entries@.len() - i,
        {
            let ghost before = *self;
            if starts_with(self.entries[i].0.as_str(), prefix) {
                let (k, _) = self.entries.remove(i);
                proof {
                    before.without(*self, i as int);
                    assert(gone.contains(k@));
                    assert(self@.remove_keys(gone) =~= before@.remove_keys(gone));
                }
            } else {
                i += 1;
            }
        }
        proof {
            assert forall|k: Seq<char>| self@.contains_key(k) implies !gone.contains(k) by {
                let j = self.keys().index_of(k);
                assert(self.keys()[j] == k);
                assert(self.entries@[j].0@ == k);
            }
            assert(self@ =~= self@.remove_keys(gone));
        }
    }
}

} // verus!
