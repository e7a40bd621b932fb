//! What is remembered is what was found, for as long as it is good, and what
//! is forgotten is asked for again.

use crate::etags::{EtagChecks, EtagNext};
use crate::laws::listings::begins;
use crate::laws::numbers::{asks_for, decimal_spelled};
use crate::laws::paths::{end_trim_is, only};
use crate::listing::DirEntry;
use crate::metrics::Metrics;
use crate::prefetch::{
    block_range, prefetch_begin, prefetch_ended, Inflight, PrefetchNext, PrefetchOutcome,
};
use crate::read_cache::{fits, least_recent, room_made, ReadCache, Window};
use crate::reading::ReadHints;
use crate::stat_cache::{Cached, StatCaches, TimedCache};
use vstd::prelude::*;

verus! {

/// A value that was kept is got again until it is too old, and then no more.
pub proof fn kept_values_are_got_until_they_are_old<T>(
    cache: &mut TimedCache<T>,
    path: &str,
    value: T,
    at: u64,
    now: u64,
    r: Option<&T>,
)
    requires
        old(cache).wf(),
        call_ensures(TimedCache::<T>::insert, (cache, path, value, at), ()),
        call_ensures(TimedCache::<T>::get, (final(cache), path, now), r),
    ensures
        r is Some <==> now < at + old(cache).ttl(),
        r matches Some(got) ==> *got == value,
{
}

/// Keeping one value loses no other while there is room, and one of the oldest
/// where there is none; it changes none.
pub proof fn keeping_one_value_changes_no_other<T>(
    cache: &mut TimedCache<T>,
    path: &str,
    value: T,
    at: u64,
    other: Seq<char>,
)
    requires
        old(cache).wf(),
        call_ensures(TimedCache::<T>::insert, (cache, path, value, at), ()),
        other != path@,
    ensures
        final(cache)@.contains_key(other) ==> old(cache)@.contains_key(other)
            && final(cache)@[other] == old(cache)@[other],
        old(cache)@.contains_key(other) && (old(cache)@.contains_key(path@)
            || old(cache)@.dom().len() < old(cache).capacity()) ==> final(cache)@.contains_key(
            other,
        ),
        old(cache)@.contains_key(other) && !final(cache)@.contains_key(other) ==> forall|
            p: Seq<char>,
        | #[trigger]
            old(cache)@.contains_key(p) ==> old(cache)@[other].0 <= old(cache)@[p].0 && (p == other
                || final(cache)@.contains_key(p)),
{
    let (before, after) = (old(cache)@, final(cache)@);
    if !(before.contains_key(path@) || before.dom().len() < old(cache).capacity()) {
        let k = choose|k: Seq<char>|
            crate::stat_cache::is_oldest(before, k) && after == (
            #[trigger] before.remove(k)).insert(path@, (at, value));
        assert forall|p: Seq<char>| #[trigger] before.contains_key(p) && p != k implies
            after.contains_key(p) by {}
    }
}

/// A path that was forgotten is got no more, and every other still is.
pub proof fn forgotten_values_are_not_got<T>(
    cache: &mut TimedCache<T>,
    path: &str,
    other: &str,
    now: u64,
    before: Option<&T>,
    after: Option<&T>,
)
    requires
        old(cache).wf(),
        call_ensures(TimedCache::<T>::invalidate, (cache, path), ()),
        call_ensures(TimedCache::<T>::get, (old(cache), other, now), before),
        call_ensures(TimedCache::<T>::get, (final(cache), other, now), after),
    ensures
        other@ == path@ ==> after is None,
        other@ != path@ ==> (after is Some <==> before is Some),
        other@ != path@ && after is Some ==> *after->0 == *before->0,
{
}

/// Everything under a prefix is forgotten, and nothing else.
pub proof fn everything_under_a_prefix_is_forgotten<T>(
    cache: &mut TimedCache<T>,
    prefix: &str,
    other: &str,
    now: u64,
    before: Option<&T>,
    after: Option<&T>,
)
    requires
        old(cache).wf(),
        call_ensures(TimedCache::<T>::invalidate_under, (cache, prefix), ()),
        call_ensures(TimedCache::<T>::get, (old(cache), other, now), before),
        call_ensures(TimedCache::<T>::get, (final(cache), other, now), after),
    ensures
        begins(other@, prefix@) ==> after is None,
        !begins(other@, prefix@) ==> (after is Some <==> before is Some),
        !begins(other@, prefix@) && after is Some ==> *after->0 == *before->0,
{
    if prefix@.len() <= other@.len() {
        assert(other@.take(prefix@.len() as int) =~= other@.subrange(0, prefix@.len() as int));
    }
}

/// What a lookup found is answered from memory, until it is too old: what is
/// there as it was found, and what is not there as missing.
pub proof fn lookups_are_remembered(
    caches: &mut StatCaches,
    path: &str,
    found: &Option<DirEntry>,
    at: u64,
    now: u64,
    m: &mut Metrics,
    r: Cached,
)
    requires
        old(caches).wf(),
        call_ensures(StatCaches::remember, (caches, path, found, at), ()),
        call_ensures(StatCaches::lookup, (final(caches), path, now, m), r),
        found is None ==> !old(caches).stats@.contains_key(path@),
        found is Some ==> !old(caches).negative@.contains_key(path@),
    ensures
        *found matches Some(e) ==> if now < at + old(caches).stats.ttl() {
            r is Present && r->entry@ == e@
        } else {
            r is Unknown
        },
        *found is None ==> if now < at + old(caches).negative.ttl() {
            r is Absent
        } else {
            r is Unknown
        },
{
    if *found is Some {
        let e = found->0;
        let kept = choose|kept: DirEntry|
            kept@ == e@ && #[trigger] crate::stat_cache::inserted(
                old(caches).stats@,
                final(caches).stats@,
                old(caches).stats.capacity(),
                path@,
                (at, kept),
            );
        assert(final(caches).stats@[path@] == (at, kept));
    }
}

/// A path that is kept as missing is known to be, until that is too old, and
/// one that is kept as there is answered as it was kept.
pub proof fn kept_answers_are_given(
    caches: &mut StatCaches,
    path: &str,
    at: u64,
    now: u64,
    missing: bool,
    other: &mut StatCaches,
    entry: DirEntry,
    m: &mut Metrics,
    r: Cached,
    cleared: &mut StatCaches,
    m2: &mut Metrics,
    none: Cached,
)
    requires
        old(caches).wf(),
        call_ensures(StatCaches::negative_insert, (caches, path, at), ()),
        call_ensures(StatCaches::negative_hit, (final(caches), path, now), missing),
        old(other).wf(),
        call_ensures(StatCaches::cache_insert, (other, path, entry, at), ()),
        now < at + old(other).stats.ttl(),
        call_ensures(StatCaches::lookup, (final(other), path, now, m), r),
        call_ensures(StatCaches::clear, (cleared,), ()),
        call_ensures(StatCaches::lookup, (final(cleared), path, now, m2), none),
    ensures
        missing <==> now < at + old(caches).negative.ttl(),
        r is Present && r->entry@ == entry@,
        none is Unknown,
{
}

/// What was forgotten is looked up again, and everything else is answered as
/// before.
pub proof fn forgotten_lookups_are_made_again(
    caches: &mut StatCaches,
    path: &str,
    other: &str,
    now: u64,
    m: &mut Metrics,
    before: Cached,
    m2: &mut Metrics,
    after: Cached,
)
    requires
        old(caches).wf(),
        call_ensures(StatCaches::invalidate_stat, (caches, path), ()),
        call_ensures(StatCaches::lookup, (old(caches), other, now, m), before),
        call_ensures(StatCaches::lookup, (final(caches), other, now, m2), after),
    ensures
        other@ == path@ ==> after is Unknown,
        other@ != path@ ==> {
            &&& after is Present <==> before is Present
            &&& after is Absent <==> before is Absent
            &&& after is Present ==> after->entry@ == before->entry@
        },
{
}

/// A new or lifted tombstone makes the path be looked up again, and with a
/// directory's everything in it; nothing else.
pub proof fn tombstones_make_lookups_be_made_again(
    caches: &mut StatCaches,
    path: &str,
    is_dir: bool,
    dir: Seq<char>,
    slashes: Seq<char>,
    other: &str,
    now: u64,
    m: &mut Metrics,
    before: Cached,
    m2: &mut Metrics,
    after: Cached,
)
    requires
        old(caches).wf(),
        path@ == dir + slashes,
        dir.len() > 0 ==> dir.last() != '/',
        only(slashes, '/'),
        call_ensures(StatCaches::invalidate_trash_cached, (caches, path, is_dir), ()),
        call_ensures(StatCaches::lookup, (old(caches), other, now, m), before),
        call_ensures(StatCaches::lookup, (final(caches), other, now, m2), after),
    ensures
        other@ == path@ || (is_dir && begins(other@, dir + seq!['/'])) ==> after is Unknown,
        !(other@ == path@ || (is_dir && begins(other@, dir + seq!['/']))) ==> {
            &&& after is Present <==> before is Present
            &&& after is Absent <==> before is Absent
            &&& after is Present ==> after->entry@ == before->entry@
        },
{
    end_trim_is(path@, '/', dir, slashes);
    let p = dir + seq!['/'];
    assert(dir.push('/') =~= p);
    if p.len() <= other@.len() {
        assert(other@.take(p.len() as int) =~= other@.subrange(0, p.len() as int));
    }
}

/// Blocks are good as long as the tag is the one that was kept with them. A
/// comparison that could be made need not be made again for a while, and one
/// that could not is due again at once.
pub proof fn tags_are_compared_once_in_a_while(
    checks: &mut EtagChecks,
    key: &str,
    kept: Option<&str>,
    given: Option<&str>,
    at: u64,
    r: EtagNext,
    other: &str,
    now: u64,
    m: &mut Metrics,
    was_due: bool,
    m2: &mut Metrics,
    due: bool,
)
    requires
        old(checks).wf(),
        call_ensures(EtagChecks::answered, (checks, key, kept, given, at), r),
        call_ensures(EtagChecks::due, (old(checks), other, now, m), was_due),
        call_ensures(EtagChecks::due, (final(checks), other, now, m2), due),
    ensures
        r is Unknown <==> given is None || given->0@.len() == 0,
        r is Same <==> given is Some && given->0@.len() > 0 && kept is Some && kept->0@ == given->0@,
        !(r is Unknown) && other@ == key@ ==> (due <==> now >= at + old(checks).ttl()),
        r is Unknown || other@ != key@ ==> due == was_due,
{
}

/// A comparison of tags that was forgotten is due again.
pub proof fn forgotten_comparisons_are_due(
    checks: &mut EtagChecks,
    key: &str,
    now: u64,
    m: &mut Metrics,
    due: bool,
)
    requires
        old(checks).wf(),
        call_ensures(EtagChecks::clear, (checks,), ()),
        call_ensures(EtagChecks::due, (final(checks), key, now, m), due),
    ensures
        due,
{
}

/// A block that is being fetched ahead is not taken on again until it is put
/// down, and no other block is kept from being taken on.
pub proof fn blocks_are_fetched_ahead_once(
    inflight: &mut Inflight,
    key: &str,
    block: u64,
    m: &mut Metrics,
    first: bool,
    again: &mut Inflight,
    other: &str,
    number: u64,
    m2: &mut Metrics,
    second: bool,
    put_down: &mut Inflight,
    once_more: &mut Inflight,
    m3: &mut Metrics,
    third: bool,
)
    requires
        old(inflight).wf(),
        call_ensures(prefetch_begin, (inflight, key, block, m), first),
        *old(again) == *final(inflight),
        call_ensures(prefetch_begin, (again, other, number, m2), second),
        *old(put_down) == *final(inflight),
        call_ensures(Inflight::end, (put_down, key, block), ()),
        *old(once_more) == *final(put_down),
        call_ensures(prefetch_begin, (once_more, key, block, m3), third),
    ensures
        first <==> !old(inflight)@.contains((key@, block)),
        other@ == key@ && number == block ==> !second,
        other@ != key@ || number != block ==> (second <==> !old(inflight)@.contains(
            (other@, number),
        )),
        third,
{
}

/// Only a block that came is kept; one whose body broke off is passed over,
/// and anything else ends the fetching ahead.
pub proof fn only_blocks_that_came_are_kept(
    outcome: PrefetchOutcome,
    m: &mut Metrics,
    r: PrefetchNext,
)
    requires
        call_ensures(prefetch_ended, (outcome, m), r),
    ensures
        r is Store <==> outcome is Received,
        r is Skip <==> outcome is BodyFailed,
{
}

/// A block that is fetched ahead is asked for from its first byte to its last.
pub proof fn blocks_are_asked_for_whole(block: u64, block_size: u64, r: String)
    requires
        block_size > 0,
        block * block_size + block_size <= u64::MAX,
        call_ensures(block_range, (block, block_size), r),
    ensures
        asks_for(r@, block * block_size, block * block_size + block_size - 1),
{
    assert(block * block_size >= 0) by (nonlinear_arith);
    decimal_spelled((block * block_size) as nat);
    decimal_spelled((block * block_size + block_size - 1) as nat);
}

/// A window that was kept is hit with its own bytes, is not hit behind its
/// end, and is gone once it was dropped.
pub proof fn windows_are_hit_with_their_bytes(
    cache: &mut ReadCache,
    path: &str,
    start: u64,
    data: Vec<u8>,
    now: u64,
    again: &mut ReadCache,
    offset: u64,
    len: usize,
    later: u64,
    r: Option<Vec<u8>>,
    dropped: &mut ReadCache,
    asked: &mut ReadCache,
    none: Option<Vec<u8>>,
)
    requires
        old(cache).wf(),
        0 < data@.len() <= old(cache).max_bytes(),
        start + data@.len() <= u64::MAX,
        call_ensures(ReadCache::insert, (cache, path, start, data, now), ()),
        *old(again) == *final(cache),
        call_ensures(ReadCache::hit, (again, path, offset, len, later), r),
        *old(dropped) == *final(cache),
        call_ensures(ReadCache::invalidate, (dropped, path), ()),
        *old(asked) == *final(dropped),
        call_ensures(ReadCache::hit, (asked, path, offset, len, later), none),
    ensures
        r is Some <==> start <= offset && offset + len <= start + data@.len(),
        r matches Some(bytes) ==> bytes@ == data@.subrange(offset - start, offset - start + len),
        r is Some ==> final(again)@[path@].last_used == later,
        none is None,
{
    let w = Window { start, data, last_used: now };
    assert(final(cache).took_in(old(cache), path@, w));
    assert(final(cache)@[path@] == w);
}

proof fn the_oldest_went(
    before: Map<Seq<char>, Window>,
    bytes: int,
    after: Map<Seq<char>, Window>,
    bytes_after: int,
    need: int,
    max: int,
    n: nat,
)
    requires
        room_made(before, bytes, after, bytes_after, need, max, n),
    ensures
        forall|p: Seq<char>| #[trigger]
            after.contains_key(p) ==> before.contains_key(p) && after[p] == before[p],
        forall|p: Seq<char>, q: Seq<char>|
            before.contains_key(p) && !after.contains_key(p) && after.contains_key(q) ==> (
            #[trigger] before[p]).last_used <= (#[trigger] before[q]).last_used,
        before.dom().len() < 256 && bytes + need <= max ==> after == before,
    decreases n,
{
    if n > 0 {
        let k = choose|k: Seq<char>|
            least_recent(before, k) && room_made(
                #[trigger] before.remove(k),
                bytes - before[k].data@.len(),
                after,
                bytes_after,
                need,
                max,
                (n - 1) as nat,
            );
        let rest = before.remove(k);
        the_oldest_went(
            rest,
            bytes - before[k].data@.len(),
            after,
            bytes_after,
            need,
            max,
            (n - 1) as nat,
        );
        assert forall|p: Seq<char>| #[trigger] after.contains_key(p) implies before.contains_key(p)
            && after[p] == before[p] by {
            assert(rest.contains_key(p));
        }
        assert forall|p: Seq<char>, q: Seq<char>|
            before.contains_key(p) && !after.contains_key(p) && after.contains_key(q) implies (
        #[trigger] before[p]).last_used <= (#[trigger] before[q]).last_used by {
            assert(rest.contains_key(q));
            assert(rest[q] == before[q]);
            if p != k {
                assert(rest.contains_key(p));
                assert(rest[p] == before[p]);
            }
        }
    }
}

/// A window that is kept displaces none that there is room for beside it, and
/// where there is none, those go that were used longest ago. None that stays
/// changes, and the bounds hold.
pub proof fn windows_used_longest_ago_make_room(
    cache: &mut ReadCache,
    path: &str,
    start: u64,
    data: Vec<u8>,
    now: u64,
    p: Seq<char>,
    q: Seq<char>,
)
    requires
        old(cache).wf(),
        0 < data@.len() <= old(cache).max_bytes(),
        call_ensures(ReadCache::insert, (cache, path, start, data, now), ()),
        p != path@,
        q != path@,
    ensures
        final(cache)@.contains_key(path@),
        final(cache)@.contains_key(p) ==> old(cache)@.contains_key(p) && final(cache)@[p]
            == old(cache)@[p],
        old(cache)@.contains_key(p) && !final(cache)@.contains_key(p) && final(cache)@.contains_key(
            q,
        ) ==> old(cache)@[p].last_used <= old(cache)@[q].last_used,
        old(cache)@.contains_key(p) && old(cache)@.dom().len() < 256 && old(cache).bytes()
            + data@.len() <= old(cache).max_bytes() ==> final(cache)@.contains_key(p),
        final(cache).bytes() <= final(cache).max_bytes(),
        final(cache)@.dom().len() <= 256,
{
    let w = Window { start, data, last_used: now };
    let before = old(cache)@.remove(path@);
    assert(final(cache).took_in(old(cache), path@, w));
    let (kept, bytes, n) = choose|kept: Map<Seq<char>, Window>, bytes: int, n: nat|
        {
            &&& #[trigger] room_made(
                old(cache)@.remove(path@),
                old(cache).bytes_without(path@),
                kept,
                bytes,
                w.data@.len() as int,
                old(cache).max_bytes() as int,
                n,
            )
            &&& fits(
                kept.dom().len(),
                bytes,
                w.data@.len() as int,
                old(cache).max_bytes() as int,
            )
            &&& final(cache)@ == kept.insert(path@, w)
            &&& final(cache).bytes() == bytes + w.data@.len()
        };
    the_oldest_went(
        before,
        old(cache).bytes_without(path@),
        kept,
        bytes,
        w.data@.len() as int,
        old(cache).max_bytes() as int,
        n,
    );
    old(cache).stays_bounded();
    final(cache).stays_bounded();
    assert(before.dom() =~= old(cache)@.dom().remove(path@));
    if final(cache)@.contains_key(p) {
        assert(kept.contains_key(p));
        assert(before.contains_key(p));
    }
    if old(cache)@.contains_key(p) {
        assert(before.contains_key(p) && before[p] == old(cache)@[p]);
    }
    if old(cache)@.contains_key(q) {
        assert(before[q] == old(cache)@[q]);
    }
    if final(cache)@.contains_key(q) {
        assert(kept.contains_key(q));
    }
}

/// A read that begins where the last one of its path ended goes on from it,
/// and no other does. Where there is room the ends of other paths are kept.
pub proof fn reads_go_on_where_the_last_ended(
    hints: &mut ReadHints,
    path: &str,
    end: u64,
    offset: u64,
    r: bool,
    other: Seq<char>,
)
    requires
        old(hints).wf(),
        call_ensures(ReadHints::note_read_end, (hints, path, end), ()),
        call_ensures(ReadHints::continues, (final(hints), path, offset), r),
    ensures
        r <==> offset == end,
        other != path@ && final(hints)@.contains_key(other) ==> old(hints)@.contains_key(other)
            && final(hints)@[other] == old(hints)@[other],
        other != path@ && old(hints)@.contains_key(other) && old(hints)@.dom().len() < 4096
            ==> final(hints)@.contains_key(other),
        final(hints)@.dom().len() <= 4096,
{
    final(hints).stays_bounded();
}

/// A cache keeps values as long as it was made to, and as many, but always one
/// and for a tick.
pub proof fn caches_are_made_as_asked<T>(
    ttl: u64,
    max_entries: usize,
    r: TimedCache<T>,
    etag_ttl: u64,
    checks: EtagChecks,
)
    requires
        call_ensures(TimedCache::<T>::new, (ttl, max_entries), r),
        call_ensures(EtagChecks::new, (etag_ttl,), checks),
    ensures
        ttl > 0 ==> r.ttl() == ttl,
        max_entries > 0 ==> r.capacity() == max_entries,
        r.ttl() > 0,
        r.capacity() > 0,
        forall|p: Seq<char>| !#[trigger] r@.contains_key(p),
        etag_ttl > 0 ==> checks.ttl() == etag_ttl,
        checks.ttl() > 0,
{
}

} // verus!
