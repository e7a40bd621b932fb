//! What is there is listed and found, under its own name, and what is hidden
//! is not.

use crate::error::FsError;
use crate::laws::paths::{end_trim_is, only, trimmed_end};
use crate::listing::{
    after_prefix, bin_name, entries, merged, named, next_page_token, object_entry, object_length,
    object_time, page_entries, prefix_entry, with_bin, DirEntry, Entry, ListedObject, Listing,
    Page,
};
use crate::paths::directory_prefix;
use crate::text::trim_end;
use crate::trash::{hidden, hidden_key, TombstoneIndex, TrashState};
use vstd::prelude::*;

verus! {

/// `key` begins with `p`.
pub open spec fn begins(key: Seq<char>, p: Seq<char>) -> bool {
    key.len() >= p.len() && key.take(p.len() as int) == p
}

/// A tombstone stands for `key`, or for a directory that is `key` or that
/// `key` stands in.
pub open spec fn buried(index: &TombstoneIndex, key: Seq<char>) -> bool {
    ||| index.files().contains(key)
    ||| exists|d: Seq<char>| #[trigger]
        index.dirs().contains(d) && (d == key + seq!['/'] || begins(key, d))
}

/// `key` is to be hidden: it belongs to the trash itself, or is buried.
pub open spec fn concealed(trash: Option<TrashState>, key: Seq<char>) -> bool {
    trash matches Some(t) && {
        ||| begins(key, t.prefix@)
        ||| begins(t.prefix@, key) && only(t.prefix@.skip(key.len() as int), '/') && !(key.len() > 0
            && key.last() == '/')
        ||| buried(&t.index, key)
    }
}

pub(crate) proof fn covered_is_buried(index: &TombstoneIndex, key: Seq<char>)
    ensures
        index.covers(key) <==> buried(index, key),
{
    assert(key.push('/') =~= key + seq!['/']);
    assert forall|d: Seq<char>| d.is_prefix_of(key) <==> #[trigger] begins(key, d) by {
        if d.len() <= key.len() {
            assert(key.take(d.len() as int) =~= key.subrange(0, d.len() as int));
        }
    }
    if index.covers(key) {
        if index.dirs().contains(key.push('/')) {
            assert(buried(index, key));
        } else if !index.files().contains(key) {
            let d = choose|d: Seq<char>| #[trigger]
                index.dirs().contains(d) && d.is_prefix_of(key);
            assert(begins(key, d));
        }
    }
    if buried(index, key) && !index.files().contains(key) {
        let d = choose|d: Seq<char>| #[trigger]
            index.dirs().contains(d) && (d == key + seq!['/'] || begins(key, d));
        assert(index.dirs().contains(d));
    }
}

pub(crate) proof fn hidden_is_concealed(trash: Option<TrashState>, key: Seq<char>)
    ensures
        hidden(trash, key) <==> concealed(trash, key),
{
    if trash is Some {
        let p = trash->0.prefix@;
        covered_is_buried(&trash->0.index, key);
        if p.len() <= key.len() {
            assert(key.take(p.len() as int) =~= key.subrange(0, p.len() as int));
        }
        trimmed_end(p, '/');
        let t = trim_end(p, '/');
        assert(p.take(t.len() as int) =~= t);
        if begins(p, key) && only(p.skip(key.len() as int), '/') && !(key.len() > 0 && key.last()
            == '/') {
            assert(p =~= key + p.skip(key.len() as int));
            end_trim_is(p, '/', key, p.skip(key.len() as int));
        }
    }
}

/// A key is hidden where it is to be, and nowhere else.
pub proof fn only_the_deleted_is_hidden(trash: &Option<TrashState>, key: &str, r: bool)
    requires
        call_ensures(hidden_key, (trash, key), r),
    ensures
        r <==> concealed(*trash, key@),
{
    hidden_is_concealed(*trash, key@);
}

/// The tombstone of a file hides its own key, and no other.
pub proof fn file_tombstones_hide_one_key(
    index: &mut TombstoneIndex,
    key: &str,
    other: &str,
    before: bool,
    after: bool,
)
    requires
        call_ensures(TombstoneIndex::insert, (index, key, false), ()),
        call_ensures(TombstoneIndex::is_covered, (old(index), other), before),
        call_ensures(TombstoneIndex::is_covered, (final(index), other), after),
    ensures
        after <==> before || other@ == key@,
{
    covered_is_buried(old(index), other@);
    covered_is_buried(final(index), other@);
    assert(old(index).dirs() == final(index).dirs());
}

/// The tombstone of a directory hides the directory and what stands in it, and
/// nothing else, whether or not its key came with a slash.
pub proof fn directory_tombstones_hide_the_tree(
    index: &mut TombstoneIndex,
    key: &str,
    dir: Seq<char>,
    slashes: Seq<char>,
    other: &str,
    before: bool,
    after: bool,
)
    requires
        key@ == dir + slashes,
        dir.len() > 0 ==> dir.last() != '/',
        only(slashes, '/'),
        call_ensures(TombstoneIndex::insert, (index, key, true), ()),
        call_ensures(TombstoneIndex::is_covered, (old(index), other), before),
        call_ensures(TombstoneIndex::is_covered, (final(index), other), after),
    ensures
        after <==> before || other@ == dir || begins(other@, dir + seq!['/']),
{
    covered_is_buried(old(index), other@);
    covered_is_buried(final(index), other@);
    end_trim_is(key@, '/', dir, slashes);
    let d = dir + seq!['/'];
    assert(directory_prefix(key@) =~= d);
    let (was, now) = (old(index).dirs(), final(index).dirs());
    assert(now == was.insert(d));
    assert(now.contains(d));
    assert(old(index).files() == final(index).files());
    if buried(old(index), other@) && !old(index).files().contains(other@) {
        let e = choose|e: Seq<char>| #[trigger]
            was.contains(e) && (e == other@ + seq!['/'] || begins(other@, e));
        assert(now.contains(e));
    }
    if buried(final(index), other@) && !old(index).files().contains(other@) {
        let e = choose|e: Seq<char>| #[trigger]
            now.contains(e) && (e == other@ + seq!['/'] || begins(other@, e));
        if e == d && e == other@ + seq!['/'] {
            assert(other@ =~= e.take(e.len() - 1));
            assert(dir =~= e.take(e.len() - 1));
        }
        if e != d {
            assert(was.contains(e));
        }
    }
}

/// A tombstone that was lifted hides nothing more, and every other still hides
/// what it hid.
pub proof fn lifted_tombstones_hide_nothing(
    index: &mut TombstoneIndex,
    key: &str,
    other: &str,
    before: bool,
    after: bool,
)
    requires
        call_ensures(TombstoneIndex::remove, (index, key, false), ()),
        call_ensures(TombstoneIndex::is_covered, (old(index), other), before),
        call_ensures(TombstoneIndex::is_covered, (final(index), other), after),
    ensures
        other@ != key@ ==> after == before,
        other@ == key@ && after ==> exists|d: Seq<char>| #[trigger]
            old(index).dirs().contains(d) && (d == key@ + seq!['/'] || begins(key@, d)),
        after ==> before,
{
    covered_is_buried(old(index), other@);
    covered_is_buried(final(index), other@);
    assert(old(index).dirs() == final(index).dirs());
}

/// The same of a directory's tombstone: what it hid is shown again unless
/// another tombstone hides it.
pub proof fn lifted_directory_tombstones_hide_nothing(
    index: &mut TombstoneIndex,
    key: &str,
    dir: Seq<char>,
    slashes: Seq<char>,
    other: &str,
    before: bool,
    after: bool,
)
    requires
        key@ == dir + slashes,
        dir.len() > 0 ==> dir.last() != '/',
        only(slashes, '/'),
        call_ensures(TombstoneIndex::remove, (index, key, true), ()),
        call_ensures(TombstoneIndex::is_covered, (old(index), other), before),
        call_ensures(TombstoneIndex::is_covered, (final(index), other), after),
    ensures
        other@ != dir && !begins(other@, dir + seq!['/']) ==> after == before,
        after ==> before,
        after ==> old(index).files().contains(other@) || exists|d: Seq<char>| #[trigger]
            old(index).dirs().contains(d) && d != dir + seq!['/'] && (d == other@ + seq!['/']
                || begins(other@, d)),
{
    covered_is_buried(old(index), other@);
    covered_is_buried(final(index), other@);
    end_trim_is(key@, '/', dir, slashes);
    let d = dir + seq!['/'];
    assert(directory_prefix(key@) =~= d);
    let (was, now) = (old(index).dirs(), final(index).dirs());
    assert(now == was.remove(d));
    assert(old(index).files() == final(index).files());
    if buried(final(index), other@) && !old(index).files().contains(other@) {
        let e = choose|e: Seq<char>| #[trigger]
            now.contains(e) && (e == other@ + seq!['/'] || begins(other@, e));
        assert(was.contains(e));
    }
    if buried(old(index), other@) && !old(index).files().contains(other@) {
        let e = choose|e: Seq<char>| #[trigger]
            was.contains(e) && (e == other@ + seq!['/'] || begins(other@, e));
        if e == d && e == other@ + seq!['/'] {
            assert(other@ =~= e.take(e.len() - 1));
            assert(dir =~= e.take(e.len() - 1));
        }
        if e != d {
            assert(now.contains(e));
        }
    }
}

/// Tombstones are counted, and where there are none nothing is hidden by one.
pub proof fn tombstones_are_counted(
    index: &TombstoneIndex,
    n: usize,
    empty: bool,
    key: &str,
    covered: bool,
    fresh: TombstoneIndex,
    fresh_covered: bool,
)
    requires
        index.wf(),
        call_ensures(TombstoneIndex::len, (index,), n),
        call_ensures(TombstoneIndex::is_empty, (index,), empty),
        call_ensures(TombstoneIndex::is_covered, (index, key), covered),
        call_ensures(TombstoneIndex::new, (), fresh),
        call_ensures(TombstoneIndex::is_covered, (&fresh, key), fresh_covered),
        index.files().len() + index.dirs().len() <= usize::MAX,
    ensures
        n == index.files().len() + index.dirs().len(),
        empty <==> n == 0,
        empty ==> !covered,
        !fresh_covered,
{
}

/// The length that a listing or a lookup shows: what the store said, and zero
/// for what it did not say or cannot be.
pub open spec fn shown_length(size: Option<i64>, n: u64) -> bool {
    if size is Some && size->0 >= 0 {
        n == size->0
    } else {
        n == 0
    }
}

/// The time that a listing or a lookup shows: what the store said, or zero.
pub open spec fn shown_time(time: Option<i64>, t: i64) -> bool {
    if time is Some {
        time == Some(t)
    } else {
        t == 0
    }
}

/// Lengths and times are those that the store gave.
pub proof fn lengths_and_times_are_the_objects(
    size: Option<i64>,
    n: u64,
    time: Option<i64>,
    t: i64,
)
    requires
        call_ensures(object_length, (size,), n),
        call_ensures(object_time, (time,), t),
    ensures
        shown_length(size, n),
        shown_time(time, t),
{
}

/// The entry of a file of that name, with the object's length and time.
pub open spec fn is_file_of(e: DirEntry, name: Seq<char>, o: ListedObject) -> bool {
    &&& e.name@ == name
    &&& !e.is_dir
    &&& shown_length(o.size, e.size)
    &&& shown_time(o.mtime_secs, e.mtime_secs)
}

/// The entry of a directory of that name, of which nothing else is known.
pub open spec fn is_directory_of(e: DirEntry, name: Seq<char>) -> bool {
    &&& e.name@ == name
    &&& e.is_dir
    &&& e.size == 0
    &&& e.mtime_secs == 0
}

/// The object is to be listed under that name: its key is the listed prefix
/// and the name, which is not empty and no directory's, it is not hidden, and
/// it is not the marker of another tool where those are left out.
pub open spec fn lists_as(
    o: ListedObject,
    name: Seq<char>,
    list_prefix: Seq<char>,
    trash: Option<TrashState>,
    skip_foreign_markers: bool,
) -> bool {
    &&& o.key is Some
    &&& o.key->0@ == list_prefix + name
    &&& name.len() > 0
    &&& name.last() != '/'
    &&& !concealed(trash, o.key->0@)
    &&& skip_foreign_markers ==> !(name.len() >= 9 && name.skip(name.len() - 9) == "_$folder$"@)
}

pub(crate) proof fn filtered_prefix<A, B>(s: Seq<A>, f: spec_fn(A) -> Option<B>, k: int)
    requires
        0 <= k <= s.len(),
    ensures
        s.take(k).filter_map(f).len() <= s.filter_map(f).len(),
        s.take(k).filter_map(f) == s.filter_map(f).take(s.take(k).filter_map(f).len() as int),
        s.take(k).filter_map(f).len() <= k,
    decreases s.len() - k + s.len(),
{
    if k > 0 {
        shorter_is_no_longer(s, f, k);
    } else {
        assert(s.take(0).filter_map(f) =~= Seq::<B>::empty());
    }
    if k == s.len() {
        assert(s.take(k) =~= s);
        let all = s.filter_map(f);
        assert(all.take(all.len() as int) =~= all);
    } else {
        filtered_prefix(s, f, k + 1);
        s.lemma_filter_map_take_succ(f, k);
        let a = s.take(k).filter_map(f);
        let b = s.take(k + 1).filter_map(f);
        let c = s.filter_map(f);
        assert(a =~= b.take(a.len() as int));
        assert(b == c.take(b.len() as int));
        assert(a =~= c.take(a.len() as int));
    }
}

proof fn shorter_is_no_longer<A, B>(s: Seq<A>, f: spec_fn(A) -> Option<B>, k: int)
    requires
        0 <= k <= s.len(),
    ensures
        s.take(k).filter_map(f).len() <= k,
    decreases k,
{
    if k > 0 {
        shorter_is_no_longer(s, f, k - 1);
        s.lemma_filter_map_take_succ(f, k - 1);
    } else {
        assert(s.take(0).filter_map(f) =~= Seq::<B>::empty());
    }
}

/// Where the image of the element at `i` stands.
pub(crate) open spec fn place_in<A, B>(s: Seq<A>, f: spec_fn(A) -> Option<B>, i: int) -> int {
    s.take(i).filter_map(f).len() as int
}

pub(crate) proof fn placed<A, B>(s: Seq<A>, f: spec_fn(A) -> Option<B>, i: int)
    requires
        0 <= i < s.len(),
        f(s[i]) is Some,
    ensures
        0 <= place_in(s, f, i) < s.filter_map(f).len(),
        s.filter_map(f)[place_in(s, f, i)] == f(s[i])->0,
{
    s.lemma_filter_map_take_succ(f, i);
    filtered_prefix(s, f, i + 1);
    let b = s.take(i + 1).filter_map(f);
    let c = s.filter_map(f);
    assert(b == c.take(b.len() as int));
    assert(b[place_in(s, f, i)] == f(s[i])->0);
}

proof fn placed_in_order<A, B>(s: Seq<A>, f: spec_fn(A) -> Option<B>, i: int, j: int)
    requires
        0 <= i < j < s.len(),
        f(s[i]) is Some,
    ensures
        place_in(s, f, i) < place_in(s, f, j),
    decreases j - i,
{
    s.lemma_filter_map_take_succ(f, j - 1);
    if i < j - 1 {
        placed_in_order(s, f, i, j - 1);
    }
}

proof fn listed_entry(
    o: ListedObject,
    name: Seq<char>,
    list_prefix: Seq<char>,
    trash: Option<TrashState>,
    skip: bool,
)
    requires
        lists_as(o, name, list_prefix, trash, skip),
    ensures
        ({
            let e = object_entry(trash, list_prefix, skip, o);
            &&& e is Some
            &&& e->0.name == name
            &&& !e->0.is_dir
            &&& shown_length(o.size, e->0.size)
            &&& shown_time(o.mtime_secs, e->0.mtime_secs)
        }),
{
    let key = o.key->0@;
    hidden_is_concealed(trash, key);
    assert(key.skip(list_prefix.len() as int) =~= name);
    assert(list_prefix =~= key.subrange(0, list_prefix.len() as int));
    reveal_strlit("_$folder$");
    if skip && "_$folder$"@.is_suffix_of(name) {
        assert(name.skip(name.len() - 9) =~= "_$folder$"@);
    }
}

/// Every object that is to be listed is listed: the page's entries hold a file
/// of exactly its name, with its length and time, and two of them stand in the
/// page's order. What was found before stays, in front.
pub proof fn every_file_is_listed(
    listing: &mut Listing,
    page: Page,
    trash: &Option<TrashState>,
    r: Result<Option<String>, FsError>,
)
    requires
        call_ensures(Listing::page, (listing, page, trash), r),
    ensures
        ({
            let (was, now) = (old(listing).out@, final(listing).out@);
            let (prefix, skip) = (old(listing).list_prefix@, old(listing).skip_foreign_markers);
            &&& was.len() <= now.len() <= was.len() + page.prefixes@.len() + page.objects@.len()
            &&& forall|i: int| 0 <= i < was.len() ==> (#[trigger] now[i])@ == was[i]@
            &&& forall|i: int, name: Seq<char>|
                0 <= i < page.objects@.len() && #[trigger] lists_as(
                    page.objects@[i],
                    name,
                    prefix,
                    *trash,
                    skip,
                ) ==> exists|x: int|
                    was.len() <= x < now.len() && is_file_of(
                        #[trigger] now[x],
                        name,
                        page.objects@[i],
                    )
            &&& forall|i: int, j: int, a: Seq<char>, b: Seq<char>|
                0 <= i < j < page.objects@.len() && #[trigger] lists_as(
                    page.objects@[i],
                    a,
                    prefix,
                    *trash,
                    skip,
                ) && #[trigger] lists_as(page.objects@[j], b, prefix, *trash, skip) ==> exists|
                    x: int,
                    y: int,
                |
                    was.len() <= x < y < now.len() && is_file_of(
                        #[trigger] now[x],
                        a,
                        page.objects@[i],
                    ) && is_file_of(#[trigger] now[y], b, page.objects@[j])
        }),
        r is Ok && r->Ok_0 is None <==> page.truncated != Some(true),
        r is Ok && r->Ok_0 is Some ==> page.token is Some && r->Ok_0->0@ == page.token->0@,
        page.truncated == Some(true) && page.token is Some ==> r is Ok,
        page.truncated == Some(true) && page.token is None ==> r == Err::<Option<String>, FsError>(
            FsError::PartialListing,
        ),
{
    let (was, now) = (old(listing).out@, final(listing).out@);
    let (prefix, skip) = (old(listing).list_prefix@, old(listing).skip_foreign_markers);
    let f = |p: Option<String>| prefix_entry(*trash, prefix, p);
    let g = |o: ListedObject| object_entry(*trash, prefix, skip, o);
    let (a, b) = (page.prefixes@.filter_map(f), page.objects@.filter_map(g));
    let base = was.len() + a.len();
    assert(page_entries(*trash, prefix, skip, page) == a + b);
    assert(entries(now) == entries(was) + (a + b));
    filtered_prefix(page.prefixes@, f, page.prefixes@.len() as int);
    filtered_prefix(page.objects@, g, page.objects@.len() as int);
    assert(page.prefixes@.take(page.prefixes@.len() as int) =~= page.prefixes@);
    assert(page.objects@.take(page.objects@.len() as int) =~= page.objects@);
    assert(now.len() == entries(now).len());
    assert forall|i: int| 0 <= i < was.len() implies (#[trigger] now[i])@ == was[i]@ by {
        assert(entries(now)[i] == entries(was)[i]);
    }
    assert forall|i: int, name: Seq<char>|
        0 <= i < page.objects@.len() && #[trigger] lists_as(
            page.objects@[i],
            name,
            prefix,
            *trash,
            skip,
        ) implies exists|x: int|
        was.len() <= x < now.len() && is_file_of(#[trigger] now[x], name, page.objects@[i]) by {
        listed_entry(page.objects@[i], name, prefix, *trash, skip);
        placed(page.objects@, g, i);
        let x = base + place_in(page.objects@, g, i);
        assert(entries(now)[x] == b[place_in(page.objects@, g, i)]);
        assert(is_file_of(now[x], name, page.objects@[i]));
    }
    assert forall|i: int, j: int, n: Seq<char>, k: Seq<char>|
        0 <= i < j < page.objects@.len() && #[trigger] lists_as(
            page.objects@[i],
            n,
            prefix,
            *trash,
            skip,
        ) && #[trigger] lists_as(page.objects@[j], k, prefix, *trash, skip) implies exists|
        x: int,
        y: int,
    |
        was.len() <= x < y < now.len() && is_file_of(#[trigger] now[x], n, page.objects@[i])
            && is_file_of(#[trigger] now[y], k, page.objects@[j]) by {
        listed_entry(page.objects@[i], n, prefix, *trash, skip);
        listed_entry(page.objects@[j], k, prefix, *trash, skip);
        placed(page.objects@, g, i);
        placed(page.objects@, g, j);
        placed_in_order(page.objects@, g, i, j);
        let x = base + place_in(page.objects@, g, i);
        let y = base + place_in(page.objects@, g, j);
        assert(entries(now)[x] == b[place_in(page.objects@, g, i)]);
        assert(entries(now)[y] == b[place_in(page.objects@, g, j)]);
        assert(is_file_of(now[x], n, page.objects@[i]));
        assert(is_file_of(now[y], k, page.objects@[j]));
    }
}

/// Every prefix of a page that is not hidden is listed as a directory, without
/// the listed prefix in front and the slashes at the end.
pub proof fn every_directory_is_listed(
    listing: &mut Listing,
    page: Page,
    trash: &Option<TrashState>,
    r: Result<Option<String>, FsError>,
    i: int,
    name: Seq<char>,
    slashes: Seq<char>,
)
    requires
        call_ensures(Listing::page, (listing, page, trash), r),
        0 <= i < page.prefixes@.len(),
        page.prefixes@[i] is Some,
        page.prefixes@[i]->0@ == old(listing).list_prefix@ + name + slashes,
        name.len() > 0,
        name.last() != '/',
        only(slashes, '/'),
        !concealed(*trash, page.prefixes@[i]->0@),
    ensures
        exists|x: int|
            old(listing).out@.len() <= x < final(listing).out@.len() && is_directory_of(
                #[trigger] final(listing).out@[x],
                name,
            ),
{
    let (was, now) = (old(listing).out@, final(listing).out@);
    let (prefix, skip) = (old(listing).list_prefix@, old(listing).skip_foreign_markers);
    let f = |p: Option<String>| prefix_entry(*trash, prefix, p);
    let g = |o: ListedObject| object_entry(*trash, prefix, skip, o);
    let (a, b) = (page.prefixes@.filter_map(f), page.objects@.filter_map(g));
    assert(page_entries(*trash, prefix, skip, page) == a + b);
    assert(entries(now) == entries(was) + (a + b));
    let p = page.prefixes@[i]->0@;
    hidden_is_concealed(*trash, p);
    assert(prefix =~= p.subrange(0, prefix.len() as int));
    assert(p.skip(prefix.len() as int) =~= name + slashes);
    end_trim_is(name + slashes, '/', name, slashes);
    placed(page.prefixes@, f, i);
    let x = was.len() + place_in(page.prefixes@, f, i);
    assert(entries(now)[x] == a[place_in(page.prefixes@, f, i)]);
    assert(now.len() == entries(now).len());
    assert(is_directory_of(now[x], name));
}

/// Nothing else is listed: a new entry is a file that is to be listed, or a
/// directory for a prefix of the page that is not hidden.
pub proof fn nothing_else_is_listed(
    listing: &mut Listing,
    page: Page,
    trash: &Option<TrashState>,
    r: Result<Option<String>, FsError>,
    x: int,
)
    requires
        call_ensures(Listing::page, (listing, page, trash), r),
        old(listing).out@.len() <= x < final(listing).out@.len(),
    ensures
        ({
            let e = final(listing).out@[x];
            let prefix = old(listing).list_prefix@;
            ||| exists|i: int|
                0 <= i < page.objects@.len() && lists_as(
                    #[trigger] page.objects@[i],
                    e.name@,
                    prefix,
                    *trash,
                    old(listing).skip_foreign_markers,
                ) && is_file_of(e, e.name@, page.objects@[i])
            ||| exists|i: int|
                {
                    &&& 0 <= i < page.prefixes@.len()
                    &&& (#[trigger] page.prefixes@[i]) is Some
                    &&& !concealed(*trash, page.prefixes@[i]->0@)
                    &&& begins(page.prefixes@[i]->0@, prefix) ==> begins(
                        page.prefixes@[i]->0@,
                        prefix + e.name@,
                    ) && only(
                        page.prefixes@[i]->0@.skip((prefix + e.name@).len() as int),
                        '/',
                    )
                    &&& !begins(page.prefixes@[i]->0@, prefix) ==> begins(
                        page.prefixes@[i]->0@,
                        e.name@,
                    ) && only(page.prefixes@[i]->0@.skip(e.name@.len() as int), '/')
                    &&& is_directory_of(e, e.name@)
                    &&& e.name@.len() > 0
                    &&& e.name@.last() != '/'
                }
        }),
{
    let (was, now) = (old(listing).out@, final(listing).out@);
    let (prefix, skip) = (old(listing).list_prefix@, old(listing).skip_foreign_markers);
    let f = |p: Option<String>| prefix_entry(*trash, prefix, p);
    let g = |o: ListedObject| object_entry(*trash, prefix, skip, o);
    let (a, b) = (page.prefixes@.filter_map(f), page.objects@.filter_map(g));
    assert(page_entries(*trash, prefix, skip, page) == a + b);
    assert(entries(now) == entries(was) + (a + b));
    let e = now[x]@;
    assert(entries(now)[x] == e);
    let k = x - was.len();
    assert((a + b)[k] == e);
    if k < a.len() {
        assert(a[k] == e);
        assert(a.contains(e));
        page.prefixes@.lemma_filter_map_contains(f, e);
        let p = choose|p: Option<String>| page.prefixes@.contains(p) && f(p) == Some(e);
        let i = page.prefixes@.index_of(p);
        assert(page.prefixes@[i] == p);
        let key = p->0@;
        hidden_is_concealed(*trash, key);
        let rest = after_prefix(key, prefix);
        trimmed_end(rest, '/');
        if begins(key, prefix) {
            assert(key.take(prefix.len() as int) =~= key.subrange(0, prefix.len() as int));
            assert(rest == key.skip(prefix.len() as int));
            let n = prefix + e.name;
            assert(rest.take(e.name.len() as int) =~= e.name);
            assert(key.take(n.len() as int) =~= n);
            assert(key.skip(n.len() as int) =~= rest.skip(e.name.len() as int));
        } else {
            if prefix.len() <= key.len() {
                assert(key.take(prefix.len() as int) =~= key.subrange(0, prefix.len() as int));
            }
            assert(rest == key);
            assert(key.take(e.name.len() as int) =~= e.name);
        }
    } else {
        assert(b[k - a.len()] == e);
        assert(b.contains(e));
        page.objects@.lemma_filter_map_contains(g, e);
        let o = choose|o: ListedObject| page.objects@.contains(o) && g(o) == Some(e);
        let i = page.objects@.index_of(o);
        assert(page.objects@[i] == o);
        let key = o.key->0@;
        hidden_is_concealed(*trash, key);
        assert(key =~= prefix + e.name);
        reveal_strlit("_$folder$");
        if skip && e.name.len() >= 9 && e.name.skip(e.name.len() - 9) == "_$folder$"@ {
            assert("_$folder$"@ =~= e.name.subrange(e.name.len() - 9, e.name.len() as int));
            assert("_$folder$"@.is_suffix_of(e.name));
        }
    }
}

/// A listing goes on where the store says that it does and where, is over
/// where it does not say so, and is no listing where it does not say where.
pub proof fn listings_go_on_as_told(
    truncated: Option<bool>,
    token: Option<String>,
    r: Result<Option<String>, FsError>,
)
    requires
        call_ensures(next_page_token, (truncated, token), r),
    ensures
        truncated != Some(true) ==> r is Ok && r->Ok_0 is None,
        truncated == Some(true) && token is Some ==> r is Ok && r->Ok_0 is Some && r->Ok_0->0@
            == token->0@,
        truncated == Some(true) && token is None ==> r == Err::<Option<String>, FsError>(
            FsError::PartialListing,
        ),
{
}

/// A copy of an entry says the same, and a directory that is made up says its
/// name and no more.
pub proof fn copied_entries_say_the_same(
    e: &DirEntry,
    r: DirEntry,
    name: String,
    d: DirEntry,
)
    requires
        call_ensures(DirEntry::copy, (e,), r),
        call_ensures(DirEntry::directory, (name,), d),
    ensures
        r.name@ == e.name@,
        r.is_dir == e.is_dir,
        r.size == e.size,
        r.mtime_secs == e.mtime_secs,
        is_directory_of(d, name@),
{
}

/// A listing is handed out as it was found, in front of what is made up for
/// the recycle bin: of that, each name is there, and only once beside it. Only
/// the root shows the bin itself.
pub proof fn found_entries_are_handed_out(
    listing: Listing,
    dir: &str,
    trash: &Option<TrashState>,
    made_up: Vec<DirEntry>,
    r: Vec<DirEntry>,
)
    requires
        call_ensures(Listing::finish, (listing, dir, trash, made_up), r),
    ensures
        r@.len() >= listing.out@.len(),
        forall|i: int|
            0 <= i < listing.out@.len() ==> (#[trigger] r@[i])@ == listing.out@[i]@,
        forall|i: int|
            0 <= i < made_up@.len() ==> exists|x: int|
                0 <= x < r@.len() && (#[trigger] r@[x]).name@ == (#[trigger] made_up@[i]).name@,
        forall|x: int, y: int|
            0 <= x < y < r@.len() && listing.out@.len() <= y ==> (#[trigger] r@[x]).name@ != (
            #[trigger] r@[y]).name@,
        forall|x: int|
            listing.out@.len() <= x < r@.len() ==> {
                ||| exists|i: int|
                    0 <= i < made_up@.len() && (#[trigger] made_up@[i])@ == (#[trigger] r@[x])@
                ||| {
                    &&& dir@ == seq!['/']
                    &&& trash is Some
                    &&& trash->0.system is Some
                    &&& is_directory_of(r@[x], trash->0.system->0.dir_name@)
                }
            },
        dir@ == seq!['/'] && trash is Some && trash->0.system is Some ==> exists|x: int|
            0 <= x < r@.len() && (#[trigger] r@[x]).name@ == trash->0.system->0.dir_name@,
{
    let (found, extra) = (entries(listing.out@), entries(made_up@));
    let all = merged(found, extra);
    let out = entries(r@);
    merged_is(found, extra);
    assert(r@.len() == out.len());
    assert(out == with_bin(all, dir@, bin_name(*trash)));
    assert forall|i: int| 0 <= i < listing.out@.len() implies (#[trigger] r@[i])@
        == listing.out@[i]@ by {
        assert(out[i] == all[i]);
        assert(found[i] == all[i]);
    }
    assert forall|i: int| 0 <= i < made_up@.len() implies exists|x: int|
        0 <= x < r@.len() && (#[trigger] r@[x]).name@ == (#[trigger] made_up@[i]).name@ by {
        assert(extra[i] == made_up@[i]@);
        assert(named(all, extra[i].name));
        let x = choose|x: int| 0 <= x < all.len() && (#[trigger] all[x]).name == extra[i].name;
        assert(out[x] == all[x]);
        assert(r@[x].name@ == made_up@[i].name@);
    }
    assert forall|x: int, y: int| 0 <= x < y < r@.len() && listing.out@.len() <= y implies (
    #[trigger] r@[x]).name@ != (#[trigger] r@[y]).name@ by {
        assert(out[x].name == r@[x].name@);
        assert(out[y].name == r@[y].name@);
        assert(out[x] == all[x]);
        if y < all.len() {
            assert(out[y] == all[y]);
        }
    }
    assert forall|x: int| listing.out@.len() <= x < r@.len() implies {
        ||| exists|i: int| 0 <= i < made_up@.len() && (#[trigger] made_up@[i])@ == (#[trigger] r@[x])@
        ||| {
            &&& dir@ == seq!['/']
            &&& trash is Some
            &&& trash->0.system is Some
            &&& is_directory_of(r@[x], trash->0.system->0.dir_name@)
        }
    } by {
        assert(out[x] == r@[x]@);
        if x < all.len() {
            assert(out[x] == all[x]);
            assert(extra.contains(all[x]));
            let i = extra.index_of(all[x]);
            assert(made_up@[i]@ == r@[x]@);
        }
    }
    if dir@ == seq!['/'] && trash is Some && trash->0.system is Some {
        let name = trash->0.system->0.dir_name@;
        if named(all, name) {
            let x = choose|x: int| 0 <= x < all.len() && (#[trigger] all[x]).name == name;
            assert(out[x] == all[x]);
            assert(r@[x].name@ == name);
        } else {
            let x = out.len() - 1;
            assert(out[x].name == name);
            assert(r@[x].name@ == name);
        }
    }
}

proof fn merged_is(found: Seq<Entry>, extra: Seq<Entry>)
    ensures
        ({
            let all = merged(found, extra);
            &&& all.len() >= found.len()
            &&& forall|i: int| 0 <= i < found.len() ==> #[trigger] all[i] == found[i]
            &&& forall|i: int| 0 <= i < extra.len() ==> named(all, (#[trigger] extra[i]).name)
            &&& forall|x: int, y: int|
                0 <= x < y < all.len() && found.len() <= y ==> (#[trigger] all[x]).name != (
                #[trigger] all[y]).name
            &&& forall|x: int| found.len() <= x < all.len() ==> extra.contains(#[trigger] all[x])
        }),
    decreases extra.len(),
{
    let all = merged(found, extra);
    if extra.len() > 0 {
        let head = extra.drop_last();
        let before = merged(found, head);
        let last = extra.last();
        merged_is(found, head);
        assert forall|i: int| 0 <= i < extra.len() implies named(all, (#[trigger] extra[i]).name) by {
            if i < head.len() {
                assert(head[i] == extra[i]);
                assert(named(before, extra[i].name));
                let x = choose|x: int|
                    0 <= x < before.len() && (#[trigger] before[x]).name == extra[i].name;
                assert(all[x].name == extra[i].name);
            } else if !named(before, last.name) {
                assert(all[all.len() - 1].name == last.name);
            }
        }
        assert forall|x: int| found.len() <= x < all.len() implies extra.contains(
            #[trigger] all[x],
        ) by {
            if x < before.len() {
                assert(head.contains(before[x]));
                let i = head.index_of(before[x]);
                assert(extra[i] == all[x]);
            } else {
                assert(extra[extra.len() - 1] == all[x]);
            }
        }
        assert forall|x: int, y: int| 0 <= x < y < all.len() && found.len() <= y implies (
        #[trigger] all[x]).name != (#[trigger] all[y]).name by {
            assert(all[x] == before[x]);
            if y < before.len() {
                assert(all[y] == before[y]);
            }
        }
    }
}

} // verus!
