//! Listing a directory: what a page of the store's answer shows, and how the
//! pages and the entries made up here come together.

use crate::error::{FsError, Step};
use crate::metrics::Metrics;
use crate::text::{
    ends_with, ends_with_char, same, strip_prefix, trim_end, trim_end_char,
};
use crate::trash::{hidden, hidden_key, TrashState};
use vstd::prelude::*;

verus! {

/// An entry of a directory.
#[derive(Clone, Debug, PartialEq, Eq)]
pub struct DirEntry {
    pub name: String,
    pub is_dir: bool,
    pub size: u64,
    pub mtime_secs: i64,
}

/// What an entry says.
pub struct Entry {
    pub name: Seq<char>,
    pub is_dir: bool,
    pub size: u64,
    pub mtime_secs: i64,
}

impl View for DirEntry {
    type V = Entry;

    open spec fn view(&self) -> Entry {
        Entry {
            name: self.name@,
            is_dir: self.is_dir,
            size: self.size,
            mtime_secs: self.mtime_secs,
        }
    }
}

impl DirEntry {
    /// Another entry that says the same.
    pub fn copy(&self) -> (r: Self)
        ensures
            r@ == self@,
    {
        DirEntry {
            name: self.name.clone(),
            is_dir: self.is_dir,
            size: self.size,
            mtime_secs: self.mtime_secs,
        }
    }

    /// A directory of which nothing but the name is known.
    pub fn directory(name: String) -> (r: Self)
        ensures
            r@ == directory_entry(name@),
    {
        DirEntry { name, is_dir: true, size: 0, mtime_secs: 0 }
    }
}

/// A directory of which nothing but the name is known.
pub open spec fn directory_entry(name: Seq<char>) -> Entry {
    Entry { name, is_dir: true, size: 0, mtime_secs: 0 }
}

/// A length as the store gives it: nothing and negative ones count as zero.
pub open spec fn length_of(size: Option<i64>) -> u64 {
    match size {
        Some(n) => if n > 0 {
            n as u64
        } else {
            0
        },
        None => 0,
    }
}

/// A time as the store gives it, or zero.
pub open spec fn time_of(mtime: Option<i64>) -> i64 {
    match mtime {
        Some(t) => t,
        None => 0,
    }
}

/// A length as the store gives it.
pub fn object_length(size: Option<i64>) -> (r: u64)
    ensures
        r == length_of(size),
{
    match size {
        Some(n) => {
            if n > 0 {
                n as u64
            } else {
                0
            }
        },
        None => 0,
    }
}

/// A time as the store gives it, or zero.
pub fn object_time(mtime: Option<i64>) -> (r: i64)
    ensures
        r == time_of(mtime),
{
    match mtime {
        Some(t) => t,
        None => 0,
    }
}

/// One object of a page.
#[derive(Clone, Debug, PartialEq, Eq)]
pub struct ListedObject {
    pub key: Option<String>,
    pub size: Option<i64>,
    pub mtime_secs: Option<i64>,
}

/// One page of the store's answer: the prefixes up to the next slash, the
/// objects, and whether and where it goes on.
#[derive(Debug)]
pub struct Page {
    pub prefixes: Vec<Option<String>>,
    pub objects: Vec<ListedObject>,
    pub truncated: Option<bool>,
    pub token: Option<String>,
}

/// What follows `prefix` in `s`, or all of `s` where it begins otherwise.
pub open spec fn after_prefix(s: Seq<char>, prefix: Seq<char>) -> Seq<char> {
    if prefix.is_prefix_of(s) {
        s.skip(prefix.len() as int)
    } else {
        s
    }
}

/// What a prefix of a page shows, if anything.
pub open spec fn prefix_entry(
    trash: Option<TrashState>,
    list_prefix: Seq<char>,
    p: Option<String>,
) -> Option<Entry> {
    match p {
        None => None,
        Some(p) => {
            let name = trim_end(after_prefix(p@, list_prefix), '/');
            if hidden(trash, p@) || name.len() == 0 {
                None
            } else {
                Some(directory_entry(name))
            }
        },
    }
}

/// A key of a page that shows a file: not the directory's own marker, not
/// hidden, under the prefix, with a name that is neither empty nor a marker's,
/// nor, where those are left out, that of another tool's marker.
pub open spec fn shows_file(
    trash: Option<TrashState>,
    list_prefix: Seq<char>,
    skip_foreign_markers: bool,
    key: Seq<char>,
) -> bool {
    let name = key.skip(list_prefix.len() as int);
    &&& key != list_prefix
    &&& !hidden(trash, key)
    &&& list_prefix.is_prefix_of(key)
    &&& name.len() > 0
    &&& name.last() != '/'
    &&& !(skip_foreign_markers && "_$folder$"@.is_suffix_of(name))
}

/// What an object of a page shows, if anything.
pub open spec fn object_entry(
    trash: Option<TrashState>,
    list_prefix: Seq<char>,
    skip_foreign_markers: bool,
    o: ListedObject,
) -> Option<Entry> {
    match o.key {
        None => None,
        Some(key) => if shows_file(trash, list_prefix, skip_foreign_markers, key@) {
            Some(
                Entry {
                    name: key@.skip(list_prefix.len() as int),
                    is_dir: false,
                    size: length_of(o.size),
                    mtime_secs: time_of(o.mtime_secs),
                },
            )
        } else {
            None
        },
    }
}

/// What a page shows: its directories and then its files.
pub open spec fn page_entries(
    trash: Option<TrashState>,
    list_prefix: Seq<char>,
    skip_foreign_markers: bool,
    page: Page,
) -> Seq<Entry> {
    page.prefixes@.filter_map(|p: Option<String>| prefix_entry(trash, list_prefix, p))
        + page.objects@.filter_map(
        |o: ListedObject| object_entry(trash, list_prefix, skip_foreign_markers, o),
    )
}

/// What the entries say.
pub open spec fn entries(v: Seq<DirEntry>) -> Seq<Entry> {
    v.map_values(|e: DirEntry| e@)
}

/// Where a listing goes on: nowhere unless it says that it does, and an error
/// where it does not say where.
pub fn next_page_token(truncated: Option<bool>, token: Option<String>) -> (r: Result<
    Option<String>,
    FsError,
>)
    ensures
        r == (if truncated != Some(true) {
            Ok::<Option<String>, FsError>(None)
        } else if token is Some {
            Ok(token)
        } else {
            Err(FsError::PartialListing)
        }),
{
    match truncated {
        Some(true) => match token {
            Some(tok) => Ok(Some(tok)),
            None => Err(FsError::PartialListing),
        },
        _ => Ok(None),
    }
}

/// A listing under way.
pub struct Listing {
    /// The prefix of the directory's children.
    pub list_prefix: String,
    pub skip_foreign_markers: bool,
    pub out: Vec<DirEntry>,
}

impl Listing {
    /// Begins a listing; one listing is counted, however many pages it has.
    pub fn start(list_prefix: String, skip_foreign_markers: bool, m: &mut Metrics) -> (r: Self)
        ensures
            r.list_prefix@ == list_prefix@,
            r.skip_foreign_markers == skip_foreign_markers,
            entries(r.out@) == Seq::<Entry>::empty(),
            *final(m) == (Metrics { s3_lists: old(m).s3_lists.wrapping_add(1), ..*old(m) }),
    {
        m.s3_lists = m.s3_lists.wrapping_add(1);
        let r = Listing { list_prefix, skip_foreign_markers, out: Vec::new() };
        assert(entries(r.out@) =~= Seq::<Entry>::empty());
        r
    }

    /// The error for a page that did not come.
    pub fn failed(cause: Vec<String>, m: &mut Metrics) -> (r: FsError)
        ensures
            r == (FsError::Failed { step: Step::List, cause }),
            *final(m) == (Metrics {
                s3_errors: old(m).s3_errors.wrapping_add(1),
                s3_list_errors: old(m).s3_list_errors.wrapping_add(1),
                ..*old(m)
            }),
    {
        m.s3_errors = m.s3_errors.wrapping_add(1);
        m.s3_list_errors = m.s3_list_errors.wrapping_add(1);
        FsError::Failed { step: Step::List, cause }
    }

    fn show_prefix(&self, trash: &Option<TrashState>, p: &Option<String>) -> (r: Option<DirEntry>)
        requires
            trash is Some ==> trash->0.wf(),
        ensures
            r is Some <==> prefix_entry(*trash, self.list_prefix@, *p) is Some,
            r is Some ==> r->0@ == prefix_entry(*trash, self.list_prefix@, *p)->0,
    {
        match p {
            None => None,
            Some(p) => {
                if hidden_key(trash, p.as_str()) {
                    return None;
                }
                let rest = match strip_prefix(p.as_str(), self.list_prefix.as_str()) {
                    Some(rest) => rest,
                    None => p.clone(),
                };
                let name = trim_end_char(rest.as_str(), '/');
                if name.as_str().is_empty() {
                    None
                } else {
                    Some(DirEntry::directory(name))
                }
            },
        }
    }

    fn show_object(&self, trash: &Option<TrashState>, o: &ListedObject) -> (r: Option<DirEntry>)
        requires
            trash is Some ==> trash->0.wf(),
        ensures
            r is Some <==> object_entry(
                *trash,
                self.list_prefix@,
                self.skip_foreign_markers,
                *o,
            ) is Some,
            r is Some ==> r->0@ == object_entry(
                *trash,
                self.list_prefix@,
                self.skip_foreign_markers,
                *o,
            )->0,
    {
        match &o.key {
            None => None,
            Some(key) => {
                if same(key.as_str(), self.list_prefix.as_str()) {
                    return None;
                }
                if hidden_key(trash, key.as_str()) {
                    return None;
                }
                match strip_prefix(key.as_str(), self.list_prefix.as_str()) {
                    None => None,
                    Some(name) => {
                        if name.as_str().is_empty() || ends_with_char(name.as_str(), '/') {
                            return None;
                        }
                        if self.skip_foreign_markers && ends_with(name.as_str(), "_$folder$") {
                            return None;
                        }
                        Some(
                            DirEntry {
                                name,
                                is_dir: false,
                                size: object_length(o.size),
                                mtime_secs: object_time(o.mtime_secs),
                            },
                        )
                    },
                }
            },
        }
    }

    /// Takes in one page, and says where the listing goes on.
    pub fn page(&mut self, page: Page, trash: &Option<TrashState>) -> (r: Result<
        Option<String>,
        FsError,
    >)
        requires
            trash is Some ==> trash->0.wf(),
        ensures
            final(self).list_prefix == old(self).list_prefix,
            final(self).skip_foreign_markers == old(self).skip_foreign_markers,
            entries(final(self).out@) == entries(old(self).out@) + page_entries(
                *trash,
                old(self).list_prefix@,
                old(self).skip_foreign_markers,
                page,
            ),
            r == (if page.truncated != Some(true) {
                Ok::<Option<String>, FsError>(None)
            } else if page.token is Some {
                Ok(page.token)
            } else {
                Err(FsError::PartialListing)
            }),
    {
        let ghost before = entries(self.out@);
        let ghost f = |p: Option<String>| prefix_entry(*trash, self.list_prefix@, p);
        let ghost g = |o: ListedObject|
            object_entry(*trash, self.list_prefix@, self.skip_foreign_markers, o);
        let ghost prefix = self.list_prefix;
        let ghost skip = self.skip_foreign_markers;
        let mut i: usize = 0;
        assert(page.prefixes@.take(0).filter_map(f) =~= Seq::<Entry>::empty());
        assert(entries(self.out@) =~= before + page.prefixes@.take(0).filter_map(f));
        while i < page.prefixes.len()
            invariant
                trash is Some ==> trash->0.wf(),
                i <= page.prefixes@.len(),
                self.list_prefix == prefix,
                self.skip_foreign_markers == skip,
                f == (|p: Option<String>| prefix_entry(*trash, prefix@, p)),
                entries(self.out@) == before + page.prefixes@.take(i as int).filter_map(f),
            decreases page.prefixes@.len() - i,
        {
            let ghost out0 = self.out@;
            let shown = self.show_prefix(trash, &page.prefixes[i]);
            proof {
                page.prefixes@.lemma_filter_map_take_succ(f, i as int);
            }
            match shown {
                Some(e) => {
                    self.out.push(e);
                    assert(entries(self.out@) =~= entries(out0).push(e@));
                },
                None => {},
            }
            assert(entries(self.out@) =~= before + page.prefixes@.take(i + 1).filter_map(f));
            i += 1;
        }
        assert(page.prefixes@.take(page.prefixes@.len() as int) =~= page.prefixes@);
        let ghost middle = entries(self.out@);
        let mut k: usize = 0;
        assert(page.objects@.take(0).filter_map(g) =~= Seq::<Entry>::empty());
        assert(entries(self.out@) =~= middle + page.objects@.take(0).filter_map(g));
        while k < page.objects.len()
            invariant
                trash is Some ==> trash->0.wf(),
                k <= page.objects@.len(),
                self.list_prefix == prefix,
                self.skip_foreign_markers == skip,
                g == (|o: ListedObject| object_entry(*trash, prefix@, skip, o)),
                entries(self.out@) == middle + page.objects@.take(k as int).filter_map(g),
            decreases page.objects@.len() - k,
        {
            let ghost out0 = self.out@;
            let shown = self.show_object(trash, &page.objects[k]);
            proof {
                page.objects@.lemma_filter_map_take_succ(g, k as int);
            }
            match shown {
                Some(e) => {
                    self.out.push(e);
                    assert(entries(self.out@) =~= entries(out0).push(e@));
                },
                None => {},
            }
            assert(entries(self.out@) =~= middle + page.objects@.take(k + 1).filter_map(g));
            k += 1;
        }
        assert(page.objects@.take(page.objects@.len() as int) =~= page.objects@);
        assert(entries(self.out@) =~= before + page_entries(*trash, prefix@, skip, page));
        next_page_token(page.truncated, page.token)
    }

    /// The listing as it is handed out. Entries made up for the recycle bin
    /// are added where nothing real has their name, and the root shows the bin
    /// itself.
    pub fn finish(self, dir: &str, trash: &Option<TrashState>, made_up: Vec<DirEntry>) -> (r: Vec<
        DirEntry,
    >)
        ensures
            entries(r@) == with_bin(
                merged(entries(self.out@), entries(made_up@)),
                dir@,
                bin_name(*trash),
            ),
    {
        let mut out = self.out;
        let ghost found = entries(out@);
        let ghost all = entries(made_up@);
        let mut rest = made_up;
        let mut i: usize = 0;
        assert(all.take(0) =~= Seq::<Entry>::empty());
        while i < rest.len()
            invariant
                i <= rest@.len(),
                entries(rest@) == all,
                entries(out@) == merged(found, all.take(i as int)),
            decreases rest@.len() - i,
        {
            let e = rest[i].copy();
            proof {
                assert(entries(rest@)[i as int] == e@);
                assert(all.take(i + 1).drop_last() =~= all.take(i as int));
                assert(all.take(i + 1).last() == e@);
            }
            if !is_named(&out, e.name.as_str()) {
                let ghost out0 = out@;
                out.push(e);
                assert(entries(out@) =~= entries(out0).push(e@));
            }
            i += 1;
        }
        assert(all.take(all.len() as int) =~= all);
        proof {
            reveal_strlit("/");
            assert("/"@ =~= seq!['/']);
        }
        if same(dir, "/") {
            match trash {
                Some(t) => match &t.system {
                    Some(sys) => {
                        if !is_named(&out, sys.dir_name.as_str()) {
                            let ghost out0 = out@;
                            out.push(DirEntry::directory(sys.dir_name.clone()));
                            assert(entries(out@) =~= entries(out0).push(
                                directory_entry(sys.dir_name@),
                            ));
                        }
                    },
                    None => {},
                },
                None => {},
            }
        }
        out
    }
}

/// One of the entries has that name.
pub open spec fn named(v: Seq<Entry>, name: Seq<char>) -> bool {
    exists|i: int| 0 <= i < v.len() && (#[trigger] v[i]).name == name
}

fn is_named(v: &Vec<DirEntry>, name: &str) -> (r: bool)
    ensures
        r == named(entries(v@), name@),
{
    let mut i: usize = 0;
    while i < v.len()
        invariant
            i <= v@.len(),
            forall|j: int| 0 <= j < i ==> (#[trigger] entries(v@)[j]).name != name@,
        decreases v@.len() - i,
    {
        if same(v[i].name.as_str(), name) {
            assert(entries(v@)[i as int].name == name@);
            return true;
        }
        i += 1;
    }
    false
}

/// `found` with those of `extra` added whose name is not there yet.
pub open spec fn merged(found: Seq<Entry>, extra: Seq<Entry>) -> Seq<Entry>
    decreases extra.len(),
{
    if extra.len() == 0 {
        found
    } else {
        let before = merged(found, extra.drop_last());
        if named(before, extra.last().name) {
            before
        } else {
            before.push(extra.last())
        }
    }
}

/// The name of the recycle bin, where one is shown.
pub open spec fn bin_name(trash: Option<TrashState>) -> Option<Seq<char>> {
    match trash {
        Some(t) => match t.system {
            Some(sys) => Some(sys.dir_name@),
            None => None,
        },
        None => None,
    }
}

/// The entries of `dir`, with the recycle bin added to those of the root.
pub open spec fn with_bin(v: Seq<Entry>, dir: Seq<char>, bin: Option<Seq<char>>) -> Seq<Entry> {
    match bin {
        Some(name) => if dir == seq!['/'] && !named(v, name) {
            v.push(directory_entry(name))
        } else {
            v
        },
        None => v,
    }
}

/// What is hidden is never listed: a file is listed under its own key, which
/// is not hidden, and a directory for a prefix that is not hidden.
pub proof fn hidden_keys_are_not_listed(
    trash: Option<TrashState>,
    list_prefix: Seq<char>,
    skip_foreign_markers: bool,
    page: Page,
    e: Entry,
)
    requires
        page_entries(trash, list_prefix, skip_foreign_markers, page).contains(e),
    ensures
        !e.is_dir ==> !hidden(trash, list_prefix + e.name),
        e.is_dir ==> exists|i: int|
            0 <= i < page.prefixes@.len() && (#[trigger] page.prefixes@[i]) is Some && !hidden(
                trash,
                page.prefixes@[i]->0@,
            ) && e.name == trim_end(after_prefix(page.prefixes@[i]->0@, list_prefix), '/'),
{
    let f = |p: Option<String>| prefix_entry(trash, list_prefix, p);
    let g = |o: ListedObject| object_entry(trash, list_prefix, skip_foreign_markers, o);
    let a = page.prefixes@.filter_map(f);
    let b = page.objects@.filter_map(g);
    let i = (a + b).index_of(e);
    assert((a + b)[i] == e);
    if i < a.len() {
        assert(a[i] == e);
        assert(a.contains(e));
        page.prefixes@.lemma_filter_map_contains(f, e);
        let p = choose|p: Option<String>| page.prefixes@.contains(p) && f(p) == Some(e);
        let j = page.prefixes@.index_of(p);
        assert(page.prefixes@[j] == p);
    } else {
        assert(b[i - a.len()] == e);
        assert(b.contains(e));
        page.objects@.lemma_filter_map_contains(g, e);
        let o = choose|o: ListedObject| page.objects@.contains(o) && g(o) == Some(e);
        let key = o.key->0@;
        assert(key =~= list_prefix + key.skip(list_prefix.len() as int));
    }
}

/// Entries made up for the recycle bin never displace a real one, and no name
/// that was there is lost.
pub proof fn real_entries_come_first(found: Seq<Entry>, extra: Seq<Entry>)
    ensures
        found.is_prefix_of(merged(found, extra)),
        forall|i: int|
            0 <= i < extra.len() ==> named(merged(found, extra), (#[trigger] extra[i]).name),
    decreases extra.len(),
{
    if extra.len() > 0 {
        let before = merged(found, extra.drop_last());
        let after = merged(found, extra);
        real_entries_come_first(found, extra.drop_last());
        assert(found =~= after.subrange(0, found.len() as int)) by {
            assert(found =~= before.subrange(0, found.len() as int));
        }
        assert forall|i: int| 0 <= i < extra.len() implies named(
            after,
            (#[trigger] extra[i]).name,
        ) by {
            if i < extra.len() - 1 {
                assert(extra.drop_last()[i] == extra[i]);
                assert(named(before, extra[i].name));
                let j = choose|j: int|
                    0 <= j < before.len() && (#[trigger] before[j]).name == extra[i].name;
                assert(after[j].name == extra[i].name);
            } else if !named(before, extra.last().name) {
                assert(after[after.len() - 1].name == extra[i].name);
            }
        }
    }
}

} // verus!
