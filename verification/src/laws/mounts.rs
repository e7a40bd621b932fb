//! Each operation of a mount works on the key of its own path, forgets what it
//! makes wrong, and leaves everything else as it was.

use crate::budget::{permit_source, permit_units};
use crate::deletion::{
    is_checksum_header, plan_delete, plan_delete_dir, DeleteDirPlan, DeletePlan, TreeDeletion,
    TreeNext,
};
use crate::error::FsError;
use crate::fs::ObjectFs;
use crate::laws::listings::{begins, buried, concealed, covered_is_buried, hidden_is_concealed};
use crate::laws::paths::{end_trim_is, only, root_is_only_slashes, start_trim_is};
use crate::laws::uploads::{rounded_up, units_hold};
use crate::listing::Listing;
use crate::metrics::Metrics;
use crate::multipart::CreateReply;
use crate::operations::{BinRead, RangeNext, WritePlan};
use crate::paths::directory_prefix;
use crate::stat::{Lookup, LookupNext};
use crate::stat_cache::{Cached, StatCaches};
use crate::streaming::StreamingUpload;
use crate::trash::{SystemTrashMatch, TombstoneIndex};
use crate::writing::MkdirPlan;
use vstd::prelude::*;

verus! {

/// `path` stands for `name`: slashes, and then the name, which begins with
/// something else.
pub open spec fn stands_for_name(path: Seq<char>, name: Seq<char>) -> bool {
    &&& path.len() >= name.len() > 0
    &&& path.skip(path.len() - name.len()) == name
    &&& only(path.take(path.len() - name.len()), '/')
    &&& name[0] != '/'
}

proof fn key_of(prefix: Seq<char>, path: Seq<char>, name: Seq<char>)
    requires
        stands_for_name(path, name),
    ensures
        crate::paths::object_key(prefix, path) == prefix + name,
        path != seq!['/'],
{
    let front = path.take(path.len() - name.len());
    assert(path =~= front + name);
    start_trim_is(path, '/', front, name);
    assert(path[path.len() - name.len()] == name[0]);
}

/// What was known of `path` is forgotten, and of every other path it is known
/// as before.
pub open spec fn forgets_lookup(before: &ObjectFs, after: &ObjectFs, path: Seq<char>) -> bool {
    &&& !after.caches.stats@.contains_key(path)
    &&& !after.caches.negative@.contains_key(path)
    &&& forall|p: Seq<char>|
        p != path && #[trigger] before.caches.stats@.contains_key(p)
            ==> after.caches.stats@.contains_key(p) && after.caches.stats@[p]
            == before.caches.stats@[p]
    &&& forall|p: Seq<char>|
        p != path && #[trigger] before.caches.negative@.contains_key(p)
            ==> after.caches.negative@.contains_key(p) && after.caches.negative@[p]
            == before.caches.negative@[p]
}

/// What was read of `path` is forgotten, in memory and on disk, and of every
/// other path it is kept.
pub open spec fn forgets_reads(
    before: &ObjectFs,
    after: &ObjectFs,
    path: Seq<char>,
    key: Seq<char>,
) -> bool {
    &&& !after.reader.cache@.contains_key(path)
    &&& !after.reader.hints@.contains_key(path)
    &&& forall|p: Seq<char>|
        p != path && #[trigger] before.reader.cache@.contains_key(p)
            ==> after.reader.cache@.contains_key(p) && after.reader.cache@[p]
            == before.reader.cache@[p]
    &&& before.disk_cache is Some ==> {
        &&& after.disk_cache is Some
        &&& forall|k: Seq<char>, b: u64| #[trigger]
            after.disk_cache->0.listed().contains((k, b)) <==> k != key
                && before.disk_cache->0.listed().contains((k, b))
    }
}

proof fn reads_forgotten(before: &ObjectFs, after: &ObjectFs, path: Seq<char>, key: Seq<char>)
    requires
        after.forgot_reads(before, path),
        key == crate::paths::object_key(before.prefix@, path),
    ensures
        forgets_reads(before, after, path, key),
{
    if before.disk_cache is Some {
        let k0 = crate::paths::object_key(before.prefix@, path);
        let p = |e: (Seq<char>, u64)| e.0 != k0;
        let all = before.disk_cache->0.listed();
        let now = after.disk_cache->0.listed();
        assert(now == all.filter(p));
        broadcast use vstd::seq_lib::group_filter_ensures;
        assert forall|k: Seq<char>, b: u64| #[trigger] now.contains((k, b)) implies k != key
            && all.contains((k, b)) by {
            all.lemma_filter_contains_rev(p, (k, b));
            let i = now.index_of((k, b));
            assert(p(all.filter(p)[i]));
        }
        assert forall|k: Seq<char>, b: u64| k != key && all.contains(
            (k, b),
        ) implies #[trigger] now.contains((k, b)) by {
            let i = all.index_of((k, b));
            assert(p(all[i]));
            assert(all.filter(p).contains(all[i]));
        }
    }
}

/// The key of a path is the prefix and the name, and the keys in a directory
/// are the prefix, the directory's name and a slash.
pub proof fn mounts_keep_their_prefix(
    fs: &ObjectFs,
    path: &str,
    key: String,
    name: Seq<char>,
    dir: &str,
    under: String,
    dir_name: Seq<char>,
)
    requires
        call_ensures(ObjectFs::key_for, (fs, path), key),
        stands_for_name(path@, name),
        call_ensures(ObjectFs::list_prefix, (fs, dir), under),
        stands_for_name(dir@, dir_name),
        dir_name.last() != '/',
    ensures
        key@ == fs.prefix@ + name,
        under@ == fs.prefix@ + dir_name + seq!['/'],
{
    key_of(fs.prefix@, path@, name);
    key_of(fs.prefix@, dir@, dir_name);
    dir_prefix_of(fs.prefix@, dir@, dir_name);
}

proof fn dir_prefix_of(prefix: Seq<char>, dir: Seq<char>, name: Seq<char>)
    requires
        stands_for_name(dir, name),
        name.last() != '/',
    ensures
        crate::paths::children_prefix(prefix, dir) == prefix + name + seq!['/'],
        !crate::paths::is_root(dir),
        directory_prefix(prefix + name) == prefix + name + seq!['/'],
{
    key_of(prefix, dir, name);
    let key = prefix + name;
    assert(key.last() == name.last());
    assert(key + Seq::<char>::empty() =~= key);
    end_trim_is(key, '/', key, Seq::empty());
    assert(key.push('/') =~= key + seq!['/']);
    let front = dir.take(dir.len() - name.len());
    assert(dir =~= front + name);
    start_trim_is(dir, '/', front, name);
}

/// A read is fetched from the key of its path, or from that of the original
/// where the path stands in the recycle bin.
pub proof fn reads_go_to_their_key(
    fs: &mut ObjectFs,
    path: &str,
    offset: u64,
    len: usize,
    bin: BinRead,
    now: u64,
    r: RangeNext,
    name: Seq<char>,
)
    requires
        old(fs).wf(),
        call_ensures(ObjectFs::read_range, (fs, path, offset, len, bin, now), r),
        stands_for_name(path@, name),
    ensures
        r is Fetch && bin is Plain ==> r->key@ == old(fs).prefix@ + name,
        r is Fetch ==> bin is Plain || bin is Original,
        bin matches BinRead::Original { key } ==> r is Fetch ==> r->key@ == key@,
{
    key_of(old(fs).prefix@, path@, name);
}

/// What a mount knows of a path is what its memory says.
pub proof fn mounts_answer_from_memory(
    fs: &mut ObjectFs,
    path: &str,
    now: u64,
    r: Cached,
    m: &mut Metrics,
    known: Cached,
)
    requires
        old(fs).wf(),
        call_ensures(ObjectFs::stat, (fs, path, now), r),
        call_ensures(StatCaches::lookup, (&old(fs).caches, path, now, m), known),
    ensures
        r is Present <==> known is Present,
        r is Absent <==> known is Absent,
        r is Present ==> r->entry@ == known->entry@,
        final(fs).caches == old(fs).caches,
{
}

/// A write goes to the key of its path, in parts above sixteen mebibytes, with
/// a permit for its bytes where there is a limit; what was known and read of
/// the path is forgotten. A read-only mount writes nothing.
pub proof fn writes_go_to_their_key(
    fs: &mut ObjectFs,
    path: &str,
    size: u64,
    r: Result<WritePlan, FsError>,
    name: Seq<char>,
)
    requires
        old(fs).wf(),
        call_ensures(ObjectFs::write, (fs, path, size), r),
        stands_for_name(path@, name),
    ensures
        old(fs).read_only ==> r is Err && *final(fs) == *old(fs),
        !old(fs).read_only ==> forgets_lookup(old(fs), final(fs), path@) && forgets_reads(
            old(fs),
            final(fs),
            path@,
            old(fs).prefix@ + name,
        ),
        r matches Ok(plan) ==> {
            &&& plan.key@ == old(fs).prefix@ + name
            &&& plan.route is Multipart <==> size > 16 * 1024 * 1024
        },
        !old(fs).read_only && !old(fs).upload_budget.limited() ==> r is Ok,
        size <= usize::MAX ==> {
            let budget = old(fs).upload_budget;
            &&& r matches Ok(plan) ==> (plan.budget is Some <==> budget.limited() && size > 0)
            &&& r matches Ok(plan) ==> plan.budget is Some ==> units_hold(
                permit_units(plan.budget->0) as int,
                size as int,
            ) && permit_source(plan.budget->0) == budget.source()
            &&& budget.limited() && size > budget.all_units() * 1_048_576 ==> r is Err
        },
        old(fs).read_only ==> r->Err_0 == FsError::ReadOnly,
        final(fs).trash == old(fs).trash,
        final(fs).prefix == old(fs).prefix,
{
    key_of(old(fs).prefix@, path@, name);
    if !old(fs).read_only {
        reads_forgotten(old(fs), final(fs), path@, old(fs).prefix@ + name);
        rounded_up(size as nat);
    }
}

/// A stream goes to the key of its path, and what was known of the path is
/// forgotten.
pub proof fn streams_go_to_their_key(
    fs: &mut ObjectFs,
    path: &str,
    r: Result<String, FsError>,
    name: Seq<char>,
)
    requires
        old(fs).wf(),
        call_ensures(ObjectFs::begin_streaming_upload, (fs, path), r),
        stands_for_name(path@, name),
    ensures
        r is Err <==> old(fs).read_only,
        r matches Ok(key) ==> key@ == old(fs).prefix@ + name && forgets_lookup(
            old(fs),
            final(fs),
            path@,
        ),
{
    key_of(old(fs).prefix@, path@, name);
}

/// An object is deleted at the key of its path, and a tree at the keys in its
/// directory; what was known and read of them is forgotten.
pub proof fn deletions_go_to_their_key(
    fs: &mut ObjectFs,
    path: &str,
    key: String,
    name: Seq<char>,
    again: &mut ObjectFs,
    dir: &str,
    r: (String, TreeDeletion, TreeNext),
    dir_name: Seq<char>,
)
    requires
        old(fs).wf(),
        call_ensures(ObjectFs::delete_object, (fs, path), key),
        stands_for_name(path@, name),
        old(again).wf(),
        call_ensures(ObjectFs::delete_tree, (again, dir), r),
        stands_for_name(dir@, dir_name),
        dir_name.last() != '/',
    ensures
        key@ == old(fs).prefix@ + name,
        forgets_lookup(old(fs), final(fs), path@),
        forgets_reads(old(fs), final(fs), path@, old(fs).prefix@ + name),
        r.0@ == old(again).prefix@ + dir_name + seq!['/'],
        r.1.marker@ == old(again).prefix@ + dir_name + seq!['/'],
        r.2 is List && r.2->List_token is None,
        forgets_lookup(old(again), final(again), dir@),
        forall|p: Seq<char>| !#[trigger] final(again).reader.cache@.contains_key(p),
        final(again).disk_cache is Some ==> final(again).disk_cache->0.listed().len() == 0,
{
    key_of(old(fs).prefix@, path@, name);
    reads_forgotten(old(fs), final(fs), path@, old(fs).prefix@ + name);
    dir_prefix_of(old(again).prefix@, dir@, dir_name);
    key_of(old(again).prefix@, dir@, dir_name);
}

/// A directory is made at its own path and a slash, and what was known of the
/// path is forgotten.
pub proof fn directories_are_made_where_asked(
    fs: &mut ObjectFs,
    path: &str,
    bin: &Option<SystemTrashMatch>,
    r: Result<MkdirPlan, FsError>,
    name: Seq<char>,
)
    requires
        old(fs).wf(),
        call_ensures(ObjectFs::mkdir, (fs, path, bin), r),
        stands_for_name(path@, name),
    ensures
        r is Err <==> old(fs).read_only,
        r matches Ok(MkdirPlan::Marker { path: made }) ==> {
            &&& path@.last() == '/' ==> made@ == path@
            &&& path@.last() != '/' ==> made@ == path@ + seq!['/']
            &&& forgets_lookup(old(fs), final(fs), path@)
        },
        r is Ok && r->Ok_0 is InBin ==> *bin is Some && bin->0 is Dir && old(fs).trash is Some,
        r is Ok && !(*bin is Some && bin->0 is Dir) ==> r->Ok_0 is Marker,
{
    root_is_only_slashes(path@);
    assert(path@[path@.len() - name.len()] == path@.skip(path@.len() - name.len())[0]);
    assert(path@.push('/') =~= path@ + seq!['/']);
}

/// A rename is of the keys of its two paths; both are forgotten, and so is all
/// that was read.
pub proof fn renames_are_of_their_keys(
    fs: &mut ObjectFs,
    old_path: &str,
    new_path: &str,
    replace: bool,
    from_bin: Option<SystemTrashMatch>,
    to_bin: Option<SystemTrashMatch>,
    r: (crate::rename::Rename, crate::rename::RenameNext),
    a: Seq<char>,
    b: Seq<char>,
)
    requires
        old(fs).wf(),
        call_ensures(ObjectFs::rename, (fs, old_path, new_path, replace, from_bin, to_bin), r),
        stands_for_name(old_path@, a),
        stands_for_name(new_path@, b),
    ensures
        r.0.bucket@ == old(fs).bucket@,
        r.0.old_key@ == old(fs).prefix@ + a,
        r.0.new_key@ == old(fs).prefix@ + b,
        r.0.allow_dir == old(fs).allow_rename_dir,
        r.0.dir_limit == old(fs).rename_dir_limit,
        old(fs).read_only ==> r.1 is Done && r.1->result is Err && *final(fs) == *old(fs),
        !old(fs).read_only ==> {
            &&& !final(fs).caches.stats@.contains_key(old_path@)
            &&& !final(fs).caches.stats@.contains_key(new_path@)
            &&& !final(fs).caches.negative@.contains_key(old_path@)
            &&& !final(fs).caches.negative@.contains_key(new_path@)
            &&& forall|p: Seq<char>| !#[trigger] final(fs).reader.cache@.contains_key(p)
            &&& final(fs).disk_cache is Some ==> final(fs).disk_cache->0.listed().len() == 0
        },
{
    key_of(old(fs).prefix@, old_path@, a);
    key_of(old(fs).prefix@, new_path@, b);
}

/// A lookup and a listing are of the path that was asked for, in this mount's
/// own part of the bucket.
pub proof fn lookups_and_listings_are_of_their_path(
    fs: &mut ObjectFs,
    dir: &str,
    listing: Listing,
    name: Seq<char>,
    again: &mut ObjectFs,
    path: &str,
    r: (Lookup, LookupNext),
    path_name: Seq<char>,
)
    requires
        old(fs).wf(),
        call_ensures(ObjectFs::list, (fs, dir), listing),
        stands_for_name(dir@, name),
        name.last() != '/',
        old(again).wf(),
        call_ensures(ObjectFs::stat_uncached, (again, path, None), r),
        stands_for_name(path@, path_name),
    ensures
        listing.list_prefix@ == old(fs).prefix@ + name + seq!['/'],
        listing.skip_foreign_markers == old(fs).notsup_compat_dir,
        listing.out@.len() == 0,
        r.0.prefix@ == old(again).prefix@,
        r.0.path@ == path@,
        ({
            let key = old(again).prefix@ + path_name;
            &&& concealed(old(again).trash, key) ==> r.1 is Done && r.1->result == Ok::<
                Option<crate::listing::DirEntry>,
                FsError,
            >(None)
            &&& !concealed(old(again).trash, key) ==> r.1 is Head && r.1->Head_key@ == key
        }),
{
    dir_prefix_of(old(fs).prefix@, dir@, name);
    assert(crate::listing::entries(listing.out@).len() == listing.out@.len());
    key_of(old(again).prefix@, path@, path_name);
    hidden_is_concealed(old(again).trash, old(again).prefix@ + path_name);
}

/// A file that is put in the trash is hidden from then on, and a directory
/// with everything in it; what was known of it is forgotten.
pub proof fn what_is_put_in_the_trash_is_hidden(
    fs: &mut ObjectFs,
    path: &str,
    is_dir: bool,
    name: Seq<char>,
    rest: Seq<char>,
)
    requires
        old(fs).wf(),
        old(fs).trash is Some,
        call_ensures(ObjectFs::trash_insert, (fs, path, is_dir), ()),
        stands_for_name(path@, name),
        name.last() != '/',
    ensures
        concealed(final(fs).trash, old(fs).prefix@ + name),
        is_dir ==> concealed(final(fs).trash, old(fs).prefix@ + name + seq!['/'] + rest),
        !final(fs).caches.stats@.contains_key(path@),
        !final(fs).caches.negative@.contains_key(path@),
        forall|key: Seq<char>| #[trigger]
            concealed(old(fs).trash, key) ==> concealed(final(fs).trash, key),
        !is_dir ==> forall|key: Seq<char>|
            key != old(fs).prefix@ + name ==> (#[trigger] concealed(final(fs).trash, key)
                <==> concealed(old(fs).trash, key)),
        is_dir ==> forall|key: Seq<char>|
            key != old(fs).prefix@ + name && !begins(key, old(fs).prefix@ + name + seq!['/']) ==> (
            #[trigger] concealed(final(fs).trash, key) <==> concealed(old(fs).trash, key)),
        is_dir ==> forall|p: Seq<char>| #[trigger]
            begins(p, path@ + seq!['/']) ==> !final(fs).caches.stats@.contains_key(p)
                && !final(fs).caches.negative@.contains_key(p),
        forall|p: Seq<char>| #[trigger]
            old(fs).caches.stats@.contains_key(p) && p != path@ && !(is_dir && begins(
                p,
                path@ + seq!['/'],
            )) ==> final(fs).caches.stats@.contains_key(p) && final(fs).caches.stats@[p]
                == old(fs).caches.stats@[p],
{
    let key = old(fs).prefix@ + name;
    assert(path@.last() == name.last()) by {
        assert(path@.skip(path@.len() - name.len())[name.len() - 1] == path@.last());
    }
    assert(path@ + Seq::<char>::empty() =~= path@);
    end_trim_is(path@, '/', path@, Seq::empty());
    assert(path@.push('/') =~= path@ + seq!['/']);
    assert forall|p: Seq<char>| #[trigger] begins(p, path@ + seq!['/']) <==> (path@ + seq![
        '/',
    ]).is_prefix_of(p) by {
        let q = path@ + seq!['/'];
        if q.len() <= p.len() {
            assert(p.take(q.len() as int) =~= p.subrange(0, q.len() as int));
        }
    }
    key_of(old(fs).prefix@, path@, name);
    dir_prefix_of(old(fs).prefix@, path@, name);
    let (before, after) = (old(fs).trash->0, final(fs).trash->0);
    let d = key + seq!['/'];
    if is_dir {
        assert(after.index.dirs().contains(d));
        assert((d + rest).take(d.len() as int) =~= d);
        assert(begins(d + rest, d));
    }
    assert forall|k: Seq<char>| #[trigger] concealed(old(fs).trash, k) implies concealed(
        final(fs).trash,
        k,
    ) by {
        if buried(&before.index, k) && !before.index.files().contains(k) {
            let e = choose|e: Seq<char>| #[trigger]
                before.index.dirs().contains(e) && (e == k + seq!['/'] || begins(k, e));
            assert(after.index.dirs().contains(e));
        }
    }
    if is_dir {
        assert forall|k: Seq<char>| k != key && !begins(k, d) && #[trigger] concealed(
            final(fs).trash,
            k,
        ) implies concealed(old(fs).trash, k) by {
            if buried(&after.index, k) && !after.index.files().contains(k) {
                let e = choose|e: Seq<char>| #[trigger]
                    after.index.dirs().contains(e) && (e == k + seq!['/'] || begins(k, e));
                if e == d && e == k + seq!['/'] {
                    assert(k =~= e.take(e.len() - 1));
                    assert(key =~= e.take(e.len() - 1));
                }
                assert(before.index.dirs().contains(e));
            }
        }
    }
}

/// A key is hidden by a mount where it is to be, and nowhere else.
pub proof fn mounts_hide_only_the_deleted(fs: &ObjectFs, key: &str, r: bool)
    requires
        fs.wf(),
        call_ensures(ObjectFs::hidden_key, (fs, key), r),
    ensures
        r <==> concealed(fs.trash, key@),
{
    hidden_is_concealed(fs.trash, key@);
}

/// With a trash nothing but what stands in the recycle bin or under its name
/// is ever deleted for good, and without one everything is; never on a
/// read-only mount, and never the root.
pub proof fn only_the_bin_is_emptied(
    read_only: bool,
    path: &str,
    trash: bool,
    in_bin: bool,
    under_bin_name: bool,
    r: Result<DeletePlan, FsError>,
)
    requires
        call_ensures(plan_delete, (read_only, path, trash, in_bin, under_bin_name), r),
    ensures
        r is Err <==> read_only || only(path@, '/'),
        r is Ok && trash && !in_bin && !under_bin_name ==> r->Ok_0 is Soft,
        r is Ok && trash && in_bin ==> r->Ok_0 is Purge,
        r is Ok && trash && !in_bin && under_bin_name ==> r->Ok_0 is Hard,
        r is Ok && !trash ==> r->Ok_0 is Hard,
{
    root_is_only_slashes(path@);
}

/// The same of directories: with a trash a directory outside the recycle bin
/// only gets a tombstone.
pub proof fn only_the_bins_directories_are_emptied(
    read_only: bool,
    trash: bool,
    bin: &Option<SystemTrashMatch>,
    no_tombstones: bool,
    r: Result<DeleteDirPlan, FsError>,
)
    requires
        call_ensures(plan_delete_dir, (read_only, trash, bin, no_tombstones), r),
    ensures
        r is Err <==> read_only,
        r is Ok && !trash ==> r->Ok_0 is Hard,
        r is Ok && trash && *bin is None ==> r->Ok_0 is Soft,
        r is Ok && trash && *bin is Some && bin->0 is Entry ==> r->Ok_0 is Purge,
        r is Ok && r->Ok_0 is PurgeAll ==> trash && *bin is Some && bin->0 is Dir && bin->0->level
            == 0,
        r is Ok && trash && *bin is Some && bin->0 is Dir ==> {
            &&& bin->0->level == 0 ==> r->Ok_0 is PurgeAll
            &&& bin->0->level == 1 && no_tombstones ==> r->Ok_0 is RemoveIfEmpty
            &&& bin->0->level == 1 && !no_tombstones ==> r->Ok_0 is NotEmpty
            &&& bin->0->level > 1 ==> r->Ok_0 is Soft
        },
{
}

/// A batch deletion carries no checksum but the digest: the headers that name
/// one are recognised by how they begin.
pub proof fn checksum_headers_are_recognised(name: &str, r: bool)
    requires
        call_ensures(is_checksum_header, (name,), r),
    ensures
        begins(name@, "x-amz-checksum-"@) ==> r,
        name@ == "x-amz-sdk-checksum-algorithm"@ ==> r,
        r ==> begins(name@, "x-amz-checksum-"@) || name@ == "x-amz-sdk-checksum-algorithm"@,
{
    let p = "x-amz-checksum-"@;
    if p.len() <= name@.len() {
        assert(name@.take(p.len() as int) =~= name@.subrange(0, p.len() as int));
    }
}

/// A file that was deleted and is written again is found by its tombstone: the
/// mount names its key where one hides it, and only there.
pub proof fn tombstones_of_a_path_are_found(
    fs: &ObjectFs,
    path: &str,
    r: Option<String>,
    name: Seq<char>,
)
    requires
        fs.wf(),
        call_ensures(ObjectFs::covered_key, (fs, path), r),
        stands_for_name(path@, name),
    ensures
        r is Some <==> fs.trash is Some && buried(&fs.trash->0.index, fs.prefix@ + name),
        r matches Some(key) ==> key@ == fs.prefix@ + name,
{
    key_of(fs.prefix@, path@, name);
    if fs.trash is Some {
        covered_is_buried(&fs.trash->0.index, fs.prefix@ + name);
    }
}

/// A stream that was started goes on under the id that the store gave, in
/// parts of the mount's size and checked as the mount checks, from nothing.
pub proof fn streams_start_from_nothing(
    fs: &mut ObjectFs,
    key: String,
    reply: CreateReply,
    r: Result<StreamingUpload, FsError>,
)
    requires
        old(fs).wf(),
        call_ensures(ObjectFs::streaming_upload_started, (fs, key, reply), r),
    ensures
        r is Ok <==> reply is Created && reply->upload_id is Some,
        r matches Ok(stream) ==> {
            &&& stream.key@ == key@
            &&& stream.upload_id@ == reply->upload_id->0@
            &&& stream.part_size == old(fs).multipart_part_size
            &&& stream.verify_crc64 == old(fs).verify_crc64
            &&& stream.content_md5 == old(fs).content_md5
            &&& stream.pending@.len() == 0
            &&& stream.total_bytes == 0
            &&& stream.next_part == 1
            &&& stream.parts@.len() == 0
            &&& stream.failure is None
            &&& !stream.aborted
            &&& stream.budget_units == 0
        },
{
}

/// A mount deletes as it is mounted: never where it is read-only, never the
/// root, for good where it has no trash, and with one only what stands in the
/// recycle bin or under its name.
pub proof fn mounts_delete_as_they_are_mounted(
    fs: &ObjectFs,
    path: &str,
    in_bin: bool,
    under_bin_name: bool,
    r: Result<DeletePlan, FsError>,
    bin: &Option<SystemTrashMatch>,
    d: Result<DeleteDirPlan, FsError>,
)
    requires
        fs.wf(),
        call_ensures(ObjectFs::delete, (fs, path, in_bin, under_bin_name), r),
        call_ensures(ObjectFs::delete_dir_recursive, (fs, bin), d),
    ensures
        fs.read_only ==> r == Err::<DeletePlan, FsError>(FsError::ReadOnly) && d == Err::<
            DeleteDirPlan,
            FsError,
        >(FsError::ReadOnly),
        !fs.read_only && only(path@, '/') ==> r == Err::<DeletePlan, FsError>(
            FsError::RootDeleted,
        ),
        !fs.read_only && !only(path@, '/') ==> r is Ok,
        !fs.read_only ==> d is Ok,
        r is Ok && fs.trash is None ==> r->Ok_0 is Hard,
        r is Ok && fs.trash is Some && !in_bin && !under_bin_name ==> r->Ok_0 is Soft,
        r is Ok && fs.trash is Some && in_bin ==> r->Ok_0 is Purge,
        d is Ok && fs.trash is None ==> d->Ok_0 is Hard,
        d is Ok && fs.trash is Some && *bin is None ==> d->Ok_0 is Soft,
        d is Ok && fs.trash is Some && *bin is Some && bin->0 is Dir && bin->0->level == 1 ==> (
        d->Ok_0 is RemoveIfEmpty <==> fs.trash->0.index.files().len() == 0
            && fs.trash->0.index.dirs().len() == 0),
{
    root_is_only_slashes(path@);
}

/// An index of the trash that was read anew counts only if nothing was cleaned
/// meanwhile; then it takes the place of the old one, and every lookup is made
/// again.
pub proof fn stale_indexes_are_thrown_away(
    fs: &mut ObjectFs,
    generation: u64,
    index: TombstoneIndex,
    last_key: Option<String>,
    n: usize,
    known: Option<u64>,
    key: Seq<char>,
)
    requires
        old(fs).wf(),
        index.wf(),
        call_ensures(ObjectFs::rebuild_trash_index, (fs, generation, index, last_key), n),
        call_ensures(ObjectFs::trash_generation, (old(fs),), known),
    ensures
        known is Some <==> old(fs).trash is Some,
        known != Some(generation) ==> *final(fs) == *old(fs) && n == 0,
        known == Some(generation) ==> {
            &&& final(fs).trash is Some
            &&& buried(&final(fs).trash->0.index, key) <==> buried(&index, key)
            &&& final(fs).trash->0.cursor == last_key
            &&& final(fs).trash->0.prefix == old(fs).trash->0.prefix
            &&& final(fs).trash->0.generation == generation
            &&& forall|p: Seq<char>| !#[trigger] final(fs).caches.stats@.contains_key(p)
            &&& forall|p: Seq<char>| !#[trigger] final(fs).caches.negative@.contains_key(p)
            &&& index.files().len() + index.dirs().len() <= usize::MAX ==> n
                == index.files().len() + index.dirs().len()
        },
{
}

/// What is forgotten of a path, and of all paths, is forgotten in memory and
/// on disk.
pub proof fn reads_are_forgotten(
    fs: &mut ObjectFs,
    path: &str,
    name: Seq<char>,
    again: &mut ObjectFs,
)
    requires
        old(fs).wf(),
        call_ensures(ObjectFs::invalidate_read_cache, (fs, path), ()),
        stands_for_name(path@, name),
        old(again).wf(),
        call_ensures(ObjectFs::clear_read_cache, (again,), ()),
    ensures
        forgets_reads(old(fs), final(fs), path@, old(fs).prefix@ + name),
        final(fs).caches == old(fs).caches,
        forall|p: Seq<char>| !#[trigger] final(again).reader.cache@.contains_key(p),
        forall|p: Seq<char>| !#[trigger] final(again).reader.hints@.contains_key(p),
        final(again).disk_cache is Some <==> old(again).disk_cache is Some,
        final(again).disk_cache is Some ==> final(again).disk_cache->0.listed().len() == 0
            && final(again).disk_cache->0.used == 0,
        final(again).caches == old(again).caches,
{
    key_of(old(fs).prefix@, path@, name);
    reads_forgotten(old(fs), final(fs), path@, old(fs).prefix@ + name);
}

} // verus!
