//! A rename moves what was asked for to where it was asked for: nothing goes
//! before it is copied, and nothing is moved into itself.

use crate::error::FsError;
use crate::laws::listings::{begins, buried, covered_is_buried};
use crate::laws::lookups::names;
use crate::laws::paths::{only, root_is_only_slashes, source_of, sources, start_trim_is};
use crate::laws::trees::{is_directory_key, prefix_is};
use crate::paths::relative;
use crate::rename::{in_tree, Rename, RenameEvent, RenameNext, RenamePhase};
use crate::trash::{SystemTrashMatch, TrashState};
use vstd::prelude::*;

verus! {

/// `path` is slashes and then `name`, which neither begins nor ends with one.
pub open spec fn stands_at(path: Seq<char>, name: Seq<char>) -> bool {
    &&& path.len() >= name.len() > 0
    &&& path.skip(path.len() - name.len()) == name
    &&& only(path.take(path.len() - name.len()), '/')
    &&& name[0] != '/'
    &&& name.last() != '/'
}

proof fn standing(path: Seq<char>, name: Seq<char>, prefix: Seq<char>)
    requires
        stands_at(path, name),
    ensures
        relative(path) == name,
        crate::paths::object_key(prefix, path) == prefix + name,
        crate::paths::children_prefix(Seq::empty(), path) == name + seq!['/'],
{
    let front = path.take(path.len() - name.len());
    assert(path =~= front + name);
    start_trim_is(path, '/', front, name);
    assert(Seq::<char>::empty() + name =~= name);
    assert(name + Seq::<char>::empty() =~= name);
    assert(crate::paths::object_key(Seq::empty(), path) =~= name);
    assert(is_directory_key(name, name)) by {
        assert(name.take(name.len() as int) =~= name);
    }
    prefix_is(name, name);
}

/// A rename that may go on looks for the target, unless that may be replaced,
/// and then for the source. It does not go on where the mount is read-only,
/// where one path lies in the other, or where the source is deleted; onto
/// itself there is nothing to do. The keys are those of the two paths. This is
/// so outside the recycle bin, and everywhere where none is shown.
pub proof fn renames_begin_with_looking(
    bucket: &str,
    prefix: &str,
    old_path: &str,
    new_path: &str,
    replace: bool,
    read_only: bool,
    allow_dir: bool,
    dir_limit: Option<u64>,
    trash: &Option<TrashState>,
    from_bin: Option<SystemTrashMatch>,
    to_bin: Option<SystemTrashMatch>,
    r: (Rename, RenameNext),
    a: Seq<char>,
    b: Seq<char>,
)
    requires
        call_ensures(
            Rename::start,
            (
                bucket,
                prefix,
                old_path,
                new_path,
                replace,
                read_only,
                allow_dir,
                dir_limit,
                trash,
                from_bin,
                to_bin,
            ),
            r,
        ),
        (from_bin is None && to_bin is None) || trash is None || trash->0.system is None,
        stands_at(old_path@, a),
        stands_at(new_path@, b),
    ensures
        r.0.bucket@ == bucket@,
        r.0.old_key@ == prefix@ + a,
        r.0.new_key@ == prefix@ + b,
        ({
            let deleted = trash is Some && buried(&trash->0.index, prefix@ + a);
            let apart = a != b && !begins(b, a + seq!['/']) && !begins(a, b + seq!['/']);
            &&& read_only ==> r.1 is Done && r.1->result == Err::<(), FsError>(FsError::ReadOnly)
            &&& !read_only && a == b ==> r.1 is Done && r.1->result is Ok
            &&& !read_only && a != b && !apart ==> r.1 is Done && r.1->result == Err::<
                (),
                FsError,
            >(FsError::IntoOwnSubtree)
            &&& !read_only && apart && deleted ==> r.1 is Done && r.1->result == Err::<
                (),
                FsError,
            >(FsError::RenameSourceInTrash)
            &&& !read_only && apart && !deleted ==> if replace {
                r.1 is StatSource
            } else {
                r.1 is StatTarget
            }
        }),
{
    standing(old_path@, a, prefix@);
    standing(new_path@, b, prefix@);
    if trash is Some {
        covered_is_buried(&trash->0.index, prefix@ + a);
    }
    let (p, q) = (a + seq!['/'], b + seq!['/']);
    if p.len() <= b.len() {
        assert(b.take(p.len() as int) =~= b.subrange(0, p.len() as int));
    }
    if q.len() <= a.len() {
        assert(a.take(q.len() as int) =~= a.subrange(0, q.len() as int));
    }
    assert(in_tree(old_path@, new_path@) == p.is_prefix_of(b));
    assert(in_tree(new_path@, old_path@) == q.is_prefix_of(a));
}

/// Nothing is moved into its own tree, nor onto what it stands in, however the
/// paths are written; and the root is not moved at all.
pub proof fn nothing_is_moved_into_itself(
    bucket: &str,
    prefix: &str,
    old_path: &str,
    new_path: &str,
    replace: bool,
    allow_dir: bool,
    dir_limit: Option<u64>,
    trash: &Option<TrashState>,
    from_bin: Option<SystemTrashMatch>,
    to_bin: Option<SystemTrashMatch>,
    r: (Rename, RenameNext),
    a: Seq<char>,
    b: Seq<char>,
)
    requires
        call_ensures(
            Rename::start,
            (
                bucket,
                prefix,
                old_path,
                new_path,
                replace,
                false,
                allow_dir,
                dir_limit,
                trash,
                from_bin,
                to_bin,
            ),
            r,
        ),
        names(new_path@, b),
        only(old_path@, '/') || (names(old_path@, a) && (begins(b, a + seq!['/']) || begins(
            a,
            b + seq!['/'],
        ))),
    ensures
        r.1 is Done && r.1->result == Err::<(), FsError>(FsError::IntoOwnSubtree),
{
    let none = Seq::<char>::empty();
    named_tree(new_path@, b);
    if only(old_path@, '/') {
        root_is_only_slashes(old_path@);
        let to = relative(new_path@);
        assert(none =~= to.subrange(0, 0));
        assert(in_tree(old_path@, new_path@));
    } else {
        named_tree(old_path@, a);
        let (p, q) = (a + seq!['/'], b + seq!['/']);
        let (from, to) = (relative(old_path@), relative(new_path@));
        if begins(b, p) {
            assert(p =~= to.subrange(0, p.len() as int)) by {
                assert(b.take(p.len() as int) =~= to.subrange(0, p.len() as int));
            }
            assert(in_tree(old_path@, new_path@));
            under_is_longer(old_path@, new_path@, a, b);
        } else {
            assert(q =~= from.subrange(0, q.len() as int)) by {
                assert(a.take(q.len() as int) =~= from.subrange(0, q.len() as int));
            }
            assert(in_tree(new_path@, old_path@));
            under_is_longer(new_path@, old_path@, b, a);
        }
    }
}

proof fn named_tree(path: Seq<char>, name: Seq<char>)
    requires
        names(path, name),
    ensures
        crate::paths::children_prefix(Seq::empty(), path) == name + seq!['/'],
        relative(path).len() >= name.len(),
        relative(path).take(name.len() as int) == name,
        only(relative(path).skip(name.len() as int), '/'),
{
    let none = Seq::<char>::empty();
    let (front, back) = choose|front: Seq<char>, back: Seq<char>|
        #![trigger only(front, '/'), only(back, '/')]
        path == front + name + back && only(front, '/') && only(back, '/') && name.len() > 0
            && name[0] != '/' && name.last() != '/';
    assert(path =~= front + (name + back));
    assert((name + back)[0] == name[0]);
    start_trim_is(path, '/', front, name + back);
    let rel = relative(path);
    assert(rel.take(name.len() as int) =~= name);
    assert(rel.skip(name.len() as int) =~= back);
    assert(none + rel =~= rel);
    assert(is_directory_key(rel, name));
    prefix_is(rel, name);
}

proof fn under_is_longer(outer: Seq<char>, inner: Seq<char>, a: Seq<char>, b: Seq<char>)
    requires
        names(outer, a),
        names(inner, b),
        begins(b, a + seq!['/']),
    ensures
        relative(outer) != relative(inner),
{
    named_tree(outer, a);
    named_tree(inner, b);
    let x = relative(outer);
    assert(b.last() != '/' && b.len() > 0) by {
        let (front, back) = choose|front: Seq<char>, back: Seq<char>|
            #![trigger only(front, '/'), only(back, '/')]
            inner == front + b + back && only(front, '/') && only(back, '/') && b.len() > 0 && b[0]
                != '/' && b.last() != '/';
    }
    let k = b.len() - 1;
    if relative(outer) == relative(inner) {
        assert(x.take(b.len() as int)[k] == x[k]);
        assert(x[k] == b.last());
        assert(k >= a.len());
        assert(x.skip(a.len() as int)[k - a.len()] == '/');
    }
}

/// With the recycle bin shown, a rename into it is a deletion under that name,
/// one out of it a restoration, and its own directories stay.
pub proof fn renames_through_the_bin(
    bucket: &str,
    prefix: &str,
    old_path: &str,
    new_path: &str,
    replace: bool,
    allow_dir: bool,
    dir_limit: Option<u64>,
    trash: &Option<TrashState>,
    from_bin: Option<SystemTrashMatch>,
    to_bin: Option<SystemTrashMatch>,
    r: (Rename, RenameNext),
    a: Seq<char>,
    b: Seq<char>,
)
    requires
        call_ensures(
            Rename::start,
            (
                bucket,
                prefix,
                old_path,
                new_path,
                replace,
                false,
                allow_dir,
                dir_limit,
                trash,
                from_bin,
                to_bin,
            ),
            r,
        ),
        stands_at(old_path@, a),
        stands_at(new_path@, b),
        a != b,
        !begins(b, a + seq!['/']),
        !begins(a, b + seq!['/']),
        trash is Some,
        trash->0.system is Some,
    ensures
        r.0.phase is Over || (from_bin is None && to_bin is None),
        from_bin is None && to_bin is Some && to_bin->0 is Entry ==> r.1
            == (RenameNext::IntoBin { entry_name: to_bin->0->entry_name }),
        from_bin is Some && from_bin->0 is Entry && to_bin is None ==> r.1 is OutOfBin,
        from_bin is Some && from_bin->0 is Entry && to_bin is Some && to_bin->0 is Entry ==> r.1
            == (RenameNext::WithinBin { entry_name: from_bin->0->entry_name }),
        (from_bin is Some && from_bin->0 is Dir) || (to_bin is Some && to_bin->0 is Dir) ==> r.1 is Done
            && r.1->result is Err,
{
    standing(old_path@, a, prefix@);
    standing(new_path@, b, prefix@);
    let (p, q) = (a + seq!['/'], b + seq!['/']);
    if p.len() <= b.len() {
        assert(b.take(p.len() as int) =~= b.subrange(0, p.len() as int));
    }
    if q.len() <= a.len() {
        assert(a.take(q.len() as int) =~= a.subrange(0, q.len() as int));
    }
    assert(in_tree(old_path@, new_path@) == p.is_prefix_of(b));
    assert(in_tree(new_path@, old_path@) == q.is_prefix_of(a));
}

/// A file is copied from the old key to the new one, in parts from five
/// gibibytes on. A directory is copied whole, where that is allowed; one that
/// has to be counted first is counted behind the slash of its old key.
pub proof fn sources_are_copied_to_the_new_key(
    rename: &mut Rename,
    is_dir: bool,
    size: u64,
    r: RenameNext,
    dir: Seq<char>,
)
    requires
        old(rename).phase == RenamePhase::Source,
        call_ensures(Rename::step, (rename, RenameEvent::Source { is_dir, size }), r),
        is_directory_key(old(rename).old_key@, dir),
    ensures
        !is_dir && size < 5 * 1024 * 1024 * 1024 ==> (r matches RenameNext::CopyObject {
            source,
            key,
        } && sources(source@, old(rename).bucket@, old(rename).old_key@) && key@ == old(
            rename,
        ).new_key@),
        !is_dir && size >= 5 * 1024 * 1024 * 1024 ==> r == (RenameNext::CopyInParts { size }),
        is_dir && !old(rename).allow_dir ==> r == (RenameNext::Done {
            result: Err::<(), FsError>(FsError::DirRenameDisabled),
        }),
        is_dir && old(rename).allow_dir && old(rename).dir_limit is None ==> r is CopyTree,
        is_dir && old(rename).allow_dir && old(rename).dir_limit is Some ==> (r
            matches RenameNext::CountTree { prefix, limit } && prefix@ == dir + seq!['/'] && Some(
            limit,
        ) == old(rename).dir_limit),
        final(rename).is_dir == is_dir,
        final(rename).old_key@ == old(rename).old_key@,
        final(rename).new_key@ == old(rename).new_key@,
{
    source_of(old(rename).bucket@, old(rename).old_key@);
    prefix_is(old(rename).old_key@, dir);
}

/// A target that exists stops a rename, and one that does not lets it go on to
/// the source.
pub proof fn existing_targets_stop_a_rename(
    rename: &mut Rename,
    exists_already: bool,
    r: RenameNext,
)
    requires
        old(rename).phase == RenamePhase::Target,
        call_ensures(
            Rename::step,
            (rename, RenameEvent::Target { exists: exists_already }),
            r,
        ),
    ensures
        exists_already ==> r == (RenameNext::Done {
            result: Err::<(), FsError>(FsError::RenameTargetExists),
        }),
        !exists_already ==> r is StatSource && final(rename).phase == RenamePhase::Source,
{
}

/// A tree of no more objects than the limit is copied, and a larger one is
/// not.
pub proof fn counted_trees_are_copied(rename: &mut Rename, count: u64, limit: u64, r: RenameNext)
    requires
        old(rename).phase == RenamePhase::Counting,
        old(rename).dir_limit == Some(limit),
        old(rename).is_dir,
        call_ensures(Rename::step, (rename, RenameEvent::Counted { count }), r),
    ensures
        count <= limit ==> r is CopyTree && final(rename).phase == RenamePhase::Copying,
        count > limit ==> r == (RenameNext::Done {
            result: Err::<(), FsError>(FsError::DirRenameLimit { limit, count }),
        }),
{
}

/// The source goes only when all of it is copied and, with a trash, nothing
/// hides the target any more; a file goes as a file and a directory as a tree.
/// Then the rename is over, and whatever fails ends it with that error.
pub proof fn sources_go_after_the_copy(rename: &mut Rename, event: RenameEvent, r: RenameNext)
    requires
        crate::rename::answers(old(rename).state(), event),
        call_ensures(Rename::step, (rename, event), r),
    ensures
        r is DeleteTree || r is DeleteObject ==> {
            ||| event is Copied && !old(rename).trash
            ||| event is Cleared
        },
        event is Copied && old(rename).trash ==> (r matches RenameNext::ClearTombstones { key }
            && key@ == old(rename).new_key@),
        event is Cleared || (event is Copied && !old(rename).trash) ==> if old(rename).is_dir {
            r is DeleteTree
        } else {
            r is DeleteObject
        },
        event is Deleted ==> r == (RenameNext::Done { result: Ok::<(), FsError>(()) }),
        event matches RenameEvent::Failed { error } ==> r == (RenameNext::Done {
            result: Err::<(), FsError>(error),
        }),
        r is Done ==> final(rename).phase == RenamePhase::Over,
        event is Copied ==> final(rename).phase == (if old(rename).trash {
            RenamePhase::Clearing
        } else {
            RenamePhase::Deleting
        }),
        event is Cleared ==> final(rename).phase == RenamePhase::Deleting,
        final(rename).trash == old(rename).trash,
{
}

} // verus!
