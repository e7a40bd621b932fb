//! Renaming: object stores have no such thing, so it is a copy followed by a
//! deletion. Everything that can be refused is refused before anything is
//! copied, and nothing is deleted before everything is copied.

use crate::copying::MULTIPART_COPY_THRESHOLD;
use crate::error::FsError;
use crate::listing::after_prefix;
use crate::paths::{
    children_prefix, copy_source, dir_object_prefix, directory_prefix, is_root, key_under,
    list_prefix_under, object_key, rel_key, relative, relative_only_drops_slashes, s3_copy_source,
};
use crate::text::{same, starts_with, trim_end};
use crate::trash::{SystemTrashMatch, TrashState};
use crate::tree_copy::destination;
use vstd::prelude::*;

verus! {

/// Where a rename stands: what it is waiting for.
#[derive(Clone, Copy, Debug, PartialEq, Eq, Structural)]
pub enum RenamePhase {
    /// Whether the target exists.
    Target,
    /// What the source is.
    Source,
    /// How many objects the source tree has.
    Counting,
    /// The copy.
    Copying,
    /// The tombstones of the target.
    Clearing,
    /// The deletion of the source.
    Deleting,
    /// Nothing: it is over.
    Over,
}

/// What a rename is told.
#[derive(Debug, PartialEq, Eq)]
pub enum RenameEvent {
    /// Whether the target exists.
    Target { exists: bool },
    /// What the source is. A missing source counts as an empty file, and its
    /// copy will fail.
    Source { is_dir: bool, size: u64 },
    /// How many objects the source tree has.
    Counted { count: u64 },
    /// Everything is copied.
    Copied,
    /// The tombstones of the target are gone.
    Cleared,
    /// The source is deleted.
    Deleted,
    /// What was asked for failed.
    Failed { error: FsError },
}

/// What a rename asks for.
#[derive(Debug, PartialEq, Eq)]
pub enum RenameNext {
    /// Look the target up.
    StatTarget,
    /// Look the source up.
    StatSource,
    /// Count the objects under this prefix, up to the limit.
    CountTree { prefix: String, limit: u64 },
    /// Copy the tree.
    CopyTree,
    /// Copy the object at once.
    CopyObject { source: String, key: String },
    /// Copy the object in parts.
    CopyInParts { size: u64 },
    /// Clear the tombstones of this key.
    ClearTombstones { key: String },
    /// Delete the source tree.
    DeleteTree,
    /// Delete the source object.
    DeleteObject,
    /// Put the source into the recycle bin under this name.
    IntoBin { entry_name: String },
    /// Make sure that the recycle bin has this entry; there is nothing else to
    /// do.
    WithinBin { entry_name: String },
    /// Take the source out of the recycle bin.
    OutOfBin,
    /// It is over.
    Done { result: Result<(), FsError> },
}

/// Two ways to write one path.
pub open spec fn same_path(a: Seq<char>, b: Seq<char>) -> bool {
    relative(a) == relative(b)
}

/// `b` lies in the tree of `a`. Everything lies in that of the root.
pub open spec fn in_tree(a: Seq<char>, b: Seq<char>) -> bool {
    children_prefix(Seq::empty(), a).is_prefix_of(relative(b))
}

/// One path lies in the other's tree, either way.
pub open spec fn nested(a: Seq<char>, b: Seq<char>) -> bool {
    in_tree(a, b) || in_tree(b, a)
}

/// The recycle bin is shown.
pub open spec fn bin_shown(trash: Option<TrashState>) -> bool {
    trash is Some && trash->0.system is Some
}

/// A rename under way.
pub struct Rename {
    pub bucket: String,
    pub old_key: String,
    pub new_key: String,
    pub allow_dir: bool,
    pub dir_limit: Option<u64>,
    /// There is a trash, so the target may have tombstones.
    pub trash: bool,
    pub is_dir: bool,
    pub phase: RenamePhase,
}

/// What is known of a rename, without its keys.
pub struct RenameState {
    pub allow_dir: bool,
    pub dir_limit: Option<u64>,
    pub trash: bool,
    pub is_dir: bool,
    pub phase: RenamePhase,
}

impl Rename {
    /// What is known of it, without its keys.
    pub open spec fn state(&self) -> RenameState {
        RenameState {
            allow_dir: self.allow_dir,
            dir_limit: self.dir_limit,
            trash: self.trash,
            is_dir: self.is_dir,
            phase: self.phase,
        }
    }
}

/// The event answers what the rename is waiting for.
pub open spec fn answers(s: RenameState, e: RenameEvent) -> bool {
    match e {
        RenameEvent::Target { .. } => s.phase == RenamePhase::Target,
        RenameEvent::Source { .. } => s.phase == RenamePhase::Source,
        RenameEvent::Counted { .. } => s.phase == RenamePhase::Counting && s.dir_limit is Some,
        RenameEvent::Copied => s.phase == RenamePhase::Copying,
        RenameEvent::Cleared => s.phase == RenamePhase::Clearing,
        RenameEvent::Deleted => s.phase == RenamePhase::Deleting,
        RenameEvent::Failed { .. } => s.phase != RenamePhase::Over,
    }
}

/// Where a rename stands after an event.
pub open spec fn after(s: RenameState, e: RenameEvent) -> RenameState {
    match e {
        RenameEvent::Target { exists } => RenameState {
            phase: if exists {
                RenamePhase::Over
            } else {
                RenamePhase::Source
            },
            ..s
        },
        RenameEvent::Source { is_dir, .. } => RenameState {
            is_dir,
            phase: if !is_dir {
                RenamePhase::Copying
            } else if !s.allow_dir {
                RenamePhase::Over
            } else if s.dir_limit is Some {
                RenamePhase::Counting
            } else {
                RenamePhase::Copying
            },
            ..s
        },
        RenameEvent::Counted { count } => RenameState {
            phase: if count > s.dir_limit->0 {
                RenamePhase::Over
            } else {
                RenamePhase::Copying
            },
            ..s
        },
        RenameEvent::Copied => RenameState {
            phase: if s.trash {
                RenamePhase::Clearing
            } else {
                RenamePhase::Deleting
            },
            ..s
        },
        RenameEvent::Cleared => RenameState { phase: RenamePhase::Deleting, ..s },
        RenameEvent::Deleted => RenameState { phase: RenamePhase::Over, ..s },
        RenameEvent::Failed { .. } => RenameState { phase: RenamePhase::Over, ..s },
    }
}

impl Rename {
    /// Begins a rename. Onto itself it is nothing, into its own tree it is
    /// refused. Into the recycle bin it is a deletion, out of it a
    /// restoration, within it nothing; the bin's own directories stay where
    /// they are. What is deleted cannot be renamed.
    pub fn start(
        bucket: &str,
        prefix: &str,
        old: &str,
        new: &str,
        replace_if_exists: bool,
        read_only: bool,
        allow_dir: bool,
        dir_limit: Option<u64>,
        trash: &Option<TrashState>,
        from_bin: Option<SystemTrashMatch>,
        to_bin: Option<SystemTrashMatch>,
    ) -> (r: (Rename, RenameNext))
        requires
            trash is Some ==> trash->0.wf(),
        ensures
            r.0.bucket@ == bucket@,
            r.0.old_key@ == object_key(prefix@, old@),
            r.0.new_key@ == object_key(prefix@, new@),
            r.0.allow_dir == allow_dir,
            r.0.dir_limit == dir_limit,
            r.0.trash == trash is Some,
            r.1 == started(
                read_only,
                old@,
                new@,
                replace_if_exists,
                bin_shown(*trash),
                from_bin,
                to_bin,
                trash is Some && trash->0.index.covers(object_key(prefix@, old@)),
            ),
            r.0.phase == (match r.1 {
                RenameNext::StatTarget => RenamePhase::Target,
                RenameNext::StatSource => RenamePhase::Source,
                _ => RenamePhase::Over,
            }),
    {
        let old_key = key_under(prefix, old);
        let new_key = key_under(prefix, new);
        let covered = match trash {
            Some(t) => t.index.is_covered(old_key.as_str()),
            None => false,
        };
        let shown = match trash {
            Some(t) => t.system.is_some(),
            None => false,
        };
        let next = Rename::first(
            read_only,
            old,
            new,
            replace_if_exists,
            shown,
            from_bin,
            to_bin,
            covered,
        );
        let phase = match &next {
            RenameNext::StatTarget => RenamePhase::Target,
            RenameNext::StatSource => RenamePhase::Source,
            _ => RenamePhase::Over,
        };
        (
            Rename {
                bucket: bucket.to_owned(),
                old_key,
                new_key,
                allow_dir,
                dir_limit,
                trash: trash.is_some(),
                is_dir: false,
                phase,
            },
            next,
        )
    }

    fn first(
        read_only: bool,
        old: &str,
        new: &str,
        replace_if_exists: bool,
        bin_shown: bool,
        from_bin: Option<SystemTrashMatch>,
        to_bin: Option<SystemTrashMatch>,
        covered: bool,
    ) -> (r: RenameNext)
        ensures
            r == started(
                read_only,
                old@,
                new@,
                replace_if_exists,
                bin_shown,
                from_bin,
                to_bin,
                covered,
            ),
    {
        if read_only {
            return RenameNext::Done { result: Err(FsError::ReadOnly) };
        }
        let (from, to) = (rel_key(old), rel_key(new));
        if same(from.as_str(), to.as_str()) {
            return RenameNext::Done { result: Ok(()) };
        }
        let under_old = list_prefix_under("", old);
        let under_new = list_prefix_under("", new);
        proof {
            reveal_strlit("");
            assert(""@ =~= Seq::<char>::empty());
        }
        if starts_with(to.as_str(), under_old.as_str()) || starts_with(
            from.as_str(),
            under_new.as_str(),
        ) {
            return RenameNext::Done { result: Err(FsError::IntoOwnSubtree) };
        }
        if bin_shown {
            match (from_bin, to_bin) {
                (None, None) => {},
                (None, Some(SystemTrashMatch::Entry { entry_name })) => {
                    return RenameNext::IntoBin { entry_name };
                },
                (Some(SystemTrashMatch::Entry { entry_name }), Some(SystemTrashMatch::Entry { .. })) => {
                    return RenameNext::WithinBin { entry_name };
                },
                (Some(SystemTrashMatch::Entry { .. }), None) => {
                    return RenameNext::OutOfBin;
                },
                _ => {
                    return RenameNext::Done { result: Err(FsError::RecycleDirRename) };
                },
            }
        }
        if covered {
            return RenameNext::Done { result: Err(FsError::RenameSourceInTrash) };
        }
        if replace_if_exists {
            RenameNext::StatSource
        } else {
            RenameNext::StatTarget
        }
    }

    /// What a rename asks for once it is told what it was waiting for.
    pub fn step(&mut self, event: RenameEvent) -> (r: RenameNext)
        requires
            answers(old(self).state(), event),
        ensures
            final(self).state() == after(old(self).state(), event),
            final(self).bucket == old(self).bucket,
            final(self).old_key == old(self).old_key,
            final(self).new_key == old(self).new_key,
            final(self).asks(old(self), event, r),
    {
        match event {
            RenameEvent::Failed { error } => {
                self.phase = RenamePhase::Over;
                RenameNext::Done { result: Err(error) }
            },
            RenameEvent::Target { exists } => {
                if exists {
                    self.phase = RenamePhase::Over;
                    RenameNext::Done { result: Err(FsError::RenameTargetExists) }
                } else {
                    self.phase = RenamePhase::Source;
                    RenameNext::StatSource
                }
            },
            RenameEvent::Source { is_dir, size } => {
                self.is_dir = is_dir;
                if !is_dir {
                    self.phase = RenamePhase::Copying;
                    if size >= MULTIPART_COPY_THRESHOLD {
                        return RenameNext::CopyInParts { size };
                    }
                    return RenameNext::CopyObject {
                        source: s3_copy_source(self.bucket.as_str(), self.old_key.as_str()),
                        key: self.new_key.clone(),
                    };
                }
                if !self.allow_dir {
                    self.phase = RenamePhase::Over;
                    return RenameNext::Done { result: Err(FsError::DirRenameDisabled) };
                }
                match self.dir_limit {
                    Some(limit) => {
                        self.phase = RenamePhase::Counting;
                        RenameNext::CountTree {
                            prefix: dir_object_prefix(self.old_key.as_str()),
                            limit,
                        }
                    },
                    None => {
                        self.phase = RenamePhase::Copying;
                        RenameNext::CopyTree
                    },
                }
            },
            RenameEvent::Counted { count } => {
                let limit: u64 = self.dir_limit.unwrap();
                if count > limit {
                    self.phase = RenamePhase::Over;
                    RenameNext::Done { result: Err(FsError::DirRenameLimit { limit, count }) }
                } else {
                    self.phase = RenamePhase::Copying;
                    RenameNext::CopyTree
                }
            },
            RenameEvent::Copied => {
                if self.trash {
                    self.phase = RenamePhase::Clearing;
                    RenameNext::ClearTombstones { key: self.new_key.clone() }
                } else {
                    self.phase = RenamePhase::Deleting;
                    self.deletion()
                }
            },
            RenameEvent::Cleared => {
                self.phase = RenamePhase::Deleting;
                self.deletion()
            },
            RenameEvent::Deleted => {
                self.phase = RenamePhase::Over;
                RenameNext::Done { result: Ok(()) }
            },
        }
    }

    fn deletion(&self) -> (r: RenameNext)
        ensures
            r == (if self.is_dir {
                RenameNext::DeleteTree
            } else {
                RenameNext::DeleteObject
            }),
    {
        if self.is_dir {
            RenameNext::DeleteTree
        } else {
            RenameNext::DeleteObject
        }
    }

    /// What is asked for after an event, by where the rename then stands.
    pub open spec fn asks(&self, before: &Self, event: RenameEvent, r: RenameNext) -> bool {
        match self.phase {
            RenamePhase::Target => r is StatTarget,
            RenamePhase::Source => r is StatSource,
            RenamePhase::Counting => {
                &&& r is CountTree
                &&& r->prefix@ == directory_prefix(self.old_key@)
                &&& r->limit == self.dir_limit->0
            },
            RenamePhase::Copying => if self.is_dir {
                r is CopyTree
            } else {
                match event {
                    RenameEvent::Source { size, .. } => if size >= MULTIPART_COPY_THRESHOLD {
                        r == (RenameNext::CopyInParts { size })
                    } else {
                        &&& r is CopyObject
                        &&& r->source@ == copy_source(self.bucket@, self.old_key@)
                        &&& r->CopyObject_key@ == self.new_key@
                    },
                    _ => r is CopyTree,
                }
            },
            RenamePhase::Clearing => {
                &&& r is ClearTombstones
                &&& r->ClearTombstones_key@ == self.new_key@
            },
            RenamePhase::Deleting => r == (if self.is_dir {
                RenameNext::DeleteTree
            } else {
                RenameNext::DeleteObject
            }),
            RenamePhase::Over => r == (RenameNext::Done {
                result: match event {
                    RenameEvent::Failed { error } => Err::<(), FsError>(error),
                    RenameEvent::Target { .. } => Err(FsError::RenameTargetExists),
                    RenameEvent::Source { .. } => Err(FsError::DirRenameDisabled),
                    RenameEvent::Counted { count } => Err(
                        FsError::DirRenameLimit { limit: before.dir_limit->0, count },
                    ),
                    _ => Ok(()),
                },
            }),
        }
    }
}

/// What a rename begins with.
pub open spec fn started(
    read_only: bool,
    old: Seq<char>,
    new: Seq<char>,
    replace_if_exists: bool,
    bin_shown: bool,
    from_bin: Option<SystemTrashMatch>,
    to_bin: Option<SystemTrashMatch>,
    covered: bool,
) -> RenameNext {
    let refused = |e: FsError| RenameNext::Done { result: Err::<(), FsError>(e) };
    let ordinary = if covered {
        refused(FsError::RenameSourceInTrash)
    } else if replace_if_exists {
        RenameNext::StatSource
    } else {
        RenameNext::StatTarget
    };
    if read_only {
        refused(FsError::ReadOnly)
    } else if same_path(old, new) {
        RenameNext::Done { result: Ok::<(), FsError>(()) }
    } else if nested(old, new) {
        refused(FsError::IntoOwnSubtree)
    } else if !bin_shown {
        ordinary
    } else {
        match (from_bin, to_bin) {
            (None, None) => ordinary,
            (None, Some(SystemTrashMatch::Entry { entry_name })) => RenameNext::IntoBin {
                entry_name,
            },
            (
                Some(SystemTrashMatch::Entry { entry_name }),
                Some(SystemTrashMatch::Entry { .. }),
            ) => RenameNext::WithinBin { entry_name },
            (Some(SystemTrashMatch::Entry { .. }), None) => RenameNext::OutOfBin,
            _ => refused(FsError::RecycleDirRename),
        }
    }
}

/// How a rename within the recycle bin ends: nothing changes, but the entry
/// has to be there.
pub fn within_bin(entry_found: bool, old: &str) -> (r: Result<(), FsError>)
    ensures
        entry_found ==> r == Ok::<(), FsError>(()),
        !entry_found ==> r is Err && r->Err_0 is RenameSourceMissing && r->Err_0->path@ == old@,
{
    if entry_found {
        Ok(())
    } else {
        Err(FsError::RenameSourceMissing { path: old.to_owned() })
    }
}

/// Where a rename stands after some events.
pub open spec fn after_all(s: RenameState, events: Seq<RenameEvent>) -> RenameState
    decreases events.len(),
{
    if events.len() == 0 {
        s
    } else {
        after(after_all(s, events.drop_last()), events.last())
    }
}

/// Every event answers what the rename was waiting for.
pub open spec fn orderly(s: RenameState, events: Seq<RenameEvent>) -> bool
    decreases events.len(),
{
    events.len() == 0 || (orderly(s, events.drop_last()) && answers(
        after_all(s, events.drop_last()),
        events.last(),
    ))
}

/// The source is deleted only after everything was copied, and, where there is
/// a trash, after the target's tombstones were cleared, in this order. A copy
/// that failed, and tombstones that could not be cleared, leave the source.
pub proof fn source_goes_last(s: RenameState, events: Seq<RenameEvent>)
    requires
        s.phase == RenamePhase::Target || s.phase == RenamePhase::Source,
        orderly(s, events),
    ensures
        after_all(s, events).trash == s.trash,
        after_all(s, events).phase == RenamePhase::Clearing ==> s.trash && exists|i: int|
            0 <= i < events.len() && #[trigger] events[i] is Copied,
        after_all(s, events).phase == RenamePhase::Deleting ==> {
            &&& !s.trash ==> exists|i: int|
                0 <= i < events.len() && #[trigger] events[i] is Copied
            &&& s.trash ==> exists|i: int, j: int|
                0 <= i < j < events.len() && #[trigger] events[i] is Copied
                    && #[trigger] events[j] is Cleared
        },
    decreases events.len(),
{
    if events.len() > 0 {
        let before = events.drop_last();
        source_goes_last(s, before);
        let mid = after_all(s, before);
        let n = events.len() - 1;
        if after_all(s, events).phase == RenamePhase::Clearing {
            assert(events[n] is Copied);
        }
        if after_all(s, events).phase == RenamePhase::Deleting {
            if events[n] is Cleared {
                let i = choose|i: int| 0 <= i < before.len() && #[trigger] before[i] is Copied;
                assert(events[i] is Copied);
                assert(events[n] is Cleared);
            } else {
                assert(events[n] is Copied);
            }
        }
    }
}

/// Tombstones are cleared only after the copy, so a rename that is refused, or
/// whose copy fails, does not bring deleted things back.
pub proof fn refusals_change_nothing(s: RenameState, e: RenameEvent)
    requires
        answers(s, e),
        s.phase == RenamePhase::Target || s.phase == RenamePhase::Source || s.phase
            == RenamePhase::Counting,
    ensures
        after(s, e).phase != RenamePhase::Clearing,
        after(s, e).phase != RenamePhase::Deleting,
{
}

/// A rename onto itself succeeds and does nothing, however the path is written,
/// and no path is moved into its own tree or its own ancestor.
pub proof fn no_rename_into_itself(
    old: Seq<char>,
    new: Seq<char>,
    replace: bool,
    shown: bool,
    from_bin: Option<SystemTrashMatch>,
    to_bin: Option<SystemTrashMatch>,
    covered: bool,
)
    ensures
        same_path(old, new) ==> started(
            false,
            old,
            new,
            replace,
            shown,
            from_bin,
            to_bin,
            covered,
        ) == (RenameNext::Done { result: Ok::<(), FsError>(()) }),
        !same_path(old, new) && nested(old, new) ==> started(
            false,
            old,
            new,
            replace,
            shown,
            from_bin,
            to_bin,
            covered,
        ) == (RenameNext::Done { result: Err::<(), FsError>(FsError::IntoOwnSubtree) }),
{
}

proof fn prefixes_nest(a: Seq<char>, b: Seq<char>, c: Seq<char>)
    requires
        a.is_prefix_of(c),
        b.is_prefix_of(c),
        a.len() <= b.len(),
    ensures
        a.is_prefix_of(b),
{
    assert(a =~= c.subrange(0, a.len() as int));
    assert(b =~= c.subrange(0, b.len() as int));
    assert(a =~= b.subrange(0, a.len() as int));
}

proof fn prefixes_chain(a: Seq<char>, b: Seq<char>, c: Seq<char>)
    requires
        a.is_prefix_of(b),
        b.is_prefix_of(c),
    ensures
        a.is_prefix_of(c),
{
    assert(a =~= b.subrange(0, a.len() as int));
    assert(b =~= c.subrange(0, b.len() as int));
    assert(a =~= c.subrange(0, a.len() as int));
}

/// A path without the slashes at its end, and what those leave.
proof fn trimmed(x: Seq<char>)
    ensures
        trim_end(x, '/').is_prefix_of(x),
        trim_end(x, '/').len() == x.len() ==> trim_end(x, '/') == x,
        trim_end(x, '/').len() < x.len() ==> trim_end(x, '/').push('/').is_prefix_of(x),
    decreases x.len(),
{
    let t = trim_end(x, '/');
    if x.len() > 0 && x.last() == '/' {
        let rest = x.drop_last();
        trimmed(rest);
        assert(rest.is_prefix_of(x)) by {
            assert(rest =~= x.subrange(0, rest.len() as int));
        }
        prefixes_chain(t, rest, x);
        if t.len() < rest.len() {
            prefixes_chain(t.push('/'), rest, x);
        } else {
            assert(t.push('/') =~= x);
            assert(x =~= x.subrange(0, x.len() as int));
        }
    } else {
        assert(x =~= x.subrange(0, x.len() as int));
    }
}

proof fn trimmed_behind(prefix: Seq<char>, x: Seq<char>)
    requires
        x.len() > 0,
        x[0] != '/',
    ensures
        trim_end(prefix + x, '/') == prefix + trim_end(x, '/'),
    decreases x.len(),
{
    if x.last() == '/' {
        assert((prefix + x).drop_last() =~= prefix + x.drop_last());
        trimmed_behind(prefix, x.drop_last());
    }
}

proof fn tree_under(prefix: Seq<char>, path: Seq<char>)
    requires
        !is_root(path),
    ensures
        directory_prefix(object_key(prefix, path)) == prefix + children_prefix(
            Seq::empty(),
            path,
        ),
        children_prefix(Seq::empty(), path) == trim_end(relative(path), '/').push('/'),
{
    let r = relative(path);
    relative_only_drops_slashes(path);
    trimmed_behind(prefix, r);
    assert(Seq::<char>::empty() + r =~= r);
    assert((prefix + trim_end(r, '/')).push('/') =~= prefix + trim_end(r, '/').push('/'));
}

/// Where a rename is not refused and not nothing, the copy of an object is
/// another object, and the copies of a tree end up outside of it: deleting the
/// source afterwards does not take them along.
pub proof fn copies_are_not_deleted(
    prefix: Seq<char>,
    old: Seq<char>,
    new: Seq<char>,
    key: Seq<char>,
)
    requires
        !same_path(old, new),
        !nested(old, new),
    ensures
        object_key(prefix, old) != object_key(prefix, new),
        !children_prefix(prefix, old).is_prefix_of(
            destination(object_key(prefix, old), object_key(prefix, new), key),
        ),
{
    let (from, to) = (relative(old), relative(new));
    assert(!is_root(old) && !is_root(new)) by {
        assert(Seq::<char>::empty() =~= to.subrange(0, 0));
        assert(Seq::<char>::empty() =~= from.subrange(0, 0));
    }
    assert(from =~= (prefix + from).skip(prefix.len() as int));
    assert(to =~= (prefix + to).skip(prefix.len() as int));
    let o = children_prefix(Seq::empty(), old);
    let n = children_prefix(Seq::empty(), new);
    tree_under(prefix, old);
    tree_under(prefix, new);
    trimmed(from);
    trimmed(to);
    let rest = after_prefix(key, directory_prefix(object_key(prefix, old)));
    let copy = destination(object_key(prefix, old), object_key(prefix, new), key);
    assert(copy =~= prefix + (n + rest));
    if children_prefix(prefix, old).is_prefix_of(copy) {
        let end = (prefix.len() + o.len()) as int;
        assert(prefix + o =~= copy.subrange(0, end));
        assert(o =~= (n + rest).subrange(0, o.len() as int)) by {
            assert forall|i: int| 0 <= i < o.len() implies o[i] == (n + rest)[i] by {
                assert((prefix + o)[prefix.len() + i] == copy[prefix.len() + i]);
            }
        }
        assert(n =~= (n + rest).subrange(0, n.len() as int));
        let (a, b) = (trim_end(from, '/'), trim_end(to, '/'));
        if o.len() < n.len() {
            prefixes_nest(o, n, n + rest);
            assert(b =~= n.subrange(0, b.len() as int));
            prefixes_nest(o, b, n);
            prefixes_chain(o, b, to);
        } else if n.len() < o.len() {
            prefixes_nest(n, o, n + rest);
            assert(a =~= o.subrange(0, a.len() as int));
            prefixes_nest(n, a, o);
            prefixes_chain(n, a, from);
        } else {
            assert(o =~= n);
            assert(a =~= o.drop_last() && b =~= n.drop_last());
        }
    }
}

} // verus!
