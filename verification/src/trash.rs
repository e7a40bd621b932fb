//! The trash: which keys are deleted without being gone. A deleted file, or a
//! deleted directory with all that is under it, is hidden as long as its
//! tombstone stands; the tombstones themselves are always hidden.

use crate::config::{
    OssConfig, TrashRefreshMode, TRASH_GC_INTERVAL_SECS, TRASH_REBUILD_INTERVAL_SECS,
    TRASH_REFRESH_INTERVAL_SECS, TRASH_RETENTION_DAYS,
};
use crate::error::FsError;
use crate::keymap::KeyMap;
use crate::paths::{dir_object_prefix, directory_prefix};
use crate::text::{
    contains, joined3, least, occurs_in, same, starts_with, trim_end, trim_end_char,
};
use vstd::prelude::*;

verus! {

/// The tombstones that are known: the keys of deleted files, and those of
/// deleted directories with a slash at the end.
pub struct TombstoneIndex {
    files: KeyMap<bool>,
    dirs: KeyMap<bool>,
}

impl TombstoneIndex {
    pub closed spec fn wf(&self) -> bool {
        self.files.wf() && self.dirs.wf()
    }

    /// The keys of deleted files.
    pub closed spec fn files(&self) -> Set<Seq<char>> {
        self.files@.dom()
    }

    /// The prefixes of deleted directories.
    pub closed spec fn dirs(&self) -> Set<Seq<char>> {
        self.dirs@.dom()
    }

    /// A deleted file of that key, or a deleted directory that is the key or
    /// has it under it.
    pub open spec fn covers(&self, key: Seq<char>) -> bool {
        ||| self.files().contains(key)
        ||| self.dirs().contains(key.push('/'))
        ||| exists|d: Seq<char>| #[trigger] self.dirs().contains(d) && d.is_prefix_of(key)
    }

    pub fn new() -> (r: Self)
        ensures
            r.wf(),
            r.files() == Set::<Seq<char>>::empty(),
            r.dirs() == Set::<Seq<char>>::empty(),
    {
        let r = TombstoneIndex { files: KeyMap::new(), dirs: KeyMap::new() };
        assert(r.files() =~= Set::<Seq<char>>::empty());
        assert(r.dirs() =~= Set::<Seq<char>>::empty());
        r
    }

    /// Adds the tombstone of a file, or of a directory.
    pub fn insert(&mut self, key: &str, is_dir: bool)
        requires
            old(self).wf(),
        ensures
            final(self).wf(),
            final(self).files() == (if is_dir {
                old(self).files()
            } else {
                old(self).files().insert(key@)
            }),
            final(self).dirs() == (if is_dir {
                old(self).dirs().insert(directory_prefix(key@))
            } else {
                old(self).dirs()
            }),
    {
        let ghost was = *self;
        if is_dir {
            let dir = dir_object_prefix(key);
            self.dirs.insert(dir.as_str(), true);
            assert(self.dirs() =~= was.dirs().insert(directory_prefix(key@)));
        } else {
            self.files.insert(key, true);
            assert(self.files() =~= was.files().insert(key@));
        }
    }

    /// Drops the tombstone of a file, or of a directory.
    pub fn remove(&mut self, key: &str, is_dir: bool)
        requires
            old(self).wf(),
        ensures
            final(self).wf(),
            final(self).files() == (if is_dir {
                old(self).files()
            } else {
                old(self).files().remove(key@)
            }),
            final(self).dirs() == (if is_dir {
                old(self).dirs().remove(directory_prefix(key@))
            } else {
                old(self).dirs()
            }),
    {
        let ghost was = *self;
        if is_dir {
            let dir = dir_object_prefix(key);
            let _ = self.dirs.remove(dir.as_str());
            assert(self.dirs() =~= was.dirs().remove(directory_prefix(key@)));
        } else {
            let _ = self.files.remove(key);
            assert(self.files() =~= was.files().remove(key@));
        }
    }

    /// How many tombstones there are, as far as that can be counted.
    pub fn len(&self) -> (r: usize)
        requires
            self.wf(),
        ensures
            r == least((self.files().len() + self.dirs().len()) as int, usize::MAX as int),
    {
        self.files.len().saturating_add(self.dirs.len())
    }

    /// Whether there is no tombstone at all.
    pub fn is_empty(&self) -> (r: bool)
        requires
            self.wf(),
        ensures
            r == (self.files().len() == 0 && self.dirs().len() == 0),
            r ==> forall|key: Seq<char>| !#[trigger] self.covers(key),
    {
        let r = self.files.len() == 0 && self.dirs.len() == 0;
        proof {
            self.files.keys_are_the_domain();
            self.dirs.keys_are_the_domain();
            if r {
                assert(self.files() =~= Set::<Seq<char>>::empty());
                assert(self.dirs() =~= Set::<Seq<char>>::empty());
            }
        }
        r
    }

    /// Whether a tombstone hides `key`.
    pub fn is_covered(&self, key: &str) -> (r: bool)
        requires
            self.wf(),
        ensures
            r == self.covers(key@),
    {
        if self.files.get(key).is_some() {
            return true;
        }
        let mut dir = key.to_owned();
        dir.push('/');
        if self.dirs.get(dir.as_str()).is_some() {
            return true;
        }
        let mut i: usize = 0;
        while i < self.dirs.len()
            invariant
                self.wf(),
                i <= self.dirs.keys().len(),
                forall|j: int|
                    0 <= j < i ==> !(#[trigger] self.dirs.keys()[j]).is_prefix_of(key@),
            decreases self.dirs.keys().len() - i,
        {
            let d = self.dirs.key_at(i);
            if starts_with(key, d) {
                assert(self.dirs().contains(d@));
                return true;
            }
            i += 1;
        }
        proof {
            self.dirs.keys_are_the_domain();
            assert forall|d: Seq<char>| #[trigger] self.dirs().contains(d) implies !d.is_prefix_of(
                key@,
            ) by {
                assert(self.dirs@.contains_key(d));
                let j = self.dirs.keys().index_of(d);
                assert(self.dirs.keys()[j] == d);
            }
        }
        false
    }
}

/// Whose recycle bin is shown.
#[derive(Clone, Copy, Debug, PartialEq, Eq, Structural)]
pub enum SystemTrashPlatform {
    WindowsRecycleBin,
    MacOsTrashes,
}

/// The system recycle bin as it is shown.
#[derive(Debug)]
pub struct SystemTrash {
    pub platform: SystemTrashPlatform,
    pub dir_name: String,
    pub macos_uid_dirs: Vec<u32>,
}

/// Where in the system recycle bin a path stands.
#[derive(Debug, PartialEq, Eq)]
pub enum SystemTrashMatch {
    /// A directory of the bin itself: the bin, or one user's part of it.
    Dir { level: u32 },
    /// Something that was deleted.
    Entry { entry_name: String },
}

/// The trash of one mount.
pub struct TrashState {
    /// The prefix of the tombstones' own keys, ending in a slash.
    pub prefix: String,
    pub mode: TrashRefreshMode,
    pub refresh_interval_secs: u64,
    pub rebuild_interval_secs: u64,
    pub gc_interval_secs: u64,
    pub retention_days: u32,
    pub system: Option<SystemTrash>,
    pub index: TombstoneIndex,
    /// Grows with every cleaning, so that what was read before one is not
    /// taken for what holds after it.
    pub generation: u64,
    /// The last tombstone key that has been read.
    pub cursor: Option<String>,
}

impl TrashState {
    pub open spec fn wf(&self) -> bool {
        self.index.wf()
    }

    /// An empty trash under the namespace prefix, as configured.
    pub open spec fn fresh(&self, prefix: Seq<char>, config: &OssConfig, macos: bool) -> bool {
        &&& self.wf()
        &&& self.prefix@ == prefix + config.trash_dir->0@ + "/"@
        &&& self.mode == value_or(config.trash_refresh_mode, TrashRefreshMode::Lazy)
        &&& self.refresh_interval_secs == value_or(
            config.trash_refresh_interval_secs,
            TRASH_REFRESH_INTERVAL_SECS,
        )
        &&& self.rebuild_interval_secs == TRASH_REBUILD_INTERVAL_SECS
        &&& self.gc_interval_secs == value_or(
            config.trash_gc_interval_secs,
            TRASH_GC_INTERVAL_SECS,
        )
        &&& self.retention_days == value_or(
            config.trash_retention_days,
            TRASH_RETENTION_DAYS,
        )
        &&& self.index.files() == Set::<Seq<char>>::empty()
        &&& self.index.dirs() == Set::<Seq<char>>::empty()
        &&& self.generation == 0
        &&& self.cursor is None
        &&& self.system is Some <==> config.system_trash is Some
        &&& self.system is Some ==> {
            let sys = config.system_trash->0;
            let shown = self.system->0;
            &&& shown.platform == (if macos {
                SystemTrashPlatform::MacOsTrashes
            } else {
                SystemTrashPlatform::WindowsRecycleBin
            })
            &&& shown.dir_name@ == (match sys.dir_name {
                Some(name) => name@,
                None => default_bin_name(macos),
            })
            &&& shown.macos_uid_dirs@ == sys.macos_uid_dirs@
        }
    }

    /// The key is one of the trash itself, or a tombstone covers it.
    pub open spec fn hides(&self, key: Seq<char>) -> bool {
        ||| self.prefix@.is_prefix_of(key)
        ||| key == trim_end(self.prefix@, '/')
        ||| self.index.covers(key)
    }

    /// Whether `key` is hidden.
    pub fn is_hidden(&self, key: &str) -> (r: bool)
        requires
            self.wf(),
        ensures
            r == self.hides(key@),
    {
        if starts_with(key, self.prefix.as_str()) {
            return true;
        }
        let bare = trim_end_char(self.prefix.as_str(), '/');
        if same(key, bare.as_str()) {
            return true;
        }
        self.index.is_covered(key)
    }
}

/// `key` is hidden: never where there is no trash.
pub open spec fn hidden(trash: Option<TrashState>, key: Seq<char>) -> bool {
    trash is Some && trash->0.hides(key)
}

/// Whether `key` is hidden.
pub fn hidden_key(trash: &Option<TrashState>, key: &str) -> (r: bool)
    requires
        trash is Some ==> trash->0.wf(),
    ensures
        r == hidden(*trash, key@),
{
    match trash {
        None => false,
        Some(t) => t.is_hidden(key),
    }
}

/// A directory name that is one segment of a path.
pub open spec fn is_segment(dir: Seq<char>) -> bool {
    &&& dir.len() > 0
    &&& !dir.contains('/')
    &&& dir != "."@
    &&& dir != ".."@
}

/// The name of the recycle bin where none is configured.
pub open spec fn default_bin_name(macos: bool) -> Seq<char> {
    if macos {
        ".Trashes"@
    } else {
        "$Recycle.Bin"@
    }
}

fn default_bin(macos: bool) -> (r: String)
    ensures
        r@ == default_bin_name(macos),
{
    if macos {
        ".Trashes".to_owned()
    } else {
        "$Recycle.Bin".to_owned()
    }
}

fn copied(v: &Vec<u32>) -> (r: Vec<u32>)
    ensures
        r@ == v@,
{
    let mut out: Vec<u32> = Vec::new();
    let mut i: usize = 0;
    while i < v.len()
        invariant
            i <= v@.len(),
            out@ == v@.take(i as int),
        decreases v@.len() - i,
    {
        out.push(v[i]);
        i += 1;
        assert(v@.take(i as int) =~= v@.take(i - 1).push(v@[i - 1]));
    }
    assert(v@.take(v@.len() as int) =~= v@);
    out
}

/// `value`, or `default` where there is none.
pub open spec fn value_or<T>(value: Option<T>, default: T) -> T {
    match value {
        Some(v) => v,
        None => default,
    }
}

fn system_view(config: &OssConfig, macos: bool) -> (r: Option<SystemTrash>)
    ensures
        r is Some <==> config.system_trash is Some,
        r is Some ==> {
            let sys = config.system_trash->0;
            &&& r->0.platform == (if macos {
                SystemTrashPlatform::MacOsTrashes
            } else {
                SystemTrashPlatform::WindowsRecycleBin
            })
            &&& r->0.dir_name@ == (match sys.dir_name {
                Some(name) => name@,
                None => default_bin_name(macos),
            })
            &&& r->0.macos_uid_dirs@ == sys.macos_uid_dirs@
        },
{
    match &config.system_trash {
        None => None,
        Some(sys) => {
            let dir_name = match &sys.dir_name {
                Some(name) => name.clone(),
                None => default_bin(macos),
            };
            let platform = if macos {
                SystemTrashPlatform::MacOsTrashes
            } else {
                SystemTrashPlatform::WindowsRecycleBin
            };
            Some(SystemTrash { platform, dir_name, macos_uid_dirs: copied(&sys.macos_uid_dirs) })
        },
    }
}

/// The trash that a configuration asks for: none without a directory name, an
/// error for a name that is not one path segment, and otherwise an empty one
/// under the namespace prefix.
pub fn build_trash_state(config: &OssConfig, macos: bool) -> (r: Result<
    Option<TrashState>,
    FsError,
>)
    ensures
        config.trash_dir is None ==> r == Ok::<Option<TrashState>, FsError>(None),
        config.trash_dir matches Some(dir) ==> {
            &&& r is Err <==> !is_segment(dir@)
            &&& r matches Err(e) ==> e == (FsError::TrashDirInvalid { dir })
            &&& r matches Ok(state) ==> {
                &&& state is Some
                &&& state->0.fresh(config.prefix@, config, macos)
            }
        },
{
    let dir = match &config.trash_dir {
        None => {
            return Ok(None);
        },
        Some(dir) => dir,
    };
    let slash = contains(dir.as_str(), "/");
    proof {
        reveal_strlit("/");
        assert("/"@ =~= seq!['/']);
        slash_occurs(dir@);
    }
    if dir.as_str().is_empty() || slash || same(dir.as_str(), ".") || same(dir.as_str(), "..") {
        return Err(FsError::TrashDirInvalid { dir: dir.clone() });
    }
    let mode = match config.trash_refresh_mode {
        Some(mode) => mode,
        None => TrashRefreshMode::Lazy,
    };
    let refresh_interval_secs: u64 = match config.trash_refresh_interval_secs {
        Some(secs) => secs,
        None => TRASH_REFRESH_INTERVAL_SECS,
    };
    let gc_interval_secs: u64 = match config.trash_gc_interval_secs {
        Some(secs) => secs,
        None => TRASH_GC_INTERVAL_SECS,
    };
    let retention_days: u32 = match config.trash_retention_days {
        Some(days) => days,
        None => TRASH_RETENTION_DAYS,
    };
    Ok(
        Some(
            TrashState {
                prefix: joined3(config.prefix.as_str(), dir.as_str(), "/"),
                mode,
                refresh_interval_secs,
                rebuild_interval_secs: TRASH_REBUILD_INTERVAL_SECS,
                gc_interval_secs,
                retention_days,
                system: system_view(config, macos),
                index: TombstoneIndex::new(),
                generation: 0,
                cursor: None,
            },
        ),
    )
}

proof fn slash_occurs(s: Seq<char>)
    ensures
        occurs_in(seq!['/'], s) <==> s.contains('/'),
{
    if s.contains('/') {
        let i = s.index_of('/');
        assert(s.subrange(i, i + 1) =~= seq!['/']);
    }
    if occurs_in(seq!['/'], s) {
        let i = choose|i: int|
            0 <= i && i + 1 <= s.len() && #[trigger] s.subrange(i, i + seq!['/'].len()) == seq!['/'];
        assert(s.subrange(i, i + 1)[0] == s[i]);
        assert(s[i] == '/');
    }
}

/// Without a trash nothing is ever hidden.
pub proof fn nothing_is_hidden_without_trash(key: Seq<char>)
    ensures
        !hidden(None, key),
{
}

/// A deleted directory hides itself, with and without its slash, and
/// everything under it.
pub proof fn deleted_directories_hide_their_tree(index: &TombstoneIndex, key: Seq<char>, rest: Seq<char>)
    requires
        index.dirs().contains(directory_prefix(key)),
        key.len() == 0 || key.last() != '/',
    ensures
        index.covers(key),
        index.covers(key.push('/')),
        index.covers(key.push('/') + rest),
{
    assert(trim_end(key, '/') == key);
    let d = key.push('/');
    assert(d.is_prefix_of(d));
    assert(d.is_prefix_of(d + rest)) by {
        assert(d =~= (d + rest).subrange(0, d.len() as int));
    }
}

/// A tombstone of another name hides nothing: the slash at the end of a
/// directory's tombstone keeps `docsx` apart from `docs`.
pub proof fn neighbours_stay_visible(index: &TombstoneIndex, dir: Seq<char>, key: Seq<char>)
    requires
        index.files() == Set::<Seq<char>>::empty(),
        index.dirs() == Set::<Seq<char>>::empty().insert(dir.push('/')),
        index.covers(key),
    ensures
        key == dir || dir.push('/').is_prefix_of(key),
{
    if index.dirs().contains(key.push('/')) {
        assert(key.push('/') == dir.push('/'));
        assert(key =~= key.push('/').drop_last());
        assert(dir =~= dir.push('/').drop_last());
    }
}

} // verus!
