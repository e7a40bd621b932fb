//! Looking a path up: the object itself, then its directory marker, then
//! whether anything stands under it.

use crate::error::{FsError, Step};
use crate::listing::{
    directory_entry, length_of, object_length, object_time, time_of, DirEntry, Entry,
};
use crate::metrics::Metrics;
use crate::paths::{
    basename, children_prefix, key_under, last_component, list_prefix_under, object_key,
};
use crate::text::{ends_with_char, same, trim_end, trim_end_char};
use crate::trash::{hidden, hidden_key, TrashState};
use vstd::prelude::*;

verus! {

/// What the store said of one object.
#[derive(Debug, PartialEq, Eq)]
pub enum HeadReply {
    /// It is there.
    Found { length: Option<i64>, mtime_secs: Option<i64> },
    /// There is no such object.
    Missing,
    /// The request failed.
    Failed { cause: Vec<String> },
}

/// What the store said when asked whether anything stands under a prefix. It
/// is asked for no more than the first object.
#[derive(Debug, PartialEq, Eq)]
pub enum ProbeReply {
    /// The keys of the objects that it named, and whether there are more.
    Answer { keys: Vec<Option<String>>, truncated: Option<bool> },
    /// The request failed.
    Failed { cause: Vec<String> },
}

/// What a lookup does next.
#[derive(Debug, PartialEq, Eq)]
pub enum LookupNext {
    /// Ask for the object of this key.
    Head { key: String },
    /// Ask for the directory marker of this key.
    HeadMarker { key: String },
    /// Ask whether anything stands under this prefix.
    Probe { prefix: String },
    /// The answer.
    Done { result: Result<Option<DirEntry>, FsError> },
}

impl LookupNext {
    /// The lookup ended with this entry.
    pub open spec fn found(self, e: Entry) -> bool {
        &&& self is Done
        &&& self->result is Ok
        &&& self->result->Ok_0 is Some
        &&& self->result->Ok_0->0@ == e
    }

    /// The lookup ended: there is nothing at that path.
    pub open spec fn absent(self) -> bool {
        self == (LookupNext::Done { result: Ok::<Option<DirEntry>, FsError>(None) })
    }

    /// The lookup ended with this error.
    pub open spec fn failed(self, e: FsError) -> bool {
        self == (LookupNext::Done { result: Err::<Option<DirEntry>, FsError>(e) })
    }
}

/// The counters after one more request for an object's attributes.
pub open spec fn head_counted(m: Metrics) -> Metrics {
    Metrics {
        s3_heads: m.s3_heads.wrapping_add(1),
        s3_stat_heads: m.s3_stat_heads.wrapping_add(1),
        ..m
    }
}

/// The counters after one more listing request.
pub open spec fn list_counted(m: Metrics) -> Metrics {
    Metrics { s3_lists: m.s3_lists.wrapping_add(1), ..m }
}

/// The path whose children make `path` a directory: without slashes at the
/// end.
pub open spec fn probe_dir(path: Seq<char>) -> Seq<char> {
    trim_end(path, '/')
}

/// A lookup of one path under a namespace prefix.
pub struct Lookup {
    pub prefix: String,
    pub path: String,
}

impl Lookup {
    /// The key of the path.
    pub open spec fn key(&self) -> Seq<char> {
        object_key(self.prefix@, self.path@)
    }

    /// What asking for children leads to: nothing is asked at the root.
    pub open spec fn probes(&self, m: Metrics, r: LookupNext, after: Metrics) -> bool {
        if probe_dir(self.path@).len() == 0 {
            r.absent() && after == m
        } else {
            &&& r is Probe
            &&& r->prefix@ == children_prefix(self.prefix@, probe_dir(self.path@))
            &&& after == list_counted(m)
        }
    }

    /// Begins the lookup. The root is always there; an entry of the recycle
    /// bin is taken as it was made up; what is hidden is not there, and no
    /// request is sent to find that out.
    pub fn start(
        &self,
        trash: &Option<TrashState>,
        made_up: Option<DirEntry>,
        m: &mut Metrics,
    ) -> (r: LookupNext)
        requires
            trash is Some ==> trash->0.wf(),
        ensures
            self.path@ == seq!['/'] ==> r.found(directory_entry(Seq::empty())) && *final(m)
                == *old(m),
            self.path@ != seq!['/'] && made_up is Some ==> r.found(made_up->0@) && *final(m)
                == *old(m),
            self.path@ != seq!['/'] && made_up is None && hidden(*trash, self.key()) ==> r.absent()
                && *final(m) == *old(m),
            self.path@ != seq!['/'] && made_up is None && !hidden(*trash, self.key()) ==> {
                &&& r is Head
                &&& r->Head_key@ == self.key()
                &&& *final(m) == head_counted(*old(m))
            },
    {
        proof {
            reveal_strlit("/");
            assert("/"@ =~= seq!['/']);
        }
        if same(self.path.as_str(), "/") {
            return LookupNext::Done { result: Ok(Some(DirEntry::directory(String::new()))) };
        }
        match made_up {
            Some(e) => {
                return LookupNext::Done { result: Ok(Some(e)) };
            },
            None => {},
        }
        let key = key_under(self.prefix.as_str(), self.path.as_str());
        if hidden_key(trash, key.as_str()) {
            return LookupNext::Done { result: Ok(None) };
        }
        m.s3_heads = m.s3_heads.wrapping_add(1);
        m.s3_stat_heads = m.s3_stat_heads.wrapping_add(1);
        LookupNext::Head { key }
    }

    fn probe(&self, m: &mut Metrics) -> (r: LookupNext)
        ensures
            self.probes(*old(m), r, *final(m)),
    {
        let dir = trim_end_char(self.path.as_str(), '/');
        if dir.as_str().is_empty() {
            return LookupNext::Done { result: Ok(None) };
        }
        m.s3_lists = m.s3_lists.wrapping_add(1);
        LookupNext::Probe { prefix: list_prefix_under(self.prefix.as_str(), dir.as_str()) }
    }

    /// What the answer for the object leads to. A key that ends in a slash is
    /// a directory marker's own.
    pub fn head(&self, reply: HeadReply, m: &mut Metrics) -> (r: LookupNext)
        ensures
            reply matches HeadReply::Found { length, mtime_secs } ==> r.found(
                Entry {
                    name: last_component(self.path@),
                    is_dir: (self.path@.len() > 0 && self.path@.last() == '/') || (
                    self.key().len() > 0 && self.key().last() == '/'),
                    size: length_of(length),
                    mtime_secs: time_of(mtime_secs),
                },
            ) && *final(m) == *old(m),
            reply is Missing && !(self.key().len() > 0 && self.key().last() == '/') ==> {
                &&& r is HeadMarker
                &&& r->HeadMarker_key@ == self.key().push('/')
                &&& *final(m) == head_counted(*old(m))
            },
            reply is Missing && self.key().len() > 0 && self.key().last() == '/' ==> self.probes(
                *old(m),
                r,
                *final(m),
            ),
            reply matches HeadReply::Failed { cause } ==> r.failed(
                FsError::Failed { step: Step::Head, cause },
            ) && *final(m) == *old(m),
    {
        let key = key_under(self.prefix.as_str(), self.path.as_str());
        match reply {
            HeadReply::Found { length, mtime_secs } => LookupNext::Done {
                result: Ok(
                    Some(
                        DirEntry {
                            name: basename(self.path.as_str()),
                            is_dir: ends_with_char(self.path.as_str(), '/') || ends_with_char(
                                key.as_str(),
                                '/',
                            ),
                            size: object_length(length),
                            mtime_secs: object_time(mtime_secs),
                        },
                    ),
                ),
            },
            HeadReply::Missing => {
                if ends_with_char(key.as_str(), '/') {
                    self.probe(m)
                } else {
                    m.s3_heads = m.s3_heads.wrapping_add(1);
                    m.s3_stat_heads = m.s3_stat_heads.wrapping_add(1);
                    let mut marker = key;
                    marker.push('/');
                    LookupNext::HeadMarker { key: marker }
                }
            },
            HeadReply::Failed { cause } => LookupNext::Done {
                result: Err(FsError::Failed { step: Step::Head, cause }),
            },
        }
    }

    /// What the answer for the directory marker leads to.
    pub fn marker(&self, reply: HeadReply, m: &mut Metrics) -> (r: LookupNext)
        ensures
            reply matches HeadReply::Found { length, mtime_secs } ==> r.found(
                Entry {
                    name: last_component(self.path@),
                    is_dir: true,
                    size: length_of(length),
                    mtime_secs: time_of(mtime_secs),
                },
            ) && *final(m) == *old(m),
            reply is Missing ==> self.probes(*old(m), r, *final(m)),
            reply matches HeadReply::Failed { cause } ==> r.failed(
                FsError::Failed { step: Step::HeadMarker, cause },
            ) && *final(m) == *old(m),
    {
        match reply {
            HeadReply::Found { length, mtime_secs } => LookupNext::Done {
                result: Ok(
                    Some(
                        DirEntry {
                            name: basename(self.path.as_str()),
                            is_dir: true,
                            size: object_length(length),
                            mtime_secs: object_time(mtime_secs),
                        },
                    ),
                ),
            },
            HeadReply::Missing => self.probe(m),
            HeadReply::Failed { cause } => LookupNext::Done {
                result: Err(FsError::Failed { step: Step::HeadMarker, cause }),
            },
        }
    }

    /// What the answer about children leads to: a directory that exists
    /// because something stands under it, or nothing.
    pub fn probed(&self, reply: ProbeReply) -> (r: LookupNext)
        ensures
            reply matches ProbeReply::Answer { keys, .. } ==> if keys@.len() > 0 {
                r.found(directory_entry(last_component(self.path@)))
            } else {
                r.absent()
            },
            reply matches ProbeReply::Failed { cause } ==> r.failed(
                FsError::Failed { step: Step::Probe, cause },
            ),
    {
        match reply {
            ProbeReply::Answer { keys, .. } => {
                if keys.len() > 0 {
                    LookupNext::Done {
                        result: Ok(Some(DirEntry::directory(basename(self.path.as_str())))),
                    }
                } else {
                    LookupNext::Done { result: Ok(None) }
                }
            },
            ProbeReply::Failed { cause } => LookupNext::Done {
                result: Err(FsError::Failed { step: Step::Probe, cause }),
            },
        }
    }
}

/// The prefix to ask for children under, where it has to be asked: the root is
/// taken to have children.
pub fn children_probe(prefix: &str, dir: &str, m: &mut Metrics) -> (r: Option<String>)
    ensures
        r is Some <==> probe_dir(dir@).len() > 0,
        r is Some ==> r->0@ == children_prefix(prefix@, probe_dir(dir@)),
        *final(m) == (if r is Some {
            list_counted(*old(m))
        } else {
            *old(m)
        }),
{
    let probe = trim_end_char(dir, '/');
    if probe.as_str().is_empty() {
        return None;
    }
    m.s3_lists = m.s3_lists.wrapping_add(1);
    Some(list_prefix_under(prefix, probe.as_str()))
}

/// Every key that was named is the one given.
pub open spec fn all_named(keys: Seq<Option<String>>, key: Seq<char>) -> bool {
    forall|i: int| 0 <= i < keys.len() ==> (#[trigger] keys[i]) is Some && keys[i]->0@ == key
}

fn all_are(keys: &Vec<Option<String>>, key: &str) -> (r: bool)
    ensures
        r == all_named(keys@, key@),
{
    let mut i: usize = 0;
    while i < keys.len()
        invariant
            i <= keys@.len(),
            all_named(keys@.take(i as int), key@),
        decreases keys@.len() - i,
    {
        let named = match &keys[i] {
            Some(k) => same(k.as_str(), key),
            None => false,
        };
        if !named {
            assert(!(keys@[i as int] is Some && keys@[i as int]->0@ == key@));
            return false;
        }
        assert(keys@.take(i + 1) =~= keys@.take(i as int).push(keys@[i as int]));
        i += 1;
    }
    assert(keys@.take(i as int) =~= keys@);
    true
}

/// Nothing stands under a prefix but the directory's own marker, whose key is
/// the prefix itself: no object was named, or only the marker and there are no
/// more.
pub open spec fn only_marker(
    prefix: Seq<char>,
    keys: Seq<Option<String>>,
    truncated: Option<bool>,
) -> bool {
    keys.len() == 0 || (truncated != Some(true) && all_named(keys, prefix))
}

/// Whether a directory has children, from the prefix that was asked for and
/// what was answered, where it was: unless the store says that it has none, it
/// has. Its own marker is the directory itself and no child.
pub fn has_children(probe: Option<(String, ProbeReply)>) -> (r: bool)
    ensures
        r == !(probe matches Some((prefix, ProbeReply::Answer { keys, truncated }))
            && only_marker(prefix@, keys@, truncated)),
{
    match probe {
        Some((prefix, ProbeReply::Answer { keys, truncated })) => {
            if keys.len() == 0 {
                return false;
            }
            match truncated {
                Some(true) => true,
                _ => !all_are(&keys, prefix.as_str()),
            }
        },
        _ => true,
    }
}

/// Whether anything real is left where a directory is to be removed, its own
/// marker too: with it the directory would be shown again.
pub fn anything_left(reply: ProbeReply) -> (r: Result<bool, FsError>)
    ensures
        r == (match reply {
            ProbeReply::Answer { keys, .. } => Ok::<bool, FsError>(keys@.len() > 0),
            ProbeReply::Failed { cause } => Err(FsError::Failed { step: Step::Probe, cause }),
        }),
{
    match reply {
        ProbeReply::Answer { keys, .. } => Ok(keys.len() > 0),
        ProbeReply::Failed { cause } => Err(FsError::Failed { step: Step::Probe, cause }),
    }
}

/// With and without a slash at the end, a path is looked up as the same
/// directory.
pub proof fn trailing_slashes_do_not_matter(path: Seq<char>)
    ensures
        probe_dir(path.push('/')) == probe_dir(path),
        last_component(path.push('/')) == last_component(path),
{
    assert(path.push('/').drop_last() =~= path);
}

} // verus!
