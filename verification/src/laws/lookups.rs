//! A path is looked up under its own key, and what is found is what the store
//! said of it.

use crate::error::FsError;
use crate::laws::listings::{concealed, hidden_is_concealed, shown_length, shown_time};
use crate::laws::paths::{end_trim_is, last_index_is, only, start_trim_is};
use crate::listing::DirEntry;
use crate::metrics::Metrics;
use crate::paths::{children_prefix, directory_prefix, last_component, last_index, object_key};
use crate::stat::{
    all_named, anything_left, children_probe, has_children, probe_dir, HeadReply, Lookup,
    LookupNext, ProbeReply,
};
use crate::trash::TrashState;
use vstd::prelude::*;

verus! {

/// `path` is slashes, `name` and slashes; the name begins and ends with
/// something else.
pub open spec fn names(path: Seq<char>, name: Seq<char>) -> bool {
    exists|front: Seq<char>, back: Seq<char>|
        #![trigger only(front, '/'), only(back, '/')]
        path == front + name + back && only(front, '/') && only(back, '/') && name.len() > 0
            && name[0] != '/' && name.last() != '/'
}

/// The last component of `name`: what follows its last slash.
pub open spec fn component(name: Seq<char>, last: Seq<char>) -> bool {
    &&& last.len() <= name.len()
    &&& name.skip(name.len() - last.len()) == last
    &&& forall|i: int| 0 <= i < last.len() ==> #[trigger] last[i] != '/'
    &&& last.len() < name.len() ==> name[name.len() - last.len() - 1] == '/'
}

proof fn keyed(path: Seq<char>, prefix: Seq<char>, name: Seq<char>)
    requires
        names(path, name),
    ensures
        path.len() > 0,
        path != seq!['/'],
        path.last() != '/' ==> object_key(prefix, path) == prefix + name,
        object_key(prefix, path).len() > 0,
        path.last() == '/' ==> object_key(prefix, path).last() == '/',
        probe_dir(path).len() > 0,
        children_prefix(prefix, probe_dir(path)) == prefix + name
            + seq!['/'],
{
    let (front, back) = choose|front: Seq<char>, back: Seq<char>|
        #![trigger only(front, '/'), only(back, '/')]
        path == front + name + back && only(front, '/') && only(back, '/') && name.len() > 0
            && name[0] != '/' && name.last() != '/';
    let key = object_key(prefix, path);
    assert(path =~= front + (name + back));
    assert((name + back)[0] == name[0]);
    start_trim_is(path, '/', front, name + back);
    assert(key == prefix + (name + back));
    assert(path[front.len() as int] == name[0]);
    let t = front + name;
    assert(t.last() == name.last());
    assert(path =~= t + back);
    end_trim_is(path, '/', t, back);
    assert(path.skip(path.len() - back.len()) =~= back);
    if back.len() > 0 {
        assert(path.last() == back[back.len() - 1]);
    } else {
        assert(path.last() == name.last());
    }
    assert(key =~= prefix + name + back);
    assert(t =~= front + name);
    start_trim_is(t, '/', front, name);
    assert((prefix + name) + Seq::<char>::empty() =~= prefix + name);
    assert((prefix + name).last() == name.last());
    end_trim_is(prefix + name, '/', prefix + name, Seq::empty());
    assert(directory_prefix(prefix + name) =~= prefix + name + seq!['/']);
}

proof fn component_of(path: Seq<char>, name: Seq<char>, last: Seq<char>)
    requires
        names(path, name),
        component(name, last),
    ensures
        last_component(path) == last,
{
    let (front, back) = choose|front: Seq<char>, back: Seq<char>|
        #![trigger only(front, '/'), only(back, '/')]
        path == front + name + back && only(front, '/') && only(back, '/') && name.len() > 0
            && name[0] != '/' && name.last() != '/';
    let t = front + name;
    assert(t.last() == name.last());
    assert(path =~= t + back);
    end_trim_is(path, '/', t, back);
    last_index_is(t, '/');
    let k = last_index(t, '/');
    let n = t.len() - last.len();
    assert forall|i: int| n <= i < t.len() implies #[trigger] t[i] != '/' by {
        assert(t[i] == name[i - front.len()]);
        assert(name.skip(name.len() - last.len())[i - n] == last[i - n]);
    }
    if n > 0 {
        if last.len() < name.len() {
            assert(t[n - 1] == name[name.len() - last.len() - 1]);
        } else {
            assert(t[n - 1] == front[n - 1]);
        }
        assert(t[n - 1] == '/');
    }
    assert(k == n - 1);
    assert(t.skip(k + 1) =~= last);
}

/// A lookup begins at the object of the path's own key, unless the path is the
/// root, which is there, or is hidden, which is not, or an entry was made up
/// for it.
pub proof fn lookups_begin_at_the_key(
    lookup: &Lookup,
    trash: &Option<TrashState>,
    made_up: Option<DirEntry>,
    m: &mut Metrics,
    r: LookupNext,
    slashes: Seq<char>,
    name: Seq<char>,
)
    requires
        call_ensures(Lookup::start, (lookup, trash, made_up, m), r),
        lookup.path@ == slashes + name,
        only(slashes, '/'),
        name.len() > 0,
        name[0] != '/',
    ensures
        made_up matches Some(e) ==> r matches LookupNext::Done { result: Ok(Some(f)) } && f@ == e@,
        made_up is None && concealed(*trash, lookup.prefix@ + name) ==> r
            matches LookupNext::Done { result: Ok(None) },
        made_up is None && !concealed(*trash, lookup.prefix@ + name) ==> (r
            matches LookupNext::Head { key } && key@ == lookup.prefix@ + name),
{
    start_trim_is(lookup.path@, '/', slashes, name);
    assert(lookup.path@[slashes.len() as int] == name[0]);
    hidden_is_concealed(*trash, lookup.prefix@ + name);
}

/// The root is always a directory.
pub proof fn the_root_is_there(
    lookup: &Lookup,
    trash: &Option<TrashState>,
    made_up: Option<DirEntry>,
    m: &mut Metrics,
    r: LookupNext,
)
    requires
        call_ensures(Lookup::start, (lookup, trash, made_up, m), r),
        lookup.path@ == seq!['/'],
    ensures
        r matches LookupNext::Done { result: Ok(Some(e)) } && e.is_dir && e.name@.len() == 0,
{
}

/// A path of more slashes, or of nothing, is looked up as the object of the
/// prefix itself.
pub proof fn roots_in_other_writing_are_the_prefix(
    lookup: &Lookup,
    trash: &Option<TrashState>,
    m: &mut Metrics,
    r: LookupNext,
    name: Seq<char>,
    slashes: Seq<char>,
)
    requires
        call_ensures(Lookup::start, (lookup, trash, None, m), r),
        only(lookup.path@, '/'),
        lookup.path@ != seq!['/'],
        lookup.prefix@ == name + slashes,
        name.len() > 0 ==> name.last() != '/',
        only(slashes, '/'),
    ensures
        concealed(*trash, name) ==> r matches LookupNext::Done { result: Ok(None) },
        !concealed(*trash, name) ==> (r matches LookupNext::Head { key } && key@ == name),
{
    let path = lookup.path@;
    assert(path =~= path + Seq::<char>::empty());
    start_trim_is(path, '/', path, Seq::empty());
    end_trim_is(lookup.prefix@, '/', name, slashes);
    hidden_is_concealed(*trash, name);
}

/// An object that is there is found under the path's last component, with its
/// own length and time, as a directory where the path ends in a slash. One
/// that is not is looked for as a directory: by its marker, and where that is
/// what was asked for, by what stands under it.
pub proof fn objects_are_found_as_they_are(
    lookup: &Lookup,
    reply: HeadReply,
    m: &mut Metrics,
    r: LookupNext,
    name: Seq<char>,
    last: Seq<char>,
)
    requires
        call_ensures(Lookup::head, (lookup, reply, m), r),
        names(lookup.path@, name),
        component(name, last),
    ensures
        reply matches HeadReply::Found { length, mtime_secs } ==> r matches LookupNext::Done {
            result: Ok(Some(e)),
        } && {
            &&& e.name@ == last
            &&& e.is_dir <==> lookup.path@.last() == '/'
            &&& shown_length(length, e.size)
            &&& shown_time(mtime_secs, e.mtime_secs)
        },
        reply is Missing && lookup.path@.last() != '/' ==> (r matches LookupNext::HeadMarker { key }
            && key@ == lookup.prefix@ + name + seq!['/']),
        reply is Missing && lookup.path@.last() == '/' ==> (r matches LookupNext::Probe { prefix }
            && prefix@ == lookup.prefix@ + name + seq!['/']),
        reply is Failed ==> r matches LookupNext::Done { result: Err(_) },
{
    keyed(lookup.path@, lookup.prefix@, name);
    component_of(lookup.path@, name, last);
    assert((lookup.prefix@ + name).last() == name.last());
    assert((lookup.prefix@ + name).push('/') =~= lookup.prefix@ + name + seq!['/']);
}

/// A marker that is there makes a directory; where there is none, what stands
/// under the path is asked for.
pub proof fn markers_make_directories(
    lookup: &Lookup,
    reply: HeadReply,
    m: &mut Metrics,
    r: LookupNext,
    name: Seq<char>,
    last: Seq<char>,
)
    requires
        call_ensures(Lookup::marker, (lookup, reply, m), r),
        names(lookup.path@, name),
        component(name, last),
    ensures
        reply matches HeadReply::Found { length, mtime_secs } ==> r matches LookupNext::Done {
            result: Ok(Some(e)),
        } && {
            &&& e.name@ == last
            &&& e.is_dir
            &&& shown_length(length, e.size)
            &&& shown_time(mtime_secs, e.mtime_secs)
        },
        reply is Missing ==> (r matches LookupNext::Probe { prefix } && prefix@ == lookup.prefix@
            + name + seq!['/']),
        reply is Failed ==> r matches LookupNext::Done { result: Err(_) },
{
    keyed(lookup.path@, lookup.prefix@, name);
    component_of(lookup.path@, name, last);
}

/// A path that anything stands under is a directory; one that nothing stands
/// under is not there.
pub proof fn children_make_directories(
    lookup: &Lookup,
    reply: ProbeReply,
    r: LookupNext,
    name: Seq<char>,
    last: Seq<char>,
)
    requires
        call_ensures(Lookup::probed, (lookup, reply), r),
        names(lookup.path@, name),
        component(name, last),
    ensures
        reply matches ProbeReply::Answer { keys, .. } ==> if keys@.len() == 0 {
            r matches LookupNext::Done { result: Ok(None) }
        } else {
            r matches LookupNext::Done { result: Ok(Some(e)) } && {
                &&& e.name@ == last
                &&& e.is_dir
            }
        },
        reply is Failed ==> r matches LookupNext::Done { result: Err(_) },
{
    component_of(lookup.path@, name, last);
}

/// Whether a directory has children is asked of the keys behind its slash. It
/// has one exactly if a key was named that is not its own marker's, or if
/// there are more keys than were named; where nothing was learnt it is taken
/// to have some.
pub proof fn markers_are_no_children(
    prefix: &str,
    dir: &str,
    m: &mut Metrics,
    asked: Option<String>,
    name: Seq<char>,
    reply: ProbeReply,
    r: bool,
)
    requires
        call_ensures(children_probe, (prefix, dir, m), asked),
        names(dir@, name),
        asked is Some ==> call_ensures(has_children, (Some((asked->0, reply)),), r),
    ensures
        asked is Some,
        reply matches ProbeReply::Answer { keys, truncated } ==> (r <==> keys@.len() > 0 && (
        truncated == Some(true) || exists|i: int|
            0 <= i < keys@.len() && !((#[trigger] keys@[i]) is Some && keys@[i]->0@ == prefix@
                + name + seq!['/']))),
        reply is Failed ==> r,
{
    keyed(dir@, prefix@, name);
    let marker = prefix@ + name + seq!['/'];
    if reply is Answer {
        let keys = reply->keys@;
        if !all_named(keys, marker) {
            let i = choose|i: int|
                0 <= i < keys.len() && !((#[trigger] keys[i]) is Some && keys[i]->0@ == marker);
            assert(!(keys[i] is Some && keys[i]->0@ == marker));
        }
    }
}

/// The root is taken to have children, without being asked for.
pub proof fn the_root_has_children(
    prefix: &str,
    dir: &str,
    m: &mut Metrics,
    asked: Option<String>,
    r: bool,
)
    requires
        call_ensures(children_probe, (prefix, dir, m), asked),
        only(dir@, '/'),
        call_ensures(has_children, (None,), r),
    ensures
        asked is None,
        r,
{
    assert(Seq::<char>::empty() + dir@ =~= dir@);
    end_trim_is(dir@, '/', Seq::empty(), dir@);
}

/// Anything that was named is left, the marker too.
pub proof fn anything_named_is_left(reply: ProbeReply, r: Result<bool, FsError>)
    requires
        call_ensures(anything_left, (reply,), r),
    ensures
        reply matches ProbeReply::Answer { keys, .. } ==> r == Ok::<bool, FsError>(
            keys@.len() > 0,
        ),
        reply is Failed ==> r is Err,
{
}

} // verus!
