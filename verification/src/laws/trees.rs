//! Copying and deleting a tree reaches each of its objects, and puts each
//! where it belongs.

use crate::deletion::{
    batch_at, batch_count, batch_deleted, batches, named_keys, BatchReply, TreeDeletion, TreeNext,
    TreePage,
};
use crate::error::FsError;
use crate::laws::listings::begins;
use crate::laws::paths::{end_trim_is, only, source_of, sources};
use crate::paths::{directory_prefix, list_prefix_under};
use crate::tree_copy::{
    count_page, with_keys, CopyPage, CountNext, TreeCopy, TreeCopyNext, TreeObject,
};
use vstd::prelude::*;

verus! {

/// `key` is the path of a directory: `name`, and slashes that say nothing.
pub open spec fn is_directory_key(key: Seq<char>, name: Seq<char>) -> bool {
    &&& name.len() <= key.len()
    &&& key.take(name.len() as int) == name
    &&& only(key.skip(name.len() as int), '/')
    &&& name.len() > 0 ==> name.last() != '/'
}

/// The first object with a key stands at `first`.
pub open spec fn first_keyed(objects: Seq<TreeObject>, first: int) -> bool {
    &&& 0 <= first < objects.len()
    &&& objects[first].key is Some
    &&& forall|i: int| 0 <= i < first ==> (#[trigger] objects[i]).key is None
}

/// The request copies the object of `key` to `to`, whatever its size: in parts
/// from five gibibytes on, at once below.
pub open spec fn requests_copy(
    r: TreeCopyNext,
    bucket: Seq<char>,
    key: Seq<char>,
    size: Option<i64>,
    target: Seq<char>,
) -> bool {
    if size is Some && size->0 >= 5 * 1024 * 1024 * 1024 {
        r matches TreeCopyNext::CopyInParts { from, to, size: n } && {
            &&& from@ == key
            &&& to@ == target
            &&& n == size->0
        }
    } else {
        r matches TreeCopyNext::Copy { source, to } && {
            &&& sources(source@, bucket, key)
            &&& to@ == target
        }
    }
}

pub(crate) proof fn prefix_is(key: Seq<char>, name: Seq<char>)
    requires
        is_directory_key(key, name),
    ensures
        directory_prefix(key) == name + seq!['/'],
{
    let tail = key.skip(name.len() as int);
    assert(key =~= name + tail);
    end_trim_is(key, '/', name, tail);
    assert(directory_prefix(key) =~= name + seq!['/']);
}

proof fn keyed_from(objects: Seq<TreeObject>, first: int)
    requires
        0 <= first <= objects.len(),
        forall|i: int| 0 <= i < first ==> (#[trigger] objects[i]).key is None,
    ensures
        with_keys(objects) == with_keys(objects.skip(first)),
        first_keyed(objects, first) ==> with_keys(objects) == seq![objects[first]] + with_keys(
            objects.skip(first + 1),
        ),
    decreases first,
{
    let p = |o: TreeObject| o.key is Some;
    if first > 0 {
        let head = objects.take(first);
        assert(objects =~= head + objects.skip(first));
        Seq::filter_distributes_over_add(head, objects.skip(first), p);
        assert(head.filter(p).len() == 0) by {
            if head.filter(p).len() > 0 {
                let o = head.filter(p)[0];
                assert(head.filter(p).contains(o));
                broadcast use vstd::seq_lib::group_filter_ensures;
                assert(p(head.filter(p)[0]));
                head.lemma_filter_contains_rev(p, o);
                let i = head.index_of(o);
                assert(head[i] == o);
                assert(objects[i] == head[i]);
            }
        }
        assert(with_keys(objects) =~= with_keys(objects.skip(first)));
    } else {
        assert(objects.skip(0) =~= objects);
    }
    if first_keyed(objects, first) {
        let tail = objects.skip(first);
        let one = seq![objects[first]];
        assert(tail =~= one + objects.skip(first + 1));
        Seq::filter_distributes_over_add(one, objects.skip(first + 1), p);
        assert(one.filter(p) =~= one) by {
            reveal_with_fuel(Seq::filter, 2);
            assert(one.drop_last() =~= Seq::<TreeObject>::empty());
        }
    }
}

proof fn step_taken(
    before: &TreeCopy,
    after: &TreeCopy,
    objects: Seq<TreeObject>,
    truncated: Option<bool>,
    token: Option<String>,
    r: TreeCopyNext,
    old_dir: Seq<char>,
    new_dir: Seq<char>,
)
    requires
        after.goes_on(before, objects, truncated, token, r),
        is_directory_key(before.old_key@, old_dir),
        is_directory_key(before.new_key@, new_dir),
    ensures
        steps(before, after, objects, truncated, token, r, old_dir, new_dir),
{
    prefix_is(before.old_key@, old_dir);
    prefix_is(before.new_key@, new_dir);
    if exists|first: int| first_keyed(objects, first) {
        let first = choose|first: int| first_keyed(objects, first);
        keyed_from(objects, first);
        let left = with_keys(objects);
        let o = objects[first];
        assert(left[0] == o);
        assert(left.drop_first() =~= with_keys(objects.skip(first + 1)));
        source_of(before.bucket@, o.key->0@);
        assert forall|rest: Seq<char>|
            o.key->0@ == #[trigger] (old_dir + seq!['/'] + rest) implies requests_copy(
            r,
            before.bucket@,
            o.key->0@,
            o.size,
            new_dir + seq!['/'] + rest,
        ) by {
            let p = old_dir + seq!['/'];
            assert(p =~= (p + rest).subrange(0, p.len() as int));
            assert((p + rest).skip(p.len() as int) =~= rest);
        }
        if !begins(o.key->0@, old_dir + seq!['/']) {
            let (k, p) = (o.key->0@, old_dir + seq!['/']);
            if p.len() <= k.len() {
                assert(k.take(p.len() as int) =~= k.subrange(0, p.len() as int));
            }
            assert(requests_copy(r, before.bucket@, k, o.size, new_dir + seq!['/'] + k));
        }
        assert forall|i: int| first < i < objects.len() && (#[trigger] objects[i]).key
            is Some implies after.waiting@.contains(objects[i]) by {
            let tail = objects.skip(first + 1);
            assert(tail[i - first - 1] == objects[i]);
            broadcast use vstd::seq_lib::group_filter_ensures;
            assert(with_keys(tail).contains(objects[i]));
            assert(with_keys(after.waiting@).contains(objects[i]));
            after.waiting@.lemma_filter_contains_rev(|o: TreeObject| o.key is Some, objects[i]);
        }
        assert forall|i: int| 0 <= i < after.waiting@.len() && (#[trigger] after.waiting@[i]).key
            is Some implies objects.skip(first + 1).contains(after.waiting@[i]) by {
            broadcast use vstd::seq_lib::group_filter_ensures;
            assert(with_keys(after.waiting@).contains(after.waiting@[i]));
            let tail = objects.skip(first + 1);
            tail.lemma_filter_contains_rev(|o: TreeObject| o.key is Some, after.waiting@[i]);
        }
        assert forall|k: int| first_keyed(objects, k) implies k == first by {
            if k < first {
                assert(objects[k].key is None);
            } else if first < k {
                assert(objects[first].key is None);
            }
        }
    } else {
        assert forall|i: int| 0 <= i < objects.len() implies (#[trigger] objects[i]).key is None by {
            none_before(objects, i);
        }
        keyed_from(objects, objects.len() as int);
        assert(objects.skip(objects.len() as int) =~= Seq::<TreeObject>::empty());
        reveal(Seq::filter);
        source_of(before.bucket@, directory_prefix(before.old_key@));
        assert forall|i: int| 0 <= i < after.waiting@.len() implies (
        #[trigger] after.waiting@[i]).key is None by {
            if after.waiting@[i].key is Some {
                broadcast use vstd::seq_lib::group_filter_ensures;
                assert(with_keys(after.waiting@).contains(after.waiting@[i]));
            }
        }
    }
}

proof fn none_before(objects: Seq<TreeObject>, i: int)
    requires
        0 <= i < objects.len(),
        !exists|first: int| first_keyed(objects, first),
    ensures
        objects[i].key is None,
    decreases i,
{
    assert forall|j: int| 0 <= j < i implies (#[trigger] objects[j]).key is None by {
        none_before(objects, j);
    }
    if objects[i].key is Some {
        assert(first_keyed(objects, i));
    }
}

/// A step of a copy, from one directory to the other, with `objects` still to
/// be copied. The first of them that has a key is copied now: what its key
/// says behind the old directory stands unchanged behind the new one, and so
/// does a key that does not stand in the old one. All others that have a key
/// wait. Where none has one the copy goes on to the
/// next page, or ends with the directory's own marker.
pub open spec fn steps(
    before: &TreeCopy,
    after: &TreeCopy,
    objects: Seq<TreeObject>,
    truncated: Option<bool>,
    token: Option<String>,
    r: TreeCopyNext,
    old_dir: Seq<char>,
    new_dir: Seq<char>,
) -> bool {
    &&& after.bucket@ == before.bucket@
    &&& after.old_key@ == before.old_key@
    &&& after.new_key@ == before.new_key@
    &&& after.truncated == truncated
    &&& after.token == token
    &&& forall|first: int, rest: Seq<char>|
        #![trigger first_keyed(objects, first), old_dir + seq!['/'] + rest]
        first_keyed(objects, first) && objects[first].key->0@ == old_dir + seq!['/'] + rest
            ==> requests_copy(
            r,
            before.bucket@,
            objects[first].key->0@,
            objects[first].size,
            new_dir + seq!['/'] + rest,
        )
    &&& forall|first: int| #[trigger]
        first_keyed(objects, first) && !begins(objects[first].key->0@, old_dir + seq!['/'])
            ==> requests_copy(
            r,
            before.bucket@,
            objects[first].key->0@,
            objects[first].size,
            new_dir + seq!['/'] + objects[first].key->0@,
        )
    &&& forall|first: int, i: int|
        #![trigger first_keyed(objects, first), objects[i]]
        first_keyed(objects, first) && first < i < objects.len() && objects[i].key is Some
            ==> after.waiting@.contains(objects[i])
    &&& forall|first: int, i: int|
        #![trigger first_keyed(objects, first), after.waiting@[i]]
        first_keyed(objects, first) && 0 <= i < after.waiting@.len()
            && after.waiting@[i].key is Some ==> objects.skip(first + 1).contains(
            after.waiting@[i],
        )
    &&& (forall|i: int| 0 <= i < objects.len() ==> (#[trigger] objects[i]).key is None) ==> {
        &&& forall|i: int| 0 <= i < after.waiting@.len() ==> (#[trigger] after.waiting@[i]).key is None
        &&& truncated == Some(true) && token is Some ==> r is List && r->token is Some
            && r->token->0@ == token->0@
        &&& truncated == Some(true) && token is None ==> r is Done && r->result == Err::<
            (),
            FsError,
        >(FsError::PartialListing)
        &&& truncated != Some(true) ==> (r matches TreeCopyNext::CopyMarker { source, to } && {
            &&& sources(source@, before.bucket@, old_dir + seq!['/'])
            &&& to@ == new_dir + seq!['/']
        })
    }
}

/// A copy begins with the first page, of the keys that it was given.
pub proof fn copies_begin_with_the_first_page(
    bucket: &str,
    old_key: &str,
    new_key: &str,
    r: (TreeCopy, TreeCopyNext),
    prefix: &str,
    dir: &str,
    d: (TreeDeletion, TreeNext),
    under: String,
)
    requires
        call_ensures(TreeCopy::start, (bucket, old_key, new_key), r),
        call_ensures(TreeDeletion::start, (prefix, dir), d),
        call_ensures(list_prefix_under, (prefix, dir), under),
    ensures
        r.0.bucket@ == bucket@,
        r.0.old_key@ == old_key@,
        r.0.new_key@ == new_key@,
        r.0.waiting@.len() == 0,
        r.1 is List && r.1->token is None,
        d.0.marker@ == under@,
        d.0.waiting@.len() == 0,
        d.1 is List && d.1->List_token is None,
{
}

/// Every object of a page goes from behind the old directory to behind the
/// new one, in the order of the page.
pub proof fn pages_are_copied_in_place(
    copy: &mut TreeCopy,
    objects: Vec<TreeObject>,
    truncated: Option<bool>,
    token: Option<String>,
    r: TreeCopyNext,
    old_dir: Seq<char>,
    new_dir: Seq<char>,
)
    requires
        call_ensures(
            TreeCopy::listed,
            (copy, CopyPage::Objects { objects, truncated, token }),
            r,
        ),
        is_directory_key(old(copy).old_key@, old_dir),
        is_directory_key(old(copy).new_key@, new_dir),
    ensures
        steps(old(copy), final(copy), objects@, truncated, token, r, old_dir, new_dir),
{
    step_taken(old(copy), final(copy), objects@, truncated, token, r, old_dir, new_dir);
}

/// The same of the objects that wait while another is copied.
pub proof fn waiting_objects_are_copied_in_place(
    copy: &mut TreeCopy,
    r: TreeCopyNext,
    old_dir: Seq<char>,
    new_dir: Seq<char>,
)
    requires
        call_ensures(TreeCopy::copied, (copy, None), r),
        is_directory_key(old(copy).old_key@, old_dir),
        is_directory_key(old(copy).new_key@, new_dir),
    ensures
        steps(
            old(copy),
            final(copy),
            old(copy).waiting@,
            old(copy).truncated,
            old(copy).token,
            r,
            old_dir,
            new_dir,
        ),
{
    step_taken(
        old(copy),
        final(copy),
        old(copy).waiting@,
        old(copy).truncated,
        old(copy).token,
        r,
        old_dir,
        new_dir,
    );
}

/// A copy that failed ends the whole with that error, and so does a page that
/// did not come.
pub proof fn failed_copies_end_the_whole(
    copy: &mut TreeCopy,
    e: FsError,
    r: TreeCopyNext,
    other: &mut TreeCopy,
    cause: Vec<String>,
    s: TreeCopyNext,
)
    requires
        call_ensures(TreeCopy::copied, (copy, Some(e)), r),
        call_ensures(TreeCopy::listed, (other, CopyPage::Failed { cause }), s),
    ensures
        r matches TreeCopyNext::Done { result } && result == Err::<(), FsError>(e),
        s matches TreeCopyNext::Done { result } && result is Err,
{
}

/// Where the request copies to.
pub open spec fn target_of(r: TreeCopyNext) -> Seq<char> {
    match r {
        TreeCopyNext::Copy { to, .. } => to@,
        TreeCopyNext::CopyInParts { to, .. } => to@,
        TreeCopyNext::CopyMarker { to, .. } => to@,
        _ => Seq::empty(),
    }
}

/// Two objects of one tree are never copied to the same place.
pub proof fn copies_never_collide(
    copy: &mut TreeCopy,
    page: Vec<TreeObject>,
    r: TreeCopyNext,
    other: &mut TreeCopy,
    other_page: Vec<TreeObject>,
    s: TreeCopyNext,
    truncated: Option<bool>,
    token: Option<String>,
    old_dir: Seq<char>,
    new_dir: Seq<char>,
    i: int,
    j: int,
    a: Seq<char>,
    b: Seq<char>,
)
    requires
        call_ensures(
            TreeCopy::listed,
            (copy, CopyPage::Objects { objects: page, truncated, token }),
            r,
        ),
        call_ensures(
            TreeCopy::listed,
            (other, CopyPage::Objects { objects: other_page, truncated, token }),
            s,
        ),
        is_directory_key(old(copy).old_key@, old_dir),
        is_directory_key(old(copy).new_key@, new_dir),
        is_directory_key(old(other).old_key@, old_dir),
        is_directory_key(old(other).new_key@, new_dir),
        first_keyed(page@, i),
        first_keyed(other_page@, j),
        page@[i].key->0@ == old_dir + seq!['/'] + a,
        other_page@[j].key->0@ == old_dir + seq!['/'] + b,
        page@[i].key->0@ != other_page@[j].key->0@,
    ensures
        target_of(r) != target_of(s),
{
    step_taken(old(copy), final(copy), page@, truncated, token, r, old_dir, new_dir);
    step_taken(old(other), final(other), other_page@, truncated, token, s, old_dir, new_dir);
    let q = new_dir + seq!['/'];
    assert(first_keyed(page@, i));
    assert(first_keyed(other_page@, j));
    assert(target_of(r) == q + a);
    assert(target_of(s) == q + b);
    if q + a == q + b {
        assert(a =~= (q + a).skip(q.len() as int));
        assert(b =~= (q + b).skip(q.len() as int));
    }
}

/// A count adds what a page holds; a tree of more than the limit is refused,
/// and no other is.
pub proof fn counts_add_up(
    count: u64,
    objects: usize,
    limit: u64,
    truncated: Option<bool>,
    token: Option<String>,
    r: Result<CountNext, FsError>,
)
    requires
        call_ensures(count_page, (count, objects, limit, truncated, token), r),
        count + objects <= u64::MAX,
    ensures
        count + objects > limit ==> r == Err::<CountNext, FsError>(
            FsError::DirRenameLimit { limit, count: (count + objects) as u64 },
        ),
        count + objects <= limit && truncated != Some(true) ==> r == Ok::<CountNext, FsError>(
            CountNext::Done { count: (count + objects) as u64 },
        ),
        count + objects <= limit && truncated == Some(true) && token is Some ==> r == Ok::<
            CountNext,
            FsError,
        >(CountNext::List { token: token->0, count: (count + objects) as u64 }),
        count + objects <= limit && truncated == Some(true) && token is None ==> r == Err::<
            CountNext,
            FsError,
        >(FsError::PartialListing),
{
}

proof fn named_is(keys: Seq<Option<String>>)
    ensures
        named_keys(keys) == keys.filter(|k: Option<String>| k is Some).map_values(
            |k: Option<String>| k->0,
        ),
        forall|i: int|
            0 <= i < keys.len() && keys[i] is Some ==> named_keys(keys).contains(
                (#[trigger] keys[i])->0,
            ),
        forall|j: int|
            0 <= j < named_keys(keys).len() ==> keys.contains(Some(#[trigger] named_keys(keys)[j])),
    decreases keys.len(),
{
    let f = |k: Option<String>| k;
    let p = |k: Option<String>| k is Some;
    let g = |k: Option<String>| k->0;
    if keys.len() > 0 {
        let (head, last) = (keys.drop_last(), keys.last());
        named_is(head);
        keys.lemma_filter_map_take_succ(f, keys.len() - 1);
        assert(keys.take(keys.len() - 1) =~= head);
        assert(keys.take(keys.len() as int) =~= keys);
        reveal_with_fuel(Seq::filter, 2);
        let (was, now) = (named_keys(head), named_keys(keys));
        if last is Some {
            assert(now =~= was.push(last->0));
            assert(keys.filter(p) =~= head.filter(p).push(last));
            assert(keys.filter(p).map_values(g) =~= head.filter(p).map_values(g).push(last->0));
            assert(now[now.len() - 1] == last->0);
        } else {
            assert(now =~= was);
            assert(keys.filter(p) =~= head.filter(p));
        }
        assert forall|i: int| 0 <= i < keys.len() && keys[i] is Some implies now.contains(
            (#[trigger] keys[i])->0,
        ) by {
            if i < head.len() {
                assert(head[i] == keys[i]);
                let j = was.index_of(keys[i]->0);
                assert(now[j] == keys[i]->0);
            }
        }
        assert forall|j: int| 0 <= j < now.len() implies keys.contains(Some(#[trigger] now[j])) by {
            if j < was.len() {
                assert(now[j] == was[j]);
                let i = head.index_of(Some(was[j]));
                assert(keys[i] == Some(now[j]));
            } else {
                assert(keys[keys.len() - 1] == Some(now[j]));
            }
        }
    } else {
        assert(named_keys(keys) =~= Seq::<String>::empty());
        reveal(Seq::filter);
        assert(keys.filter(p).map_values(g) =~= Seq::<String>::empty());
    }
}

/// The keys of all batches, one batch after the other.
pub open spec fn all_keys(v: Seq<Vec<String>>) -> Seq<String>
    decreases v.len(),
{
    if v.len() == 0 {
        Seq::empty()
    } else {
        all_keys(v.drop_last()) + v.last()@
    }
}

/// The batches `v` hold each key that the page names, in the page's order and
/// each as often as the page has it, and hold no other; none is empty, and
/// none has more than a thousand keys.
pub open spec fn holds_the_page(v: Seq<Vec<String>>, keys: Seq<Option<String>>) -> bool {
    &&& forall|i: int|
        0 <= i < keys.len() && (#[trigger] keys[i]) is Some ==> exists|b: int|
            0 <= b < v.len() && (#[trigger] v[b])@.contains(keys[i]->0)
    &&& forall|b: int, j: int|
        0 <= b < v.len() && 0 <= j < v[b]@.len() ==> keys.contains(Some(#[trigger] v[b]@[j]))
    &&& forall|b: int| 0 <= b < v.len() ==> 0 < (#[trigger] v[b])@.len() <= 1000
    &&& forall|b: int| 0 <= b < v.len() - 1 ==> (#[trigger] v[b])@.len() == 1000
    &&& all_keys(v) == keys.filter(|k: Option<String>| k is Some).map_values(
        |k: Option<String>| k->0,
    )
}

proof fn batches_hold_the_page(v: Seq<Vec<String>>, keys: Seq<Option<String>>)
    requires
        v.len() == batch_count(named_keys(keys).len()),
        forall|i: int| 0 <= i < v.len() ==> (#[trigger] v[i])@ == batch_at(named_keys(keys), i),
    ensures
        holds_the_page(v, keys),
{
    let all = named_keys(keys);
    named_is(keys);
    assert forall|i: int| 0 <= i < keys.len() && (#[trigger] keys[i]) is Some implies exists|b: int|
        0 <= b < v.len() && (#[trigger] v[b])@.contains(keys[i]->0) by {
        assert(all.contains(keys[i]->0));
        let x = all.index_of(keys[i]->0);
        let b = x / 1000;
        assert(v[b]@[x - b * 1000] == all[x]);
        assert(v[b]@.contains(keys[i]->0));
    }
    assert forall|b: int, j: int| 0 <= b < v.len() && 0 <= j < v[b]@.len() implies keys.contains(
        Some(#[trigger] v[b]@[j]),
    ) by {
        assert(v[b]@[j] == all[b * 1000 + j]);
    }
    concatenated(v, all, v.len() as int);
    assert(v.take(v.len() as int) =~= v);
    if v.len() > 0 {
        assert(all.take(all.len() as int) =~= all);
    } else {
        assert(all =~= Seq::<String>::empty());
    }
}

proof fn concatenated(v: Seq<Vec<String>>, all: Seq<String>, n: int)
    requires
        0 <= n <= v.len(),
        v.len() == batch_count(all.len()),
        forall|i: int| 0 <= i < v.len() ==> (#[trigger] v[i])@ == batch_at(all, i),
    ensures
        all_keys(v.take(n)) == all.take(if n * 1000 < all.len() {
            n * 1000
        } else {
            all.len() as int
        }),
    decreases n,
{
    let t = v.take(n);
    if n > 0 {
        concatenated(v, all, n - 1);
        assert(t.drop_last() =~= v.take(n - 1));
        assert(t.last() == v[n - 1]);
        assert((n - 1) * 1000 < all.len());
        let end = if n * 1000 < all.len() {
            n * 1000
        } else {
            all.len() as int
        };
        assert(all.take((n - 1) * 1000) + v[n - 1]@ =~= all.take(end));
    } else {
        assert(all_keys(t) =~= all.take(0));
    }
}

/// The batches hold the page.
pub proof fn batches_reach_every_key(keys: Vec<Option<String>>, r: Vec<Vec<String>>)
    requires
        call_ensures(batches, (keys,), r),
    ensures
        holds_the_page(r@, keys@),
{
    batches_hold_the_page(r@, keys@);
}

/// A page that came is deleted batch by batch: the first batch is deleted now
/// and the others wait, and together they hold the page. Where the page names
/// no key the deletion goes on to the next page, or ends with the directory's
/// own marker.
pub proof fn pages_are_deleted_whole(
    tree: &mut TreeDeletion,
    keys: Vec<Option<String>>,
    truncated: Option<bool>,
    token: Option<String>,
    r: TreeNext,
)
    requires
        call_ensures(TreeDeletion::listed, (tree, TreePage::Keys { keys, truncated, token }), r),
    ensures
        final(tree).marker@ == old(tree).marker@,
        r matches TreeNext::Delete { keys: sent } ==> holds_the_page(
            seq![sent] + final(tree).waiting@,
            keys@,
        ),
        r is Delete <==> exists|i: int| 0 <= i < keys@.len() && (#[trigger] keys@[i]) is Some,
        !(r is Delete) ==> {
            &&& final(tree).waiting@.len() == 0
            &&& truncated == Some(true) && token is Some ==> r is List && r->List_token is Some
                && r->List_token->0@ == token->0@
            &&& truncated == Some(true) && token is None ==> r is Done && r->result == Err::<
            (),
            FsError,
        >(FsError::PartialListing)
            &&& truncated != Some(true) ==> r is DeleteMarker && r->key@ == old(tree).marker@
        },
{
    let waiting = choose|waiting: Seq<Vec<String>>|
        {
            &&& waiting.len() == batch_count(named_keys(keys@).len())
            &&& forall|i: int|
                0 <= i < waiting.len() ==> (#[trigger] waiting[i])@ == batch_at(
                    named_keys(keys@),
                    i,
                )
            &&& #[trigger] final(tree).goes_on(old(tree), waiting, truncated, token, r)
        };
    batches_hold_the_page(waiting, keys@);
    if waiting.len() > 0 {
        assert(seq![waiting[0]] + waiting.drop_first() =~= waiting);
        assert(waiting[0]@.len() > 0);
        assert(keys@.contains(Some(waiting[0]@[0])));
        let i = keys@.index_of(Some(waiting[0]@[0]));
        assert(keys@[i] is Some);
    }
}

/// A batch that was deleted is followed by the next that waits, and the others
/// go on waiting; when none waits the deletion goes on. One key that could not
/// be deleted ends it with an error.
pub proof fn batches_are_deleted_in_turn(
    tree: &mut TreeDeletion,
    failed: Vec<Option<String>>,
    r: TreeNext,
)
    requires
        call_ensures(TreeDeletion::batch_done, (tree, BatchReply::Answer { failed }), r),
    ensures
        failed@.len() > 0 ==> {
            &&& r is Done
            &&& r->result matches Err(FsError::BatchDeleteFailed { failed: n, total, .. })
            && n == failed@.len() as u64 && total == old(tree).sent
        },
        failed@.len() == 0 && old(tree).waiting@.len() > 0 ==> {
            &&& r matches TreeNext::Delete { keys } && seq![keys] + final(tree).waiting@
                == old(tree).waiting@ && final(tree).sent == keys@.len()
        },
        failed@.len() == 0 && old(tree).waiting@.len() == 0 ==> {
            let (truncated, token) = (old(tree).truncated, old(tree).token);
            &&& truncated == Some(true) && token is Some ==> r is List && r->List_token is Some
                && r->List_token->0@ == token->0@
            &&& truncated == Some(true) && token is None ==> r is Done && r->result == Err::<
            (),
            FsError,
        >(FsError::PartialListing)
            &&& truncated != Some(true) ==> r is DeleteMarker && r->key@ == old(tree).marker@
        },
{
    let w = old(tree).waiting@;
    if w.len() > 0 {
        assert(seq![w[0]] + w.drop_first() =~= w);
    }
}

/// A batch ended well only if no key of it failed, and otherwise the error
/// names at most five of the keys that did, each of them a key that failed.
pub proof fn failed_keys_are_errors(
    total: usize,
    failed: Vec<Option<String>>,
    r: Result<(), FsError>,
)
    requires
        call_ensures(batch_deleted, (total, failed), r),
    ensures
        r is Ok <==> failed@.len() == 0,
        r matches Err(e) ==> {
            &&& e matches FsError::BatchDeleteFailed { failed: n, total: t, sample }
            && n == failed@.len() as u64 && t == total && sample@.len() <= 5
            && (forall|i: int|
                0 <= i < sample@.len() ==> failed@.contains(Some(#[trigger] sample@[i])))
            && (sample@.len() < 5 ==> forall|i: int|
                0 <= i < failed@.len() && (#[trigger] failed@[i]) is Some ==> sample@.contains(
                    failed@[i]->0,
                ))
        },
{
    named_is(failed@);
    if failed@.len() > 0 {
        let all = named_keys(failed@);
        let sample = r->Err_0->sample@;
        assert forall|i: int| 0 <= i < sample.len() implies failed@.contains(
            Some(#[trigger] sample[i]),
        ) by {
            assert(sample[i] == all[i]);
        }
        if sample.len() < 5 {
            assert(sample =~= all);
        }
    }
}

} // verus!
