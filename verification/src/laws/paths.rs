//! Paths, keys and names belong together.

use crate::paths::{
    basename, dir_object_prefix, directory_path, is_plain_byte, is_root, is_root_path,
    key_under, last_index, list_prefix_under, parent_path, percent_byte, percent_encoded, rel_key,
    s3_copy_source, upper_digit,
};
use crate::text::{
    contains, ends_with, join_of, lower_of, starts_with, strip_prefix, texts, trim_end,
    trim_end_char, trim_start, trim_start_char,
};
use vstd::prelude::*;
use vstd::utf8::*;

verus! {

/// `s` is nothing but `c`, over and over.
pub open spec fn only(s: Seq<char>, c: char) -> bool {
    forall|i: int| 0 <= i < s.len() ==> #[trigger] s[i] == c
}

pub(crate) proof fn trimmed_end(s: Seq<char>, c: char)
    ensures
        ({
            let t = trim_end(s, c);
            &&& t.len() <= s.len()
            &&& s == t + s.skip(t.len() as int)
            &&& only(s.skip(t.len() as int), c)
            &&& t.len() > 0 ==> t.last() != c
        }),
    decreases s.len(),
{
    let t = trim_end(s, c);
    if s.len() > 0 && s.last() == c {
        trimmed_end(s.drop_last(), c);
        let rest = s.drop_last().skip(t.len() as int);
        assert(s.skip(t.len() as int) =~= rest.push(c));
        assert(s =~= s.drop_last().push(c));
        assert(s.drop_last() == t + rest);
        assert(s =~= t + rest.push(c));
    } else {
        assert(s =~= t + s.skip(t.len() as int));
    }
}

pub(crate) proof fn trimmed_start(s: Seq<char>, c: char)
    ensures
        ({
            let t = trim_start(s, c);
            &&& t.len() <= s.len()
            &&& s == s.take(s.len() - t.len()) + t
            &&& only(s.take(s.len() - t.len()), c)
            &&& t.len() > 0 ==> t[0] != c
        }),
    decreases s.len(),
{
    let t = trim_start(s, c);
    if s.len() > 0 && s[0] == c {
        trimmed_start(s.drop_first(), c);
        let rest = s.drop_first().take(s.len() - 1 - t.len());
        assert(s.take(s.len() - t.len()) =~= seq![c] + rest);
        assert(s =~= seq![c] + s.drop_first());
        assert(s.drop_first() == rest + t);
        assert(s =~= seq![c] + rest + t);
    } else {
        assert(s =~= s.take(s.len() - t.len()) + t);
    }
}

/// What does not end in `c` is kept whole, and each `c` behind it goes.
pub proof fn trimming_the_end_takes_only_that(
    s: &str,
    c: char,
    r: String,
    kept: Seq<char>,
    tail: Seq<char>,
)
    requires
        call_ensures(trim_end_char, (s, c), r),
        s@ == kept + tail,
        kept.len() > 0 ==> kept.last() != c,
        only(tail, c),
    ensures
        r@ == kept,
{
    end_trim_is(s@, c, kept, tail);
}

pub(crate) proof fn end_trim_is(s: Seq<char>, c: char, kept: Seq<char>, tail: Seq<char>)
    requires
        s == kept + tail,
        kept.len() > 0 ==> kept.last() != c,
        only(tail, c),
    ensures
        trim_end(s, c) == kept,
    decreases tail.len(),
{
    if tail.len() > 0 {
        assert(s.last() == tail[tail.len() - 1]);
        assert(s.drop_last() =~= kept + tail.drop_last());
        end_trim_is(s.drop_last(), c, kept, tail.drop_last());
    } else {
        assert(s =~= kept);
    }
}

/// What does not begin with `c` is kept whole, and each `c` in front goes.
pub proof fn trimming_the_start_takes_only_that(
    s: &str,
    c: char,
    r: String,
    head: Seq<char>,
    kept: Seq<char>,
)
    requires
        call_ensures(trim_start_char, (s, c), r),
        s@ == head + kept,
        kept.len() > 0 ==> kept[0] != c,
        only(head, c),
    ensures
        r@ == kept,
{
    start_trim_is(s@, c, head, kept);
}

pub(crate) proof fn start_trim_is(s: Seq<char>, c: char, head: Seq<char>, kept: Seq<char>)
    requires
        s == head + kept,
        kept.len() > 0 ==> kept[0] != c,
        only(head, c),
    ensures
        trim_start(s, c) == kept,
    decreases head.len(),
{
    if head.len() > 0 {
        assert(s[0] == head[0]);
        assert(s.drop_first() =~= head.drop_first() + kept);
        start_trim_is(s.drop_first(), c, head.drop_first(), kept);
    } else {
        assert(s =~= kept);
    }
}

/// A text is found wherever it stands, and nowhere else.
pub proof fn texts_are_found_where_they_stand(
    s: &str,
    p: &str,
    inside: bool,
    front: bool,
    back: bool,
    rest: Option<String>,
    a: Seq<char>,
    b: Seq<char>,
)
    requires
        call_ensures(contains, (s, p), inside),
        call_ensures(starts_with, (s, p), front),
        call_ensures(ends_with, (s, p), back),
        call_ensures(strip_prefix, (s, p), rest),
    ensures
        s@ == a + p@ + b ==> inside,
        s@ == p@ + b ==> front && rest is Some && rest->0@ == b,
        s@ == a + p@ ==> back,
        inside ==> exists|i: int|
            0 <= i && i + p@.len() <= s@.len() && #[trigger] s@.subrange(i, i + p@.len()) == p@,
        front ==> s@.len() >= p@.len() && s@.take(p@.len() as int) == p@,
        back ==> s@.len() >= p@.len() && s@.skip(s@.len() - p@.len()) == p@,
        rest is Some <==> front,
{
    let n = p@.len() as int;
    if s@ == a + p@ + b {
        assert(s@.subrange(a.len() as int, a.len() + n) =~= p@);
    }
    if s@ == p@ + b {
        assert(p@ =~= s@.subrange(0, n));
        assert(s@.skip(n) =~= b);
    }
    if s@ == a + p@ {
        assert(p@ =~= s@.subrange(a.len() as int, s@.len() as int));
    }
    if front {
        assert(s@.take(n) =~= s@.subrange(0, n));
    }
    if back {
        assert(s@.skip(s@.len() - n) =~= s@.subrange(s@.len() - n, s@.len() as int));
    }
}

/// Lower case changes the letters `A` to `Z` and nothing else, each to the
/// letter at the same place of the small alphabet.
pub proof fn lower_case_changes_capitals_only(s: &str, r: String)
    requires
        call_ensures(lower_of, (s,), r),
    ensures
        r@.len() == s@.len(),
        forall|i: int|
            0 <= i < s@.len() ==> {
                let c = #[trigger] s@[i];
                if 'A' <= c && c <= 'Z' {
                    r@[i] as int - 'a' as int == c as int - 'A' as int
                } else {
                    r@[i] == c
                }
            },
{
}

/// Texts put together stand one after the other, with the separator between
/// each two of them.
pub proof fn joined_texts_stand_in_order(
    v: &Vec<String>,
    sep: char,
    r: String,
    shorter: &Vec<String>,
    head: String,
)
    requires
        call_ensures(join_of, (v, sep), r),
        call_ensures(join_of, (shorter, sep), head),
        v@.len() > 0,
        shorter@.len() == v@.len() - 1,
        forall|i: int| 0 <= i < shorter@.len() ==> (#[trigger] shorter@[i])@ == v@[i]@,
    ensures
        v@.len() == 1 ==> r@ == v@[0]@,
        v@.len() > 1 ==> r@ == head@ + seq![sep] + v@[v@.len() - 1]@,
{
    assert(texts(v@).drop_last() =~= texts(shorter@));
    assert(texts(v@).last() == v@[v@.len() - 1]@);
    if v@.len() > 1 {
        assert(r@ =~= head@ + seq![sep] + v@[v@.len() - 1]@);
    } else {
        assert(r@ =~= v@[0]@);
    }
}

/// The root is the path of slashes alone.
pub proof fn the_root_is_slashes(path: &str, r: bool)
    requires
        call_ensures(is_root_path, (path,), r),
    ensures
        r <==> only(path@, '/'),
{
    root_is_only_slashes(path@);
}

pub(crate) proof fn root_is_only_slashes(path: Seq<char>)
    ensures
        is_root(path) <==> only(path, '/'),
{
    trimmed_start(path, '/');
    let t = trim_start(path, '/');
    if t.len() == 0 {
        assert(path.take(path.len() as int) =~= path);
    } else {
        assert(path[path.len() - t.len()] == t[0]);
    }
}

/// The relative key of a path is what stands behind its leading slashes,
/// whatever it holds.
pub proof fn relative_keys_are_what_follows_the_slashes(
    path: &str,
    r: String,
    slashes: Seq<char>,
    name: Seq<char>,
)
    requires
        call_ensures(rel_key, (path,), r),
        path@ == slashes + name,
        only(slashes, '/'),
        name.len() > 0 ==> name[0] != '/',
    ensures
        r@ == name,
{
    start_trim_is(path@, '/', slashes, name);
}

/// The object key of a path is the namespace prefix and what stands behind the
/// path's leading slashes; that of the root is the prefix without its slash.
pub proof fn keys_stand_under_the_prefix(
    prefix: &str,
    path: &str,
    r: String,
    slashes: Seq<char>,
    name: Seq<char>,
)
    requires
        call_ensures(key_under, (prefix, path), r),
        path@ == slashes + name,
        only(slashes, '/'),
        name.len() > 0 ==> name[0] != '/',
    ensures
        name.len() > 0 ==> r@ == prefix@ + name,
        name.len() == 0 ==> {
            &&& r@.is_prefix_of(prefix@)
            &&& r@.len() > 0 ==> r@.last() != '/'
            &&& only(prefix@.skip(r@.len() as int), '/')
        },
{
    start_trim_is(path@, '/', slashes, name);
    trimmed_end(prefix@, '/');
}

/// What a directory's objects begin with is its key and one slash, however
/// many slashes the key ended in.
pub proof fn directory_prefixes_end_in_one_slash(
    key: &str,
    r: String,
    name: Seq<char>,
    slashes: Seq<char>,
)
    requires
        call_ensures(dir_object_prefix, (key,), r),
        key@ == name + slashes,
        only(slashes, '/'),
        name.len() > 0 ==> name.last() != '/',
    ensures
        r@ == name + seq!['/'],
{
    end_trim_is(key@, '/', name, slashes);
    assert(r@ =~= name + seq!['/']);
}

/// The keys under a directory begin with the namespace prefix, the directory's
/// name and one slash; under the root, with the prefix alone.
pub proof fn children_stand_under_their_directory(
    prefix: &str,
    dir: &str,
    r: String,
    front: Seq<char>,
    name: Seq<char>,
    back: Seq<char>,
)
    requires
        call_ensures(list_prefix_under, (prefix, dir), r),
        dir@ == front + name + back,
        only(front, '/'),
        only(back, '/'),
        name.len() > 0 ==> name[0] != '/' && name.last() != '/',
    ensures
        name.len() > 0 ==> r@ == prefix@ + name + seq!['/'],
        name.len() == 0 ==> r@ == prefix@,
{
    if name.len() > 0 {
        assert(dir@ =~= front + (name + back));
        start_trim_is(dir@, '/', front, name + back);
        assert((name + back)[0] == name[0]);
        assert(prefix@ + (name + back) =~= (prefix@ + name) + back);
        assert((prefix@ + name).last() == name.last());
        end_trim_is(prefix@ + (name + back), '/', prefix@ + name, back);
        assert(r@ =~= prefix@ + name + seq!['/']);
    } else {
        assert(dir@ =~= (front + back) + Seq::<char>::empty());
        assert forall|i: int| 0 <= i < (front + back).len() implies #[trigger] (front + back)[i]
            == '/' by {
            if i >= front.len() {
                assert((front + back)[i] == back[i - front.len()]);
            }
        }
        start_trim_is(dir@, '/', front + back, Seq::empty());
    }
}

/// A path becomes a directory's by a slash at its end, one that is missing.
pub proof fn directory_paths_end_in_a_slash(path: &str, r: String)
    requires
        call_ensures(directory_path, (path,), r),
    ensures
        r@.len() > 0 && r@.last() == '/',
        path@.is_prefix_of(r@),
        r@.len() == path@.len() || (r@.len() == path@.len() + 1 && !(path@.len() > 0
            && path@.last() == '/')),
{
}

pub(crate) proof fn last_index_is(s: Seq<char>, c: char)
    ensures
        -1 <= last_index(s, c) < s.len(),
        last_index(s, c) >= 0 ==> s[last_index(s, c)] == c,
        forall|i: int| last_index(s, c) < i < s.len() ==> #[trigger] s[i] != c,
    decreases s.len(),
{
    if s.len() > 0 && s.last() != c {
        last_index_is(s.drop_last(), c);
        assert forall|i: int| last_index(s, c) < i < s.len() implies #[trigger] s[i] != c by {
            if i < s.len() - 1 {
                assert(s[i] == s.drop_last()[i]);
            }
        }
    }
}

/// A path is what it stands under, a slash, its name and slashes that say
/// nothing: the name is its last component, and what it stands under its
/// parent.
pub proof fn paths_are_parent_and_name(
    path: &str,
    up: String,
    name: String,
    above: Seq<char>,
    last: Seq<char>,
    slashes: Seq<char>,
)
    requires
        call_ensures(parent_path, (path,), up),
        call_ensures(basename, (path,), name),
        path@ == above + seq!['/'] + last + slashes,
        last.len() > 0,
        forall|i: int| 0 <= i < last.len() ==> #[trigger] last[i] != '/',
        only(slashes, '/'),
    ensures
        name@ == last,
        above.len() > 0 ==> up@ == above,
        above.len() == 0 ==> up@ == seq!['/'],
{
    let t = above + seq!['/'] + last;
    assert(t.last() == last[last.len() - 1]);
    end_trim_is(path@, '/', t, slashes);
    last_index_is(t, '/');
    let k = last_index(t, '/');
    assert(t[above.len() as int] == '/');
    if k > above.len() {
        assert(t[k] == last[k - above.len() - 1]);
    }
    assert(k == above.len());
    assert(t.skip(k + 1) =~= last);
    assert(t.take(k) =~= above);
}

/// A name that stands under nothing is its own last component, and the root
/// is its own.
pub proof fn bare_names_are_their_component(path: &str, up: String, name: String)
    requires
        call_ensures(parent_path, (path,), up),
        call_ensures(basename, (path,), name),
    ensures
        path@.len() > 0 && (forall|i: int| 0 <= i < path@.len() ==> #[trigger] path@[i] != '/')
            ==> name@ == path@ && up@ == seq!['/'],
        only(path@, '/') ==> name@ == seq!['/'] && up@ == seq!['/'],
{
    let s = path@;
    if s.len() > 0 && (forall|i: int| 0 <= i < s.len() ==> #[trigger] s[i] != '/') {
        assert(s.last() == s[s.len() - 1]);
        last_index_is(s, '/');
        let k = last_index(s, '/');
        assert(k == -1);
        assert(s.skip(0) =~= s);
    }
    if only(s, '/') {
        assert(s =~= Seq::<char>::empty() + s);
        end_trim_is(s, '/', Seq::empty(), s);
    }
}

/// A character that stands for itself in a copy source.
pub open spec fn unreserved(c: char) -> bool {
    ('A' <= c && c <= 'Z') || ('a' <= c && c <= 'z') || ('0' <= c && c <= '9') || c == '-' || c
        == '_' || c == '.' || c == '~' || c == '/'
}

/// The worth of the digit `c`, a number or a capital.
pub open spec fn escape_digit(c: char) -> int {
    if '0' <= c && c <= '9' {
        c as int - '0' as int
    } else if 'A' <= c && c <= 'F' {
        c as int - 'A' as int + 10
    } else {
        -1
    }
}

/// The byte that an escape at the front of `s` stands for, or -1.
pub open spec fn escape_byte(s: Seq<char>) -> int {
    if s.len() >= 3 && s[0] == '%' && escape_digit(s[1]) >= 0 && escape_digit(s[2]) >= 0 {
        escape_digit(s[1]) * 16 + escape_digit(s[2])
    } else {
        -1
    }
}

/// `s` is escaped, and stands for `bytes`: characters that stand for
/// themselves, and escapes of everything else.
pub open spec fn stands_for(s: Seq<char>, bytes: Seq<u8>) -> bool
    decreases s.len(),
{
    if s.len() == 0 {
        bytes.len() == 0
    } else if bytes.len() == 0 {
        false
    } else if unreserved(s[0]) {
        bytes[0] as int == s[0] as int && stands_for(s.skip(1), bytes.skip(1))
    } else {
        &&& escape_byte(s) == bytes[0]
        &&& !unreserved(bytes[0] as char)
        &&& stands_for(s.skip(3), bytes.skip(1))
    }
}

/// `s` is the copy source of the object `key` in `bucket`: both behind a slash
/// each, the key escaped.
pub open spec fn sources(s: Seq<char>, bucket: Seq<char>, key: Seq<char>) -> bool {
    let n = bucket.len() + 2;
    &&& s.len() >= n
    &&& s.take(n as int) == seq!['/'] + bucket + seq!['/']
    &&& stands_for(s.skip(n as int), encode_utf8(key))
}

proof fn one_byte_escaped(b: u8)
    ensures
        is_plain_byte(b) <==> unreserved(b as char),
        is_plain_byte(b) ==> percent_byte(b) == seq![b as char] && (b as char) as int == b,
        !is_plain_byte(b) ==> {
            let s = percent_byte(b);
            &&& s.len() == 3
            &&& s[0] == '%'
            &&& escape_digit(s[1]) == b as int / 16
            &&& escape_digit(s[2]) == b as int % 16
        },
{
    let (h, l) = ((b / 16) as nat, (b % 16) as nat);
    assert(escape_digit(upper_digit(h)) == h);
    assert(escape_digit(upper_digit(l)) == l);
}

proof fn escapes_stand_for_their_bytes(bytes: Seq<u8>)
    ensures
        stands_for(percent_encoded(bytes), bytes),
    decreases bytes.len(),
{
    if bytes.len() > 0 {
        let b = bytes[0];
        let front = percent_byte(b);
        let rest = percent_encoded(bytes.drop_first());
        let s = front + rest;
        escapes_stand_for_their_bytes(bytes.drop_first());
        one_byte_escaped(b);
        assert(percent_encoded(bytes) == s);
        assert(bytes.skip(1) =~= bytes.drop_first());
        assert(s[0] == front[0]);
        if is_plain_byte(b) {
            assert(s.skip(1) =~= rest);
        } else {
            assert(s.skip(3) =~= rest);
            assert(s[1] == front[1]);
            assert(s[2] == front[2]);
            assert(escape_byte(s) == b);
        }
    }
}

pub(crate) proof fn source_of(bucket: Seq<char>, key: Seq<char>)
    ensures
        sources(crate::paths::copy_source(bucket, key), bucket, key),
{
    let s = crate::paths::copy_source(bucket, key);
    let n = bucket.len() + 2;
    escapes_stand_for_their_bytes(encode_utf8(key));
    assert(s.take(n as int) =~= seq!['/'] + bucket + seq!['/']);
    assert(s.skip(n as int) =~= percent_encoded(encode_utf8(key)));
}

/// A copy source reads back as the bucket and the key that it was made of.
pub proof fn copy_sources_read_back(bucket: &str, key: &str, r: String)
    requires
        call_ensures(s3_copy_source, (bucket, key), r),
    ensures
        sources(r@, bucket@, key@),
{
    source_of(bucket@, key@);
}

} // verus!
