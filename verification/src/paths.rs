//! Paths and object keys. A path is what the mount shows (`/docs/a.txt`), a
//! key is where the object lives (`docs/a.txt`, under the namespace prefix).
//! A directory is a prefix of keys, and may have a marker object of its own
//! whose key ends in a slash.

use crate::text::{
    chars_of, ends_with_char, joined, string_of, trim_end, trim_end_char, trim_start,
    trim_start_char,
};
use vstd::prelude::*;
use vstd::utf8::*;

verus! {

/// The relative key of a path: the path without its leading slashes.
pub open spec fn relative(path: Seq<char>) -> Seq<char> {
    trim_start(path, '/')
}

/// Everything that reduces to the empty relative key is the mount root.
pub open spec fn is_root(path: Seq<char>) -> bool {
    relative(path).len() == 0
}

/// The index of the last `c` in `s`, or -1.
pub open spec fn last_index(s: Seq<char>, c: char) -> int
    decreases s.len(),
{
    if s.len() == 0 {
        -1
    } else if s.last() == c {
        s.len() - 1
    } else {
        last_index(s.drop_last(), c)
    }
}

/// The last component of a path; `/` for the root.
pub open spec fn last_component(path: Seq<char>) -> Seq<char> {
    let t = trim_end(path, '/');
    if t.len() == 0 {
        seq!['/']
    } else {
        t.skip(last_index(t, '/') + 1)
    }
}

/// What a path stands under; `/` for the root and for its children.
pub open spec fn parent(path: Seq<char>) -> Seq<char> {
    let t = trim_end(path, '/');
    if last_index(t, '/') <= 0 {
        seq!['/']
    } else {
        t.take(last_index(t, '/'))
    }
}

/// The object key of `path` under the namespace prefix.
pub open spec fn object_key(prefix: Seq<char>, path: Seq<char>) -> Seq<char> {
    if is_root(path) {
        trim_end(prefix, '/')
    } else {
        prefix + relative(path)
    }
}

/// The prefix of a directory's objects, given its key with or without a
/// trailing slash.
pub open spec fn directory_prefix(key: Seq<char>) -> Seq<char> {
    trim_end(key, '/').push('/')
}

/// The prefix that the keys of the children of `dir` begin with, given its
/// path with or without a trailing slash.
pub open spec fn children_prefix(prefix: Seq<char>, dir: Seq<char>) -> Seq<char> {
    if is_root(dir) {
        prefix
    } else {
        directory_prefix(object_key(prefix, dir))
    }
}

/// `path` as a directory path: with a slash at the end.
pub open spec fn as_directory(path: Seq<char>) -> Seq<char> {
    if path.len() > 0 && path.last() == '/' {
        path
    } else {
        path.push('/')
    }
}

/// Strips the leading slashes from a path. Only those: a trailing slash marks
/// a directory, and blanks are a legal part of a file name.
pub fn rel_key(path: &str) -> (r: String)
    ensures
        r@ == relative(path@),
{
    trim_start_char(path, '/')
}

/// `path` denotes the mount root: `/`, `//` or nothing at all.
pub fn is_root_path(path: &str) -> (r: bool)
    ensures
        r == is_root(path@),
{
    rel_key(path).as_str().is_empty()
}

fn last_index_of(v: &Vec<char>, n: usize, c: char) -> (r: Option<usize>)
    requires
        n <= v@.len(),
    ensures
        r is None ==> last_index(v@.take(n as int), c) == -1,
        r is Some ==> last_index(v@.take(n as int), c) == r->0 && r->0 < n,
{
    let mut i: usize = n;
    while i > 0
        invariant
            i <= n <= v@.len(),
            last_index(v@.take(n as int), c) == last_index(v@.take(i as int), c),
        decreases i,
    {
        assert(v@.take(i as int).drop_last() =~= v@.take(i - 1));
        if v[i - 1] == c {
            return Some(i - 1);
        }
        i -= 1;
    }
    None
}

/// The last component of a path. `/` stays `/`.
pub fn basename(path: &str) -> (r: String)
    ensures
        r@ == last_component(path@),
{
    let t = trim_end_char(path, '/');
    if t.as_str().is_empty() {
        let mut s = String::new();
        s.push('/');
        assert(s@ =~= seq!['/']);
        return s;
    }
    let v = chars_of(t.as_str());
    assert(v@.take(v@.len() as int) =~= t@);
    match last_index_of(&v, v.len(), '/') {
        None => {
            assert(t@.skip(0) =~= t@);
            t
        },
        Some(i) => {
            let s = string_of(&v, i + 1, v.len());
            assert(s@ =~= t@.skip(i + 1));
            s
        },
    }
}

/// The parent of a path. `/` stays `/`.
pub fn parent_path(path: &str) -> (r: String)
    ensures
        r@ == parent(path@),
{
    let t = trim_end_char(path, '/');
    let v = chars_of(t.as_str());
    assert(v@.take(v@.len() as int) =~= t@);
    match last_index_of(&v, v.len(), '/') {
        Some(i) => {
            if i > 0 {
                let s = string_of(&v, 0, i);
                assert(s@ =~= t@.take(i as int));
                return s;
            }
        },
        None => {},
    }
    let mut s = String::new();
    s.push('/');
    assert(s@ =~= seq!['/']);
    s
}

/// The object key of `path` under `prefix`.
pub fn key_under(prefix: &str, path: &str) -> (r: String)
    ensures
        r@ == object_key(prefix@, path@),
{
    let rel = rel_key(path);
    if rel.as_str().is_empty() {
        trim_end_char(prefix, '/')
    } else {
        joined(prefix, rel.as_str())
    }
}

/// The prefix of the children of `dir`.
pub fn list_prefix_under(prefix: &str, dir: &str) -> (r: String)
    ensures
        r@ == children_prefix(prefix@, dir@),
{
    if is_root_path(dir) {
        prefix.to_owned()
    } else {
        let key = key_under(prefix, dir);
        dir_object_prefix(key.as_str())
    }
}

/// The directory prefix of `key`: one slash at the end, never two.
pub fn dir_object_prefix(key: &str) -> (r: String)
    ensures
        r@ == directory_prefix(key@),
{
    let mut s = trim_end_char(key, '/');
    s.push('/');
    s
}

/// `path` with a slash at the end.
pub fn directory_path(path: &str) -> (r: String)
    ensures
        r@ == as_directory(path@),
{
    let mut s = path.to_owned();
    if !ends_with_char(path, '/') {
        s.push('/');
    }
    s
}

/// Bytes that stand for themselves in a copy source.
pub open spec fn is_plain_byte(b: u8) -> bool {
    (65 <= b <= 90) || (97 <= b <= 122) || (48 <= b <= 57) || b == 45 || b == 95 || b == 46 || b
        == 126 || b == 47
}

/// The upper-case hexadecimal digit for `d`.
pub open spec fn upper_digit(d: nat) -> char {
    if d < 10 {
        (48 + d) as char
    } else {
        (55 + d) as char
    }
}

/// One byte of a key in a copy source: itself, or `%` and two digits.
pub open spec fn percent_byte(b: u8) -> Seq<char> {
    if is_plain_byte(b) {
        seq![b as char]
    } else {
        seq!['%', upper_digit((b / 16) as nat), upper_digit((b % 16) as nat)]
    }
}

/// The bytes of a key in a copy source.
pub open spec fn percent_encoded(bytes: Seq<u8>) -> Seq<char>
    decreases bytes.len(),
{
    if bytes.len() == 0 {
        Seq::empty()
    } else {
        percent_byte(bytes[0]) + percent_encoded(bytes.drop_first())
    }
}

/// The copy source of the object `key` in `bucket`.
pub open spec fn copy_source(bucket: Seq<char>, key: Seq<char>) -> Seq<char> {
    seq!['/'] + bucket + seq!['/'] + percent_encoded(encode_utf8(key))
}

fn upper_digit_of(d: u8) -> (r: char)
    requires
        d < 16,
    ensures
        r == upper_digit(d as nat),
{
    if d < 10 {
        (48u8 + d) as char
    } else {
        (55u8 + d) as char
    }
}

proof fn percent_encoded_append(a: Seq<u8>, b: u8)
    ensures
        percent_encoded(a.push(b)) == percent_encoded(a) + percent_byte(b),
    decreases a.len(),
{
    if a.len() == 0 {
        assert(a.push(b).drop_first() =~= Seq::<u8>::empty());
        assert(percent_encoded(a.push(b).drop_first()) =~= Seq::<char>::empty());
        assert(percent_encoded(a.push(b)) =~= percent_byte(b));
        assert(percent_encoded(a) =~= Seq::<char>::empty());
        assert(percent_encoded(a.push(b)) =~= percent_encoded(a) + percent_byte(b));
    } else {
        assert(a.push(b).drop_first() =~= a.drop_first().push(b));
        percent_encoded_append(a.drop_first(), b);
        assert(percent_encoded(a.push(b)) =~= percent_encoded(a) + percent_byte(b));
    }
}

/// The `x-amz-copy-source` value of an object: `/bucket/key`, with every byte
/// of the key but the unreserved ones and the slashes percent-encoded.
pub fn s3_copy_source(bucket: &str, key: &str) -> (r: String)
    ensures
        r@ == copy_source(bucket@, key@),
{
    let mut out = String::new();
    out.push('/');
    out.append(bucket);
    out.push('/');
    let ghost head = out@;
    assert(head =~= seq!['/'] + bucket@ + seq!['/']);
    let bytes = key.as_bytes();
    let mut i: usize = 0;
    assert(bytes@.take(0) =~= Seq::<u8>::empty());
    assert(out@ =~= head + percent_encoded(bytes@.take(0)));
    while i < bytes.len()
        invariant
            i <= bytes@.len(),
            out@ == head + percent_encoded(bytes@.take(i as int)),
        decreases bytes@.len() - i,
    {
        let b: u8 = bytes[i];
        if (b >= 65 && b <= 90) || (b >= 97 && b <= 122) || (b >= 48 && b <= 57) || b == 45 || b
            == 95 || b == 46 || b == 126 || b == 47 {
            out.push(b as char);
        } else {
            out.push('%');
            out.push(upper_digit_of(b / 16));
            out.push(upper_digit_of(b % 16));
        }
        proof {
            percent_encoded_append(bytes@.take(i as int), b);
            assert(bytes@.take(i + 1) =~= bytes@.take(i as int).push(b));
            assert(out@ =~= head + percent_encoded(bytes@.take(i + 1)));
        }
        i += 1;
    }
    assert(bytes@.take(bytes@.len() as int) =~= bytes@);
    out
}

/// Whatever follows the slash of an absolute path is the relative key, blanks
/// and trailing slashes and all: two file names never share a key.
pub proof fn relative_keeps_the_name(name: Seq<char>)
    requires
        name.len() == 0 || name[0] != '/',
    ensures
        relative(seq!['/'] + name) == name,
        relative(name) == name,
{
    reveal_with_fuel(trim_start, 2);
    let p = seq!['/'] + name;
    assert(p.drop_first() =~= name);
}

/// The relative key has no slash in front, and the path is slashes and then
/// the relative key.
pub proof fn relative_only_drops_slashes(path: Seq<char>)
    ensures
        relative(path).len() > 0 ==> relative(path)[0] != '/',
        relative(path).len() <= path.len(),
        path.skip(path.len() - relative(path).len()) == relative(path),
        forall|i: int| 0 <= i < path.len() - relative(path).len() ==> path[i] == '/',
    decreases path.len(),
{
    if path.len() > 0 && path[0] == '/' {
        relative_only_drops_slashes(path.drop_first());
        let rest = path.drop_first();
        let n = relative(path).len();
        assert(rest.skip(rest.len() - n) =~= path.skip(path.len() - n));
        assert forall|i: int| 0 <= i < path.len() - n implies path[i] == '/' by {
            if i > 0 {
                assert(path[i] == rest[i - 1]);
            }
        }
    } else {
        assert(path.skip(0) =~= path);
    }
}

/// Distinct names under one namespace have distinct object keys.
pub proof fn keys_are_distinct(prefix: Seq<char>, a: Seq<char>, b: Seq<char>)
    requires
        a.len() > 0 && a[0] != '/',
        b.len() > 0 && b[0] != '/',
        a != b,
    ensures
        object_key(prefix, seq!['/'] + a) != object_key(prefix, seq!['/'] + b),
{
    relative_keeps_the_name(a);
    relative_keeps_the_name(b);
    if prefix + a == prefix + b {
        assert(a =~= (prefix + a).skip(prefix.len() as int));
        assert(b =~= (prefix + b).skip(prefix.len() as int));
    }
}

proof fn relative_keeps_the_end(path: Seq<char>)
    requires
        !is_root(path),
    ensures
        relative(path.push('/')) == relative(path).push('/'),
    decreases path.len(),
{
    if path[0] == '/' {
        relative_keeps_the_end(path.drop_first());
        assert(path.push('/').drop_first() =~= path.drop_first().push('/'));
    }
}

proof fn root_stays_root(path: Seq<char>)
    requires
        is_root(path),
    ensures
        is_root(path.push('/')),
    decreases path.len(),
{
    if path.len() > 0 {
        root_stays_root(path.drop_first());
        assert(path.push('/').drop_first() =~= path.drop_first().push('/'));
    } else {
        assert(path.push('/').drop_first() =~= path);
    }
}

/// With and without a slash at the end, a path names the same directory.
pub proof fn trailing_slashes_name_the_same_directory(prefix: Seq<char>, dir: Seq<char>)
    ensures
        children_prefix(prefix, dir.push('/')) == children_prefix(prefix, dir),
{
    if is_root(dir) {
        root_stays_root(dir);
    } else {
        relative_keeps_the_end(dir);
        assert(object_key(prefix, dir.push('/')) =~= object_key(prefix, dir).push('/'));
        let key = object_key(prefix, dir);
        assert(key.push('/').drop_last() =~= key);
    }
}

/// The key of a directory's child is the directory's list prefix followed by
/// the child's name.
pub proof fn child_keys_extend_the_list_prefix(prefix: Seq<char>, dir: Seq<char>, name: Seq<char>)
    requires
        dir.len() > 0 && dir[0] != '/' && dir.last() != '/',
        name.len() > 0 && name[0] != '/',
    ensures
        object_key(prefix, seq!['/'] + name) == children_prefix(prefix, seq!['/']) + name,
        object_key(prefix, seq!['/'] + dir + seq!['/'] + name) == children_prefix(
            prefix,
            seq!['/'] + dir,
        ) + name,
{
    relative_keeps_the_name(name);
    relative_keeps_the_name(dir);
    let tail = dir + seq!['/'] + name;
    relative_keeps_the_name(tail);
    assert(seq!['/'] + dir + seq!['/'] + name =~= seq!['/'] + tail);
    relative_keeps_the_name(Seq::empty());
    assert(seq!['/'] + Seq::<char>::empty() =~= seq!['/']);
    assert((prefix + dir).last() == dir.last());
    assert(prefix + tail =~= (prefix + dir).push('/') + name);
}

proof fn last_index_splits(s: Seq<char>, c: char)
    ensures
        -1 <= last_index(s, c) < s.len(),
        last_index(s, c) >= 0 ==> s[last_index(s, c)] == c,
        forall|i: int| last_index(s, c) < i < s.len() ==> s[i] != c,
    decreases s.len(),
{
    if s.len() > 0 && s.last() != c {
        last_index_splits(s.drop_last(), c);
        assert forall|i: int| last_index(s, c) < i < s.len() implies s[i] != c by {
            if i < s.len() - 1 {
                assert(s[i] == s.drop_last()[i]);
            }
        }
    }
}

/// A path below the root is its parent, a slash and its last component; the
/// component holds no slash and is not empty.
pub proof fn parent_and_component(path: Seq<char>)
    requires
        path.len() > 1,
        path[0] == '/',
        path.last() != '/',
    ensures
        !last_component(path).contains('/'),
        last_component(path).len() > 0,
        parent(path) == seq!['/'] ==> path == seq!['/'] + last_component(path) || path == seq!['/']
            + seq!['/'] + last_component(path),
        parent(path) != seq!['/'] ==> path == parent(path) + seq!['/'] + last_component(path),
{
    let t = trim_end(path, '/');
    assert(t == path);
    last_index_splits(t, '/');
    let i = last_index(t, '/');
    assert(i >= 0);
    let name = t.skip(i + 1);
    assert forall|k: int| 0 <= k < name.len() implies name[k] != '/' by {
        assert(name[k] == t[k + i + 1]);
    }
    if i > 0 {
        assert(path =~= t.take(i) + seq!['/'] + name);
        if parent(path) == seq!['/'] {
            assert(i == 1) by {
                assert(t.take(i).len() == seq!['/'].len());
            }
            assert(path =~= seq!['/'] + seq!['/'] + name);
        }
    } else {
        assert(path =~= seq!['/'] + name);
    }
}

proof fn percent_bytes_differ(a: u8, b: u8)
    requires
        percent_byte(a) == percent_byte(b),
    ensures
        a == b,
{
    let p = percent_byte(a);
    let q = percent_byte(b);
    assert(p[0] == q[0]);
    if is_plain_byte(a) {
        assert(q[0] == a as char);
    } else {
        assert(!is_plain_byte(b));
        assert(p[1] == q[1]);
        assert(p[2] == q[2]);
        assert(upper_digit((a / 16) as nat) == upper_digit((b / 16) as nat));
        assert(upper_digit((a % 16) as nat) == upper_digit((b % 16) as nat));
    }
}

proof fn percent_encoding_is_unique(a: Seq<u8>, b: Seq<u8>)
    requires
        percent_encoded(a) == percent_encoded(b),
    ensures
        a == b,
    decreases a.len(),
{
    let p = percent_encoded(a);
    let q = percent_encoded(b);
    if a.len() == 0 || b.len() == 0 {
        if a.len() > 0 {
            assert(percent_byte(a[0]).len() > 0);
            assert(p.len() > 0);
        }
        if b.len() > 0 {
            assert(percent_byte(b[0]).len() > 0);
            assert(q.len() > 0);
        }
        assert(a =~= b);
    } else {
        let x = percent_byte(a[0]);
        let y = percent_byte(b[0]);
        assert(p[0] == x[0]);
        assert(q[0] == y[0]);
        assert(x.len() == y.len());
        assert(x =~= y) by {
            assert forall|i: int| 0 <= i < x.len() implies x[i] == y[i] by {
                assert(p[i] == x[i]);
                assert(q[i] == y[i]);
            }
        }
        percent_bytes_differ(a[0], b[0]);
        assert(percent_encoded(a.drop_first()) =~= p.skip(x.len() as int));
        assert(percent_encoded(b.drop_first()) =~= q.skip(y.len() as int));
        percent_encoding_is_unique(a.drop_first(), b.drop_first());
        assert(a =~= seq![a[0]] + a.drop_first());
        assert(b =~= seq![b[0]] + b.drop_first());
    }
}

/// Two keys of a bucket never share a copy source, whatever characters they
/// hold.
pub proof fn copy_sources_are_distinct(bucket: Seq<char>, a: Seq<char>, b: Seq<char>)
    requires
        a != b,
    ensures
        copy_source(bucket, a) != copy_source(bucket, b),
{
    let head = seq!['/'] + bucket + seq!['/'];
    let x = percent_encoded(encode_utf8(a));
    let y = percent_encoded(encode_utf8(b));
    if head + x == head + y {
        assert(x =~= (head + x).skip(head.len() as int));
        assert(y =~= (head + y).skip(head.len() as int));
        percent_encoding_is_unique(encode_utf8(a), encode_utf8(b));
        encode_utf8_decode_utf8(a);
        encode_utf8_decode_utf8(b);
    }
}

} // verus!
