//! The files of the disk cache: their names, the frame around a block, the
//! note of the block size, and the order in which blocks were used.

use crate::crc64::{checksum, crc64ecma, one_changed_byte_is_detected};
use crate::digits::{
    decimal, decimal_of, hex8, hex8_of, hex_of, number_of, numbers_read_back, numeral,
    numeral_digits, parse_number,
};
use crate::hashes::{
    fnv, fnv1a64, hex_decode, hex_digits, hex_encode, hex_reads_back, hex_text, is_hex, unhex,
};
use crate::paths::last_index;
use crate::text::{
    chars_of, ends_with, joined, same, starts_with, string_of, strip_prefix, texts,
};
use vstd::bytes::*;
use std::collections::VecDeque;
use vstd::prelude::*;
use vstd::slice::{slice_subrange, slice_to_vec};
use vstd::utf8::*;

verus! {

/// The version of the format.
pub const DISK_CACHE_META_VERSION: u64 = 2;

/// The name of the file of a block.
pub open spec fn block_name(key: Seq<char>, block: u64) -> Seq<char> {
    decimal(fnv(key) as nat) + "-"@ + hex8(block as nat) + ".blk"@
}

/// The name of the file that keeps an object's tag.
pub open spec fn etag_name(key: Seq<char>) -> Seq<char> {
    decimal(fnv(key) as nat) + ".etag"@
}

/// The name under which a block is written before it is moved into place.
pub open spec fn temporary_name(key: Seq<char>, block: u64) -> Seq<char> {
    ".tmp-"@ + numeral(fnv(key) as nat, 16) + "-"@ + hex8(block as nat)
}

/// What the names of all blocks of a key begin with.
pub open spec fn block_name_start(key: Seq<char>) -> Seq<char> {
    decimal(fnv(key) as nat) + "-"@
}

/// The name of the file of a block.
pub fn block_file(key: &str, block: u64) -> (r: String)
    ensures
        r@ == block_name(key@, block),
{
    let mut s = decimal_of(fnv1a64(key));
    s.append("-");
    s.append(hex8_of(block).as_str());
    s.append(".blk");
    s
}

/// The name of the file that keeps an object's tag.
pub fn etag_file(key: &str) -> (r: String)
    ensures
        r@ == etag_name(key@),
{
    joined(decimal_of(fnv1a64(key)).as_str(), ".etag")
}

/// The name under which a block is written before it is moved into place.
pub fn temporary_file(key: &str, block: u64) -> (r: String)
    ensures
        r@ == temporary_name(key@, block),
{
    let mut s = ".tmp-".to_owned();
    s.append(hex_of(fnv1a64(key)).as_str());
    s.append("-");
    s.append(hex8_of(block).as_str());
    s
}

/// The extension of a file name: what follows its last dot, unless the dot is
/// all that the name begins with.
pub open spec fn has_extension(name: Seq<char>, ext: Seq<char>) -> bool {
    last_index(name, '.') > 0 && name.skip(last_index(name, '.') + 1) == ext
}

fn extension_is(name: &str, ext: &str) -> (r: bool)
    ensures
        r == has_extension(name@, ext@),
{
    let v = chars_of(name);
    let mut i: usize = v.len();
    assert(v@.take(v@.len() as int) =~= name@);
    while i > 0
        invariant
            i <= v@.len(),
            v@ == name@,
            last_index(name@, '.') == last_index(v@.take(i as int), '.'),
        decreases i,
    {
        assert(v@.take(i as int).drop_last() =~= v@.take(i - 1));
        if v[i - 1] == '.' {
            if i == 1 {
                return false;
            }
            let rest = string_of(&v, i, v.len());
            assert(rest@ =~= name@.skip(i as int));
            return same(rest.as_str(), ext);
        }
        i -= 1;
    }
    false
}

/// Whether a file is a block.
pub fn is_block_file(name: &str) -> (r: bool)
    ensures
        r == has_extension(name@, "blk"@),
{
    extension_is(name, "blk")
}

/// Whether a file keeps an object's tag.
pub fn is_etag_file(name: &str) -> (r: bool)
    ensures
        r == has_extension(name@, "etag"@),
{
    extension_is(name, "etag")
}

/// Whether a file goes when the blocks are of another size now: the blocks,
/// the tags, and the order file.
pub fn is_stale_file(name: &str) -> (r: bool)
    ensures
        r == (has_extension(name@, "blk"@) || has_extension(name@, "etag"@) || name@
            == "lru.order"@),
{
    is_block_file(name) || is_etag_file(name) || same(name, "lru.order")
}

/// Whether a file is a block of this key, by its name.
pub fn is_block_file_of(name: &str, key: &str) -> (r: bool)
    ensures
        r == (has_extension(name@, "blk"@) && block_name_start(key@).is_prefix_of(name@)),
{
    let start = joined(decimal_of(fnv1a64(key)).as_str(), "-");
    is_block_file(name) && starts_with(name, start.as_str())
}

/// Where the first `c` stands in `s`, or the length of `s`.
pub open spec fn first_index(s: Seq<char>, c: char) -> int
    decreases s.len(),
{
    if s.len() == 0 || s[0] == c {
        0
    } else {
        1 + first_index(s.drop_first(), c)
    }
}

/// A line without the carriage return that may stand before its line feed.
pub open spec fn without_cr(s: Seq<char>) -> Seq<char> {
    if s.len() > 0 && s.last() == '\r' {
        s.drop_last()
    } else {
        s
    }
}

pub proof fn first_index_bound(s: Seq<char>, c: char)
    ensures
        0 <= first_index(s, c) <= s.len(),
        first_index(s, c) < s.len() ==> s[first_index(s, c)] == c,
        forall|i: int| 0 <= i < first_index(s, c) ==> s[i] != c,
    decreases s.len(),
{
    if s.len() > 0 && s[0] != c {
        first_index_bound(s.drop_first(), c);
        assert forall|i: int| 0 <= i < first_index(s, c) implies s[i] != c by {
            if i > 0 {
                assert(s[i] == s.drop_first()[i - 1]);
            }
        }
    }
}

/// The lines of a text. The last one may lack its line feed, and then keeps a
/// carriage return.
pub open spec fn lines(s: Seq<char>) -> Seq<Seq<char>>
    decreases s.len(),
{
    if s.len() == 0 {
        Seq::empty()
    } else if first_index(s, '\n') >= s.len() {
        seq![s]
    } else {
        proof {
            first_index_bound(s, '\n');
        }
        seq![without_cr(s.take(first_index(s, '\n')))] + lines(
            s.skip(first_index(s, '\n') + 1),
        )
    }
}

proof fn lines_of_terminated(head: Seq<char>, rest: Seq<char>)
    requires
        !head.contains('\n'),
        head.len() == 0 || head.last() != '\r',
    ensures
        lines(head.push('\n') + rest) == seq![head] + lines(rest),
{
    let s = head.push('\n') + rest;
    first_index_bound(s, '\n');
    let i = first_index(s, '\n');
    assert(i == head.len()) by {
        if i < head.len() {
            assert(s[i] == head[i]);
        }
        if i > head.len() {
            assert(s[head.len() as int] == '\n');
        }
    }
    assert(s.take(i) =~= head);
    assert(s.skip(i + 1) =~= rest);
}

fn first_index_from(v: &Vec<char>, from: usize, c: char) -> (r: usize)
    requires
        from <= v@.len(),
    ensures
        r == from + first_index(v@.skip(from as int), c),
        from <= r <= v@.len(),
{
    let mut i: usize = from;
    while i < v.len()
        invariant
            from <= i <= v@.len(),
            first_index(v@.skip(from as int), c) == i - from + first_index(v@.skip(i as int), c),
        decreases v@.len() - i,
    {
        assert(v@.skip(i as int)[0] == v@[i as int]);
        if v[i] == c {
            return i;
        }
        assert(v@.skip(i as int).drop_first() =~= v@.skip(i + 1));
        i += 1;
    }
    i
}

/// The lines of a text.
pub fn lines_of(s: &str) -> (r: Vec<String>)
    ensures
        texts(r@) == lines(s@),
{
    let v = chars_of(s);
    let mut out: Vec<String> = Vec::new();
    let mut from: usize = 0;
    assert(v@.skip(0) =~= s@);
    assert(texts(out@) + lines(v@.skip(0)) =~= lines(s@));
    while from < v.len()
        invariant
            v@ == s@,
            from <= v@.len(),
            texts(out@) + lines(v@.skip(from as int)) == lines(s@),
        decreases v@.len() - from,
    {
        let ghost out0 = out@;
        let ghost rest = v@.skip(from as int);
        let end: usize = first_index_from(&v, from, '\n');
        if end == v.len() {
            let line = string_of(&v, from, end);
            assert(line@ =~= rest);
            out.push(line);
            proof {
                assert(texts(out@) =~= texts(out0).push(line@));
                assert(lines(rest) == seq![rest]);
                assert(v@.skip(v@.len() as int) =~= Seq::<char>::empty());
                assert(lines(v@.skip(v@.len() as int)) =~= Seq::<Seq<char>>::empty());
                assert(texts(out@) + lines(v@.skip(v@.len() as int)) =~= lines(s@));
            }
            from = end;
        } else {
            let stop: usize = if end > from && v[end - 1] == '\r' {
                end - 1
            } else {
                end
            };
            let line = string_of(&v, from, stop);
            proof {
                let i = first_index(rest, '\n');
                assert(rest.take(i) =~= v@.subrange(from as int, end as int));
                assert(line@ =~= without_cr(rest.take(i)));
                assert(rest.skip(i + 1) =~= v@.skip(end + 1));
            }
            out.push(line);
            proof {
                assert(texts(out@) =~= texts(out0).push(line@));
                assert(texts(out@) + lines(v@.skip(end + 1)) =~= texts(out0) + lines(rest));
            }
            from = end + 1;
        }
    }
    assert(v@.skip(from as int) =~= Seq::<char>::empty());
    assert(texts(out@) + lines(v@.skip(from as int)) =~= texts(out@));
    out
}

/// What the note of the block size says, line by line: the version and the
/// block size. Of several lines of a kind the last one counts.
pub open spec fn meta_of(ls: Seq<Seq<char>>) -> (Option<u64>, Option<u64>)
    decreases ls.len(),
{
    if ls.len() == 0 {
        (None, None)
    } else {
        let (version, block_size) = meta_of(ls.drop_last());
        let l = ls.last();
        if "version="@.is_prefix_of(l) {
            (number_of(l.skip("version="@.len() as int), 10), block_size)
        } else if "block_size="@.is_prefix_of(l) {
            (version, number_of(l.skip("block_size="@.len() as int), 10))
        } else {
            (version, block_size)
        }
    }
}

/// Blocks of that size can be used again: the note is there and names this
/// version and this size.
pub open spec fn reusable(note: Option<Seq<char>>, block_size: u64) -> bool {
    match note {
        Some(raw) => meta_of(lines(raw)) == (Some(DISK_CACHE_META_VERSION), Some(block_size)),
        None => false,
    }
}

/// Whether the blocks that are there can be used again.
pub fn blocks_reusable(note: Option<&str>, block_size: u64) -> (r: bool)
    ensures
        r == reusable(
            match note {
                Some(raw) => Some(raw@),
                None => None,
            },
            block_size,
        ),
{
    let raw = match note {
        Some(raw) => raw,
        None => {
            return false;
        },
    };
    let ls = lines_of(raw);
    let mut version: Option<u64> = None;
    let mut size: Option<u64> = None;
    let mut i: usize = 0;
    assert(texts(ls@).take(0) =~= Seq::<Seq<char>>::empty());
    while i < ls.len()
        invariant
            i <= ls@.len(),
            (version, size) == meta_of(texts(ls@).take(i as int)),
        decreases ls@.len() - i,
    {
        proof {
            assert(texts(ls@).take(i + 1).drop_last() =~= texts(ls@).take(i as int));
            assert(texts(ls@).take(i + 1).last() == ls@[i as int]@);
        }
        match strip_prefix(ls[i].as_str(), "version=") {
            Some(v) => {
                version = parse_number(v.as_str(), 10);
            },
            None => match strip_prefix(ls[i].as_str(), "block_size=") {
                Some(v) => {
                    size = parse_number(v.as_str(), 10);
                },
                None => {},
            },
        }
        i += 1;
    }
    assert(texts(ls@).take(ls@.len() as int) =~= texts(ls@));
    match (version, size) {
        (Some(v), Some(b)) => v == DISK_CACHE_META_VERSION && b == block_size,
        _ => false,
    }
}

/// The note of a block size.
pub open spec fn meta_text(block_size: u64) -> Seq<char> {
    "version=2"@.push('\n') + ("block_size="@ + decimal(block_size as nat)).push('\n')
}

/// The note of a block size.
pub fn meta_note(block_size: u64) -> (r: String)
    ensures
        r@ == meta_text(block_size),
{
    let mut s = "version=2".to_owned();
    s.push('\n');
    s.append("block_size=");
    s.append(decimal_of(block_size).as_str());
    s.push('\n');
    assert(s@ =~= meta_text(block_size));
    s
}

/// What a line of the order file says: a block number, a blank, and a key in
/// hexadecimal. Any other line says nothing.
pub open spec fn order_entry(l: Seq<char>) -> Option<(Seq<char>, u64)> {
    let i = first_index(l, ' ');
    if i >= l.len() {
        None
    } else {
        let hex = encode_utf8(l.skip(i + 1));
        match number_of(l.take(i), 10) {
            Some(block) => if is_hex(hex) && valid_utf8(unhex(hex)) {
                Some((decode_utf8(unhex(hex)), block))
            } else {
                None
            },
            None => None,
        }
    }
}

/// The blocks that an order file lists.
pub open spec fn order_of(raw: Seq<char>) -> Seq<(Seq<char>, u64)> {
    lines(raw).filter_map(|l: Seq<char>| order_entry(l))
}

/// A line of the order file, without its line feed.
pub open spec fn order_line(key: Seq<char>, block: u64) -> Seq<char> {
    decimal(block as nat) + " "@ + hex_text(encode_utf8(key))
}

/// The order file for a list of blocks.
pub open spec fn order_text(order: Seq<(Seq<char>, u64)>) -> Seq<char>
    decreases order.len(),
{
    if order.len() == 0 {
        Seq::empty()
    } else {
        order_line(order[0].0, order[0].1).push('\n') + order_text(order.drop_first())
    }
}

/// What a list of blocks holds.
pub open spec fn order_view(v: Seq<(String, u64)>) -> Seq<(Seq<char>, u64)> {
    v.map_values(|e: (String, u64)| (e.0@, e.1))
}

fn parse_order_line(l: &str) -> (r: Option<(String, u64)>)
    ensures
        r is Some <==> order_entry(l@) is Some,
        r is Some ==> ((r->0).0@, (r->0).1) == order_entry(l@)->0,
{
    let v = chars_of(l);
    let i: usize = first_index_from(&v, 0, ' ');
    assert(v@.skip(0) =~= l@);
    if i == v.len() {
        return None;
    }
    let number = string_of(&v, 0, i);
    let hex = string_of(&v, i + 1, v.len());
    proof {
        assert(number@ =~= l@.take(i as int));
        assert(hex@ =~= l@.skip(i + 1));
    }
    match parse_number(number.as_str(), 10) {
        None => None,
        Some(block) => match hex_decode(hex.as_str()) {
            None => None,
            Some(key) => Some((key, block)),
        },
    }
}

/// The blocks that an order file lists, the one used longest ago first.
pub fn parse_order(raw: &str) -> (r: Vec<(String, u64)>)
    ensures
        order_view(r@) == order_of(raw@),
{
    let ls = lines_of(raw);
    let ghost f = |l: Seq<char>| order_entry(l);
    let ghost all = lines(raw@);
    let mut out: Vec<(String, u64)> = Vec::new();
    let mut i: usize = 0;
    assert(all.take(0).filter_map(f) =~= Seq::<(Seq<char>, u64)>::empty());
    assert(order_view(out@) =~= all.take(0).filter_map(f));
    while i < ls.len()
        invariant
            i <= ls@.len(),
            all == texts(ls@),
            f == (|l: Seq<char>| order_entry(l)),
            order_view(out@) == all.take(i as int).filter_map(f),
        decreases ls@.len() - i,
    {
        let ghost out0 = out@;
        proof {
            all.lemma_filter_map_take_succ(f, i as int);
            assert(all[i as int] == ls@[i as int]@);
        }
        match parse_order_line(ls[i].as_str()) {
            Some(e) => {
                out.push(e);
                assert(order_view(out@) =~= order_view(out0).push((e.0@, e.1)));
            },
            None => {},
        }
        assert(order_view(out@) =~= all.take(i + 1).filter_map(f));
        i += 1;
    }
    assert(all.take(all.len() as int) =~= all);
    out
}

proof fn order_text_append(order: Seq<(Seq<char>, u64)>, e: (Seq<char>, u64))
    ensures
        order_text(order.push(e)) == order_text(order) + order_line(e.0, e.1).push('\n'),
    decreases order.len(),
{
    if order.len() == 0 {
        assert(order.push(e).drop_first() =~= order);
        assert(order_text(order.push(e)) =~= order_text(order) + order_line(e.0, e.1).push('\n'));
    } else {
        assert(order.push(e).drop_first() =~= order.drop_first().push(e));
        order_text_append(order.drop_first(), e);
        assert(order_text(order.push(e)) =~= order_text(order) + order_line(e.0, e.1).push('\n'));
    }
}

/// The order file for a list of blocks.
pub fn format_order(order: &VecDeque<(String, u64)>) -> (r: String)
    ensures
        r@ == order_text(order_view(order@)),
{
    let ghost all = order_view(order@);
    let mut out = String::new();
    let mut i: usize = 0;
    assert(all.take(0) =~= Seq::<(Seq<char>, u64)>::empty());
    while i < order.len()
        invariant
            i <= order@.len(),
            all == order_view(order@),
            out@ == order_text(all.take(i as int)),
        decreases order@.len() - i,
    {
        let ghost out0 = out@;
        out.append(decimal_of(order[i].1).as_str());
        out.append(" ");
        out.append(hex_encode(order[i].0.as_str()).as_str());
        out.push('\n');
        proof {
            let e = all[i as int];
            order_text_append(all.take(i as int), e);
            assert(all.take(i + 1) =~= all.take(i as int).push(e));
            assert(out@ =~= out0 + order_line(e.0, e.1).push('\n'));
        }
        i += 1;
    }
    assert(all.take(all.len() as int) =~= all);
    out
}

proof fn order_line_reads_back(key: Seq<char>, block: u64)
    ensures
        order_entry(order_line(key, block)) == Some((key, block)),
        !order_line(key, block).contains('\n'),
        order_line(key, block).last() != '\r',
        order_line(key, block).len() > 0,
{
    let d = decimal(block as nat);
    let h = hex_text(encode_utf8(key));
    let l = order_line(key, block);
    reveal_strlit(" ");
    assert(" "@ =~= seq![' ']);
    numbers_read_back(block, 10);
    numeral_digits(block as nat, 10);
    hex_digits(encode_utf8(key));
    first_index_bound(l, ' ');
    let i = first_index(l, ' ');
    assert(i == d.len()) by {
        if i < d.len() {
            assert(l[i] == d[i]);
        }
        if i > d.len() {
            assert(l[d.len() as int] == ' ');
        }
    }
    assert(l.take(i) =~= d);
    assert(l.skip(i + 1) =~= h);
    hex_reads_back(key);
    assert forall|k: int| 0 <= k < l.len() implies l[k] != '\n' && l[k] != '\r' by {
        if k < d.len() {
            assert(l[k] == d[k]);
        } else if k > d.len() {
            assert(l[k] == h[k - d.len() - 1]);
        }
    }
}

/// An order file that was written lists the same blocks in the same order when
/// it is read.
pub proof fn order_reads_back(order: Seq<(Seq<char>, u64)>)
    ensures
        order_of(order_text(order)) == order,
    decreases order.len(),
{
    let f = |l: Seq<char>| order_entry(l);
    if order.len() == 0 {
        assert(lines(order_text(order)) =~= Seq::<Seq<char>>::empty());
        assert(order_of(order_text(order)) =~= order);
    } else {
        let l = order_line(order[0].0, order[0].1);
        let rest = order_text(order.drop_first());
        order_line_reads_back(order[0].0, order[0].1);
        lines_of_terminated(l, rest);
        order_reads_back(order.drop_first());
        let ls = lines(rest);
        filter_map_front(l, ls, f);
        assert(order =~= seq![order[0]] + order.drop_first());
    }
}

proof fn filter_map_front(l: Seq<char>, ls: Seq<Seq<char>>, f: spec_fn(Seq<char>) -> Option<(Seq<char>, u64)>)
    requires
        f(l) is Some,
    ensures
        (seq![l] + ls).filter_map(f) == seq![f(l)->0] + ls.filter_map(f),
    decreases ls.len(),
{
    reveal_with_fuel(Seq::filter_map, 2);
    if ls.len() == 0 {
        assert(seq![l] + ls =~= seq![l]);
        assert(seq![l].drop_last() =~= Seq::<Seq<char>>::empty());
        assert((seq![l] + ls).filter_map(f) =~= seq![f(l)->0] + ls.filter_map(f));
    } else {
        filter_map_front(l, ls.drop_last(), f);
        assert((seq![l] + ls).drop_last() =~= seq![l] + ls.drop_last());
        assert((seq![l] + ls).last() == ls.last());
        assert((seq![l] + ls).filter_map(f) =~= seq![f(l)->0] + ls.filter_map(f));
    }
}

/// A note that was written lets the blocks of its size be used again, and
/// those of no other size.
pub proof fn meta_reads_back(block_size: u64, requested: u64)
    ensures
        reusable(Some(meta_text(block_size)), requested) <==> requested == block_size,
{
    reveal_strlit("version=2");
    reveal_strlit("version=");
    reveal_strlit("block_size=");
    let first = "version=2"@;
    let second = "block_size="@ + decimal(block_size as nat);
    numbers_read_back(block_size, 10);
    numbers_read_back(2, 10);
    numeral_digits(block_size as nat, 10);
    let d = decimal(block_size as nat);
    assert forall|k: int| 0 <= k < second.len() implies second[k] != '\n' && second[k] != '\r' by {
        if k >= 11 {
            assert(second[k] == d[k - 11]);
        }
    }
    let tail = second.push('\n') + Seq::<char>::empty();
    assert(tail =~= second.push('\n'));
    lines_of_terminated(second, Seq::empty());
    lines_of_terminated(first, second.push('\n'));
    assert(lines(Seq::<char>::empty()) =~= Seq::<Seq<char>>::empty());
    let ls = lines(meta_text(block_size));
    assert(ls =~= seq![first, second]);
    assert(ls.drop_last() =~= seq![first]);
    assert(ls.drop_last().drop_last() =~= Seq::<Seq<char>>::empty());
    assert("version="@.is_prefix_of(first));
    assert(first.skip(8) =~= decimal(2)) by {
        assert(decimal(2) =~= seq!['2']);
    }
    assert(!"version="@.is_prefix_of(second)) by {
        assert(second[0] == 'b');
        assert(second.subrange(0, 8)[0] == second[0]);
    }
    assert("block_size="@.is_prefix_of(second));
    assert(second.skip(11) =~= d);
    assert(meta_of(ls.drop_last().drop_last()) == (None::<u64>, None::<u64>));
    assert(meta_of(ls.drop_last()) == (Some(2u64), None::<u64>));
    assert(meta_of(ls) == (Some(2u64), Some(block_size)));
}

/// A block as it is written: the length of its key in four bytes, the key, the
/// checksum of the data in eight, the data.
pub open spec fn framed(key: Seq<char>, data: Seq<u8>) -> Seq<u8> {
    spec_u32_to_le_bytes(encode_utf8(key).len() as u32) + encode_utf8(key) + spec_u64_to_le_bytes(
        checksum(data),
    ) + data
}

/// The bytes that a key takes up.
pub open spec fn key_size(key: Seq<char>) -> int {
    encode_utf8(key).len() as int
}

/// The size of a block as it is written, as far as that can be counted.
pub open spec fn framed_len(key: Seq<char>, data_len: nat) -> nat {
    4 + encode_utf8(key).len() + 8 + data_len
}

/// A block as it is written.
pub fn frame_block(key: &str, data: &[u8]) -> (r: Vec<u8>)
    ensures
        r@ == framed(key@, data@),
{
    let bytes = key.as_bytes();
    let len: usize = bytes.len();
    let mut out = u32_to_le_bytes(
        #[verifier::truncate]
        (len as u32),
    );
    out.extend_from_slice(bytes);
    let crc: u64 = crc64ecma(data);
    let mut tail = u64_to_le_bytes(crc);
    out.append(&mut tail);
    out.extend_from_slice(data);
    assert(out@ =~= framed(key@, data@));
    out
}

/// What reading a block's file gives.
#[derive(Debug, PartialEq, Eq)]
pub enum Unframed {
    /// Not a block: too short even for the lengths and the checksum.
    TooShort,
    /// The block of another key, or a broken one: the file is of no use.
    Useless,
    /// The data.
    Data { data: Vec<u8> },
}

/// The length that a block's file gives for its key.
pub open spec fn key_len(raw: Seq<u8>) -> int {
    spec_u32_from_le_bytes(raw.subrange(0, 4)) as int
}

/// The file holds a whole block of this key.
pub open spec fn holds_block_of(raw: Seq<u8>, key: Seq<char>) -> bool {
    let n = key_len(raw);
    &&& raw.len() >= 4 + n + 8
    &&& raw.subrange(4, 4 + n) == encode_utf8(key)
    &&& checksum(raw.skip(4 + n + 8)) == spec_u64_from_le_bytes(raw.subrange(4 + n, 4 + n + 8))
}

fn same_bytes(a: &[u8], b: &[u8]) -> (r: bool)
    ensures
        r == (a@ == b@),
{
    if a.len() != b.len() {
        return false;
    }
    let mut i: usize = 0;
    while i < a.len()
        invariant
            a@.len() == b@.len(),
            i <= a@.len(),
            forall|k: int| 0 <= k < i ==> a@[k] == b@[k],
        decreases a@.len() - i,
    {
        if a[i] != b[i] {
            return false;
        }
        i += 1;
    }
    assert(a@ =~= b@);
    true
}

/// What a block's file holds for `key`.
pub fn unframe_block(key: &str, raw: &[u8]) -> (r: Unframed)
    ensures
        raw@.len() < 12 ==> r is TooShort,
        raw@.len() >= 12 && !holds_block_of(raw@, key@) ==> r is Useless,
        raw@.len() >= 12 && holds_block_of(raw@, key@) ==> r is Data && r->data@ == raw@.skip(
            4 + key_len(raw@) + 8,
        ),
{
    if raw.len() < 12 {
        return Unframed::TooShort;
    }
    let klen: u32 = u32_from_le_bytes(slice_subrange(raw, 0, 4));
    if klen as u64 > raw.len() as u64 - 12 {
        return Unframed::Useless;
    }
    let n: usize = klen as usize;
    if !same_bytes(slice_subrange(raw, 4, 4 + n), key.as_bytes()) {
        return Unframed::Useless;
    }
    let crc: u64 = u64_from_le_bytes(slice_subrange(raw, 4 + n, 4 + n + 8));
    let data = slice_subrange(raw, 4 + n + 8, raw.len());
    assert(data@ =~= raw@.skip(4 + n + 8));
    if crc64ecma(data) != crc {
        return Unframed::Useless;
    }
    Unframed::Data { data: slice_to_vec(data) }
}

proof fn frame_parts(key: Seq<char>, data: Seq<u8>)
    requires
        key_size(key) <= u32::MAX,
    ensures
        framed(key, data).len() == framed_len(key, data.len()),
        key_len(framed(key, data)) == key_size(key),
        framed(key, data).subrange(4, 4 + key_size(key)) == encode_utf8(key),
        framed(key, data).subrange(
            4 + key_size(key),
            4 + key_size(key) + 8,
        ) == spec_u64_to_le_bytes(checksum(data)),
        framed(key, data).skip(4 + key_size(key) + 8) == data,
{
    lemma_auto_spec_u32_to_from_le_bytes();
    lemma_auto_spec_u64_to_from_le_bytes();
    let k = encode_utf8(key);
    let a = spec_u32_to_le_bytes(k.len() as u32);
    let c = spec_u64_to_le_bytes(checksum(data));
    let raw = framed(key, data);
    assert(a.len() == 4);
    assert(c.len() == 8);
    assert(raw.subrange(0, 4) =~= a);
    assert(raw.subrange(4, 4 + key_size(key)) =~= k);
    assert(raw.subrange(4 + key_size(key), 4 + key_size(key) + 8) =~= c);
    assert(raw.skip(4 + key_size(key) + 8) =~= data);
}

/// A block that was written for a key reads back for that key, and for no
/// other: two keys that share a file name are told apart.
pub proof fn frames_read_back(key: Seq<char>, data: Seq<u8>, other: Seq<char>)
    requires
        key_size(key) <= u32::MAX,
    ensures
        framed(key, data).len() >= 12,
        holds_block_of(framed(key, data), key),
        framed(key, data).skip(4 + key_len(framed(key, data)) + 8) == data,
        holds_block_of(framed(key, data), other) ==> other == key,
{
    frame_parts(key, data);
    lemma_auto_spec_u64_to_from_le_bytes();
    encode_utf8_decode_utf8(key);
    encode_utf8_decode_utf8(other);
}

/// A block one byte of whose data has changed on the disk is not read back.
pub proof fn broken_blocks_are_detected(key: Seq<char>, data: Seq<u8>, i: int, x: u8)
    requires
        key_size(key) <= u32::MAX,
        0 <= i < data.len(),
        x != data[i],
    ensures
        !holds_block_of(
            framed(key, data).update(4 + key_size(key) + 8 + i, x),
            key,
        ),
{
    frame_parts(key, data);
    lemma_auto_spec_u64_to_from_le_bytes();
    let n = encode_utf8(key).len() as int;
    let raw = framed(key, data);
    let bad = raw.update(4 + n + 8 + i, x);
    assert(bad.subrange(0, 4) =~= raw.subrange(0, 4));
    assert(bad.subrange(4 + n, 4 + n + 8) =~= raw.subrange(4 + n, 4 + n + 8));
    assert(bad.skip(4 + n + 8) =~= data.update(i, x));
    one_changed_byte_is_detected(data, i, x);
}

/// The block that a file holds, from its name and its content, where nothing
/// is known of it: a block file's name gives the number after its last dash,
/// and its content begins with the key.
pub open spec fn block_of_file(name: Seq<char>, raw: Seq<u8>) -> Option<(Seq<u8>, u64)> {
    let stem = if ".blk"@.is_suffix_of(name) {
        name.take(name.len() - 4)
    } else {
        name
    };
    let i = last_index(stem, '-');
    if !has_extension(name, "blk"@) || i < 0 || raw.len() < 4 || raw.len() < 4 + key_len(raw) {
        None
    } else {
        match number_of(stem.skip(i + 1), 16) {
            Some(block) => Some((raw.subrange(4, 4 + key_len(raw)), block)),
            None => None,
        }
    }
}

fn last_dash(v: &Vec<char>, n: usize) -> (r: Option<usize>)
    requires
        n <= v@.len(),
    ensures
        r is None ==> last_index(v@.take(n as int), '-') == -1,
        r is Some ==> last_index(v@.take(n as int), '-') == r->0 && r->0 < n,
{
    let mut i: usize = n;
    while i > 0
        invariant
            i <= n <= v@.len(),
            last_index(v@.take(n as int), '-') == last_index(v@.take(i as int), '-'),
        decreases i,
    {
        assert(v@.take(i as int).drop_last() =~= v@.take(i - 1));
        if v[i - 1] == '-' {
            return Some(i - 1);
        }
        i -= 1;
    }
    None
}

/// The key's bytes and the number of the block that a file holds.
pub fn parse_block_file(name: &str, raw: &[u8]) -> (r: Option<(Vec<u8>, u64)>)
    ensures
        r is Some <==> block_of_file(name@, raw@) is Some,
        r is Some ==> ((r->0).0@, (r->0).1) == block_of_file(name@, raw@)->0,
{
    if !is_block_file(name) {
        return None;
    }
    let v = chars_of(name);
    proof {
        reveal_strlit(".blk");
    }
    let n: usize = if ends_with(name, ".blk") {
        v.len() - 4
    } else {
        v.len()
    };
    let ghost stem = if ".blk"@.is_suffix_of(name@) {
        name@.take(name@.len() - 4)
    } else {
        name@
    };
    assert(v@.take(n as int) =~= stem);
    let i: usize = match last_dash(&v, n) {
        Some(i) => i,
        None => {
            return None;
        },
    };
    let digits = string_of(&v, i + 1, n);
    assert(digits@ =~= stem.skip(i + 1));
    let block: u64 = match parse_number(digits.as_str(), 16) {
        Some(block) => block,
        None => {
            return None;
        },
    };
    if raw.len() < 4 {
        return None;
    }
    let klen: u32 = u32_from_le_bytes(slice_subrange(raw, 0, 4));
    if klen as u64 > raw.len() as u64 - 4 {
        return None;
    }
    let key = slice_subrange(raw, 4, 4 + klen as usize);
    Some((slice_to_vec(key), block))
}

} // verus!
