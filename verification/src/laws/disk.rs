//! What the disk cache hands out is what was put in, for the key it was put in
//! for, and it goes in the order of use.

use crate::crc64::checksums_are_remainders;
use crate::digits::{
    all_digits, decimal, hex8, number_of, numeral, padded_numbers_read_back, unsigned_part,
};
use crate::disk_cache::{found_block, total, without_first, BlockLookup, DiskCache};
use crate::disk_format::{
    block_file, blocks_reusable, broken_blocks_are_detected, etag_file, first_index,
    first_index_bound, frame_block, frames_read_back, is_block_file, is_block_file_of,
    is_etag_file, is_stale_file, lines, lines_of, meta_note, meta_of, meta_reads_back,
    order_entry, order_reads_back, order_view, parse_block_file, parse_order, temporary_file,
    unframe_block, without_cr, Unframed,
};
use crate::fetching::lossy_text;
use crate::hashes::{
    fnv, fnv1a64, hex_decode, hex_digits, hex_encode, hex_reads_back, hex_value, unhex,
};
use crate::laws::listings::begins;
use crate::laws::numbers::{digits_are_read, hex_digit, place, plain_digit, worth, written_in};
use crate::laws::paths::last_index_is;
use crate::laws::uploads::is_checksum;
use crate::paths::last_index;
use crate::text::texts;
use vstd::bytes::*;
use vstd::prelude::*;
use vstd::utf8::*;

verus! {

/// A file for a block holds the length of the key, the key, the checksum of
/// the data and the data, in this order and with nothing between.
pub proof fn frames_hold_key_checksum_and_data(key: &str, data: &[u8], r: Vec<u8>)
    requires
        call_ensures(frame_block, (key, data), r),
        encode_utf8(key@).len() <= u32::MAX,
    ensures
        ({
            let n = encode_utf8(key@).len() as int;
            &&& r@.len() == 4 + n + 8 + data@.len()
            &&& spec_u32_from_le_bytes(r@.subrange(0, 4)) == n
            &&& r@.subrange(4, 4 + n) == encode_utf8(key@)
            &&& is_checksum(spec_u64_from_le_bytes(r@.subrange(4 + n, 4 + n + 8)), data@)
            &&& r@.skip(4 + n + 8) == data@
        }),
{
    lemma_auto_spec_u32_to_from_le_bytes();
    lemma_auto_spec_u64_to_from_le_bytes();
    frames_read_back(key@, data@, key@);
    checksums_are_remainders(data@);
    let n = encode_utf8(key@).len() as int;
    let raw = r@;
    assert(raw.subrange(0, 4) =~= spec_u32_to_le_bytes(n as u32));
    assert(raw.subrange(4, 4 + n) =~= encode_utf8(key@));
    assert(raw.skip(4 + n + 8) =~= data@);
}

/// Data that is read from a file is what stands in it behind the key that was
/// asked for, and has the checksum that the file gives.
pub proof fn only_whole_blocks_are_read(key: &str, raw: &[u8], r: Unframed)
    requires
        call_ensures(unframe_block, (key, raw), r),
    ensures
        r is TooShort <==> raw@.len() < 12,
        r matches Unframed::Data { data } ==> {
            let n = encode_utf8(key@).len() as int;
            &&& raw@.len() == 4 + n + 8 + data@.len()
            &&& spec_u32_from_le_bytes(raw@.subrange(0, 4)) == n
            &&& raw@.subrange(4, 4 + n) == encode_utf8(key@)
            &&& is_checksum(spec_u64_from_le_bytes(raw@.subrange(4 + n, 4 + n + 8)), data@)
            &&& data@ == raw@.skip(4 + n + 8)
        },
{
    if r is Data {
        let n = spec_u32_from_le_bytes(raw@.subrange(0, 4)) as int;
        assert(raw@.subrange(4, 4 + n).len() == encode_utf8(key@).len());
        checksums_are_remainders(r->data@);
    }
}

/// A block that was put in for a key is found for that key, is broken for any
/// other, and is broken once a byte of its data has changed.
pub proof fn blocks_read_back(
    key: &str,
    data: &[u8],
    raw: Vec<u8>,
    cache: &mut DiskCache,
    asked: &str,
    block: u64,
    found: &[u8],
    r: BlockLookup,
    i: int,
    x: u8,
)
    requires
        call_ensures(frame_block, (key, data), raw),
        encode_utf8(key@).len() <= u32::MAX,
        call_ensures(DiskCache::read_block, (cache, asked, block, Some(found)), r),
    ensures
        found@ == raw@ && asked@ == key@ ==> r is Hit && r->data@ == data@,
        found@ == raw@ && asked@ != key@ ==> r is Broken,
        0 <= i < data@.len() && x != data@[i] && asked@ == key@ && found@ == raw@.update(
            4 + encode_utf8(key@).len() + 8 + i,
            x,
        ) ==> r is Broken,
        r is Broken ==> final(cache).listed() == old(cache).listed(),
        r is Hit ==> final(cache).listed().len() > 0 && final(cache).listed().last() == (
            asked@,
            block,
        ),
        final(cache).used == old(cache).used,
{
    frames_read_back(key@, data@, asked@);
    if 0 <= i < data@.len() && x != data@[i] {
        broken_blocks_are_detected(key@, data@, i, x);
    }
}

/// Where there is no file there is no block.
pub proof fn missing_files_are_misses(
    cache: &mut DiskCache,
    key: &str,
    block: u64,
    r: BlockLookup,
)
    requires
        call_ensures(DiskCache::read_block, (cache, key, block, None), r),
    ensures
        r is Miss,
        final(cache).listed() == old(cache).listed(),
{
}

/// A block is not written where it is known that less would be free after it
/// than has to be, and is written everywhere else.
pub proof fn blocks_are_written_where_there_is_room(
    cache: &DiskCache,
    key: &str,
    data: &[u8],
    available: Option<u64>,
    raw: Vec<u8>,
    r: Option<Vec<u8>>,
)
    requires
        call_ensures(frame_block, (key, data), raw),
        call_ensures(DiskCache::block_to_write, (cache, key, data, available), r),
    ensures
        r matches Some(file) ==> file@ == raw@,
        r is None <==> {
            &&& cache.min_free_bytes > 0
            &&& available is Some
            &&& available->0 < cache.min_free_bytes + raw@.len()
        },
{
    lemma_auto_spec_u32_to_from_le_bytes();
    lemma_auto_spec_u64_to_from_le_bytes();
}

proof fn first_gone<T>(a: Seq<T>, e: T, b: Seq<T>)
    requires
        !a.contains(e),
    ensures
        without_first(a + seq![e] + b, e) == a + b,
    decreases a.len(),
{
    let s = a + seq![e] + b;
    if a.len() == 0 {
        assert(s[0] == e);
        assert(s.drop_first() =~= a + b);
    } else {
        assert(s[0] == a[0]);
        assert(a.contains(a[0]));
        let rest = a.drop_first();
        assert(!rest.contains(e)) by {
            if rest.contains(e) {
                let i = rest.index_of(e);
                assert(a[i + 1] == e);
            }
        }
        first_gone(rest, e, b);
        assert(s.drop_first() =~= rest + seq![e] + b);
        assert(seq![a[0]] + (rest + b) =~= a + b);
    }
}

proof fn none_gone<T>(s: Seq<T>, e: T)
    requires
        !s.contains(e),
    ensures
        without_first(s, e) == s,
    decreases s.len(),
{
    if s.len() > 0 {
        assert(s.contains(s[0]));
        let rest = s.drop_first();
        assert(!rest.contains(e)) by {
            if rest.contains(e) {
                let i = rest.index_of(e);
                assert(s[i + 1] == e);
            }
        }
        none_gone(rest, e);
        assert(seq![s[0]] + rest =~= s);
    }
}

/// A block that is used moves behind all others, which keep their order; one
/// that was not listed is listed last.
pub proof fn used_blocks_move_to_the_end(
    cache: &mut DiskCache,
    key: &str,
    block: u64,
    a: Seq<(Seq<char>, u64)>,
    b: Seq<(Seq<char>, u64)>,
)
    requires
        call_ensures(DiskCache::touch, (cache, key, block), ()),
        !a.contains((key@, block)),
    ensures
        old(cache).listed() == a + seq![(key@, block)] + b ==> final(cache).listed() == a + b
            + seq![(key@, block)],
        old(cache).listed() == a ==> final(cache).listed() == a + seq![(key@, block)],
        final(cache).used == old(cache).used,
{
    let e = (key@, block);
    first_gone(a, e, b);
    none_gone(a, e);
    assert((a + b).push(e) =~= a + b + seq![e]);
    assert(a.push(e) =~= a + seq![e]);
}

/// A block that is found, and one that is written, counts as used.
pub proof fn blocks_found_and_written_are_used(
    cache: &mut DiskCache,
    key: &str,
    block: u64,
    found: &mut DiskCache,
    raw: Option<&[u8]>,
    r: BlockLookup,
    written: &mut DiskCache,
    bytes: u64,
    replaced: u64,
    full: bool,
)
    requires
        call_ensures(DiskCache::touch, (cache, key, block), ()),
        old(found).listed() == old(cache).listed(),
        call_ensures(DiskCache::read_block, (found, key, block, raw), r),
        old(written).listed() == old(cache).listed(),
        call_ensures(DiskCache::block_written, (written, key, block, bytes, replaced), full),
    ensures
        r is Hit ==> final(found).listed() == final(cache).listed(),
        !(r is Hit) ==> final(found).listed() == old(found).listed(),
        final(written).listed() == final(cache).listed(),
{
}

/// What goes is the block used longest ago, and nothing goes as long as there
/// is room.
pub proof fn the_longest_unused_block_goes(
    cache: &mut DiskCache,
    r: Option<(String, u64)>,
)
    requires
        call_ensures(DiskCache::evict_next, (cache,), r),
    ensures
        old(cache).used <= old(cache).max_bytes ==> r is None,
        old(cache).used > old(cache).max_bytes && old(cache).listed().len() > 0 ==> r is Some,
        r matches Some((key, block)) ==> old(cache).listed() == seq![(key@, block)]
            + final(cache).listed(),
        r is None ==> final(cache).listed() == old(cache).listed(),
{
    if r is Some {
        let l = old(cache).listed();
        assert(l =~= seq![l[0]] + l.drop_first());
    }
}

/// The bytes in use are those of the files: a block that is written counts in
/// place of the one it replaced, one that goes counts no more, and a count
/// that is made anew is the sum.
pub proof fn used_bytes_are_those_of_the_files(
    written: &mut DiskCache,
    key: &str,
    block: u64,
    bytes: u64,
    replaced: u64,
    full: bool,
    gone: &mut DiskCache,
    removed: &mut DiskCache,
    scanned: &mut DiskCache,
    lens: &Vec<u64>,
    others: nat,
)
    requires
        others + replaced <= u64::MAX,
        others + bytes <= u64::MAX,
        old(written).used == others + replaced,
        old(gone).used == others + bytes,
        old(removed).used == others + bytes,
        call_ensures(DiskCache::block_written, (written, key, block, bytes, replaced), full),
        call_ensures(DiskCache::evicted, (gone, bytes), ()),
        call_ensures(DiskCache::file_removed, (removed, bytes), ()),
        call_ensures(DiskCache::rescan_used, (scanned, lens), ()),
        total(lens@) <= u64::MAX,
    ensures
        final(written).used == others + bytes,
        full <==> others + bytes > old(written).max_bytes,
        final(written).listed().len() > 0,
        final(written).listed().last() == (key@, block),
        final(gone).used == others,
        final(gone).listed() == old(gone).listed(),
        final(removed).used == others,
        final(scanned).used == lens@.fold_left(0, |sum: int, n: u64| sum + n),
{
    summed(lens@);
}

proof fn summed(lens: Seq<u64>)
    ensures
        total(lens) == lens.fold_left(0, |sum: int, n: u64| sum + n),
    decreases lens.len(),
{
    if lens.len() > 0 {
        summed(lens.drop_last());
    }
}

/// An order that was saved is loaded again as it was.
pub proof fn saved_orders_load_again(
    saved: &DiskCache,
    text: String,
    raw: &str,
    loaded: &mut DiskCache,
)
    requires
        call_ensures(DiskCache::save_order, (saved,), text),
        raw@ == text@,
        call_ensures(DiskCache::load_order, (loaded, raw), ()),
    ensures
        final(loaded).listed() == old(loaded).listed() + saved.listed(),
{
    order_reads_back(saved.listed());
}

/// A cache that was cleared lists nothing and takes up nothing, and is too
/// full only where it takes up more than its room.
pub proof fn cleared_caches_are_empty(
    cache: &mut DiskCache,
    other: &DiskCache,
    over: bool,
)
    requires
        call_ensures(DiskCache::clear, (cache,), ()),
        call_ensures(DiskCache::over_budget, (other,), over),
    ensures
        final(cache).listed().len() == 0,
        final(cache).used == 0,
        final(cache).max_bytes == old(cache).max_bytes,
        final(cache).block_size == old(cache).block_size,
        over <==> other.used > other.max_bytes,
{
}

/// Blocks that were found on the disk are listed in the order in which they
/// were written.
pub proof fn found_blocks_are_listed_by_time(
    cache: &mut DiskCache,
    found: Vec<(i128, (String, u64))>,
)
    requires
        call_ensures(DiskCache::rebuild_order_from_mtime, (cache, found), ()),
    ensures
        exists|sorted: Seq<(i128, (String, u64))>|
            {
                let (was, now) = (old(cache).listed(), final(cache).listed());
                &&& #[trigger] sorted.to_multiset() == found@.to_multiset()
                &&& forall|i: int, j: int|
                    0 <= i < j < sorted.len() ==> (#[trigger] sorted[i]).0 <= (
                    #[trigger] sorted[j]).0
                &&& now.len() == was.len() + sorted.len()
                &&& now.take(was.len() as int) == was
                &&& forall|i: int|
                    0 <= i < sorted.len() ==> now[was.len() + i] == (
                        (#[trigger] sorted[i]).1.0@,
                        sorted[i].1.1,
                    )
            },
{
    let sorted = choose|sorted: Seq<(i128, (String, u64))>|
        {
            &&& #[trigger] crate::disk_cache::by_time(sorted)
            &&& sorted.to_multiset() == found@.to_multiset()
            &&& final(cache).listed() == old(cache).listed() + sorted.map_values(
                |f: (i128, (String, u64))| (f.1.0@, f.1.1),
            )
        };
    assert(final(cache).listed().take(old(cache).listed().len() as int) =~= old(cache).listed());
    assert(sorted.to_multiset() == found@.to_multiset());
}

/// A key that is invalidated is listed no more, and every other block stays,
/// in its order.
pub proof fn invalidated_keys_are_listed_no_more(cache: &mut DiskCache, key: &str)
    requires
        call_ensures(DiskCache::invalidate, (cache, key), ()),
    ensures
        forall|k: Seq<char>, b: u64| #[trigger]
            final(cache).listed().contains((k, b)) <==> k != key@ && old(cache).listed().contains(
                (k, b),
            ),
        final(cache).listed() == old(cache).listed().filter(|e: (Seq<char>, u64)| e.0 != key@),
        final(cache).used == old(cache).used,
{
    let p = |e: (Seq<char>, u64)| e.0 != key@;
    let all = old(cache).listed();
    broadcast use vstd::seq_lib::group_filter_ensures;
    assert forall|k: Seq<char>, b: u64| #[trigger]
        all.filter(p).contains((k, b)) implies k != key@ && all.contains((k, b)) by {
        all.lemma_filter_contains_rev(p, (k, b));
        let i = all.filter(p).index_of((k, b));
        assert(p(all.filter(p)[i]));
    }
    assert forall|k: Seq<char>, b: u64| k != key@ && all.contains(
        (k, b),
    ) implies #[trigger] all.filter(p).contains((k, b)) by {
        let i = all.index_of((k, b));
        assert(p(all[i]));
        assert(all.filter(p).contains(all[i]));
    }
}

/// A note of the block size lets the blocks of that size be used again, and of
/// no other; without a note none are.
pub proof fn notes_read_back(
    size: u64,
    note: String,
    raw: &str,
    asked: u64,
    r: bool,
    without: bool,
)
    requires
        call_ensures(meta_note, (size,), note),
        raw@ == note@,
        call_ensures(blocks_reusable, (Some(raw), asked), r),
        call_ensures(blocks_reusable, (None, asked), without),
    ensures
        r <==> asked == size,
        !without,
{
    meta_reads_back(size, asked);
}

/// `s` is digits alone, and spells `n`.
pub open spec fn digits_of(s: Seq<char>, n: u64) -> bool {
    &&& s.len() > 0
    &&& forall|i: int| 0 <= i < s.len() ==> plain_digit(#[trigger] s[i])
    &&& worth(s, 10) == n
}

/// `t` is digits, with at most a plus sign in front, and spells `n`.
pub open spec fn reads_as(t: Seq<char>, n: u64) -> bool {
    digits_of(t, n) || (t.len() > 0 && t[0] == '+' && digits_of(t.skip(1), n))
}

/// The last of the lines that begin with `word` goes on with the number `n`.
pub open spec fn last_says(ls: Seq<Seq<char>>, word: Seq<char>, n: u64) -> bool {
    exists|i: int|
        {
            &&& 0 <= i < ls.len()
            &&& begins(#[trigger] ls[i], word)
            &&& reads_as(ls[i].skip(word.len() as int), n)
            &&& forall|j: int| i < j < ls.len() ==> !begins(#[trigger] ls[j], word)
        }
}

proof fn read_number(t: Seq<char>, n: u64)
    ensures
        number_of(t, 10) == Some(n) <==> reads_as(t, n),
{
    let d = unsigned_part(t);
    digits_are_read(d, 10);
    if t.len() > 0 && t[0] == '+' {
        assert(d =~= t.skip(1));
        assert(!plain_digit(t[0]));
        assert(!digits_of(t, n));
    }
    assert(reads_as(t, n) == digits_of(d, n));
    if number_of(t, 10) == Some(n) {
        assert(all_digits(d, 10));
    }
    if digits_of(d, n) {
        assert(all_digits(d, 10));
    }
}

proof fn last_line(head: Seq<Seq<char>>, l: Seq<char>, word: Seq<char>, n: u64)
    ensures
        begins(l, word) ==> (last_says(head.push(l), word, n) <==> reads_as(
            l.skip(word.len() as int),
            n,
        )),
        !begins(l, word) ==> (last_says(head.push(l), word, n) <==> last_says(head, word, n)),
{
    let ls = head.push(l);
    let k = head.len() as int;
    assert(ls[k] == l);
    if last_says(ls, word, n) {
        let i = choose|i: int|
            {
                &&& 0 <= i < ls.len()
                &&& begins(#[trigger] ls[i], word)
                &&& reads_as(ls[i].skip(word.len() as int), n)
                &&& forall|j: int| i < j < ls.len() ==> !begins(#[trigger] ls[j], word)
            };
        if begins(l, word) {
            assert(i == k);
        } else {
            assert(i < k);
            assert(head[i] == ls[i]);
            assert forall|j: int| i < j < head.len() implies !begins(#[trigger] head[j], word) by {
                assert(ls[j] == head[j]);
            }
        }
    }
    if begins(l, word) && reads_as(l.skip(word.len() as int), n) {
        assert(begins(ls[k], word));
    }
    if !begins(l, word) && last_says(head, word, n) {
        let i = choose|i: int|
            {
                &&& 0 <= i < head.len()
                &&& begins(#[trigger] head[i], word)
                &&& reads_as(head[i].skip(word.len() as int), n)
                &&& forall|j: int| i < j < head.len() ==> !begins(#[trigger] head[j], word)
            };
        assert(ls[i] == head[i]);
        assert forall|j: int| i < j < ls.len() implies !begins(#[trigger] ls[j], word) by {
            if j < k {
                assert(ls[j] == head[j]);
            }
        }
    }
}

proof fn begins_is_prefix(l: Seq<char>, word: Seq<char>)
    ensures
        begins(l, word) <==> word.is_prefix_of(l),
{
    if word.len() <= l.len() {
        assert(l.take(word.len() as int) =~= l.subrange(0, word.len() as int));
    }
}

proof fn meta_says(ls: Seq<Seq<char>>, n: u64)
    ensures
        meta_of(ls).0 == Some(n) <==> last_says(ls, "version="@, n),
        meta_of(ls).1 == Some(n) <==> last_says(ls, "block_size="@, n),
    decreases ls.len(),
{
    reveal_strlit("version=");
    reveal_strlit("block_size=");
    let (v, b) = ("version="@, "block_size="@);
    if ls.len() > 0 {
        let (head, l) = (ls.drop_last(), ls.last());
        meta_says(head, n);
        assert(head.push(l) =~= ls);
        last_line(head, l, v, n);
        last_line(head, l, b, n);
        begins_is_prefix(l, v);
        begins_is_prefix(l, b);
        read_number(l.skip(v.len() as int), n);
        read_number(l.skip(b.len() as int), n);
        if begins(l, v) && begins(l, b) {
            assert(l.take(v.len() as int)[0] == l[0]);
            assert(l.take(b.len() as int)[0] == l[0]);
        }
    }
}

/// Blocks are used again exactly where the note gives this version of the
/// format and their size; of several lines the last one counts, and any other
/// line does not matter.
pub proof fn notes_give_version_and_size(raw: &str, size: u64, r: bool, all: Vec<String>)
    requires
        call_ensures(blocks_reusable, (Some(raw), size), r),
        call_ensures(lines_of, (raw,), all),
    ensures
        r <==> last_says(texts(all@), "version="@, 2) && last_says(
            texts(all@),
            "block_size="@,
            size,
        ),
{
    meta_says(texts(all@), 2);
    meta_says(texts(all@), size);
}

/// A hash begins at the basis, and each byte that follows is mixed in and then
/// multiplied by the prime.
pub proof fn hashes_take_in_byte_by_byte(s: &str, h: u64, t: &str, g: u64, b: u8)
    requires
        call_ensures(fnv1a64, (s,), h),
        call_ensures(fnv1a64, (t,), g),
        encode_utf8(t@) == encode_utf8(s@).push(b),
    ensures
        encode_utf8(s@).len() == 0 ==> h == 0xcbf29ce484222325,
        g as int == ((h ^ (b as u64)) as int * 0x100000001b3) % 0x1_0000_0000_0000_0000,
{
    let bytes = encode_utf8(t@);
    assert(bytes.drop_last() =~= encode_utf8(s@));
    assert(bytes.last() == b);
}

/// What was written in hexadecimal is read again as it was, and was written in
/// pairs of small digits.
pub proof fn hexadecimal_reads_back(s: &str, hex: String, raw: &str, r: Option<String>)
    requires
        call_ensures(hex_encode, (s,), hex),
        raw@ == hex@,
        call_ensures(hex_decode, (raw,), r),
    ensures
        r is Some && r->0@ == s@,
        hex@.len() == 2 * encode_utf8(s@).len(),
        forall|i: int|
            0 <= i < hex@.len() ==> plain_digit(#[trigger] hex@[i]) || ('a' <= hex@[i] && hex@[i]
                <= 'f'),
{
    hex_reads_back(s@);
    hex_digits(encode_utf8(s@));
    hex_twice(encode_utf8(s@));
}

/// Pairs of hexadecimal digits, in either case, are read as the bytes that
/// they spell, where those are text, and nothing else is.
pub proof fn hexadecimal_is_read_as_spelled(s: &str, r: Option<String>, bytes: Seq<u8>)
    requires
        call_ensures(hex_decode, (s,), r),
        s@.len() == 2 * bytes.len(),
        forall|i: int| 0 <= i < s@.len() ==> hex_digit(#[trigger] s@[i]),
        forall|i: int|
            0 <= i < bytes.len() ==> #[trigger] bytes[i] == place(s@[2 * i]) * 16 + place(
                s@[2 * i + 1],
            ),
    ensures
        r is Some <==> valid_utf8(bytes),
        r matches Some(text) ==> text@ == decode_utf8(bytes),
{
    is_ascii_chars_encode_utf8(s@);
    let e = encode_utf8(s@);
    assert forall|i: int| 0 <= i < e.len() implies hex_value(#[trigger] e[i]) is Some
        && hex_value(e[i])->0 == place(s@[i]) by {
        assert(hex_digit(s@[i]));
        assert(e[i] == s@[i] as u8);
    }
    assert forall|i: int| 0 <= i < bytes.len() implies #[trigger] unhex(e)[i] == bytes[i] by {
        assert(hex_value(e[2 * i])->0 == place(s@[2 * i]));
        assert(hex_value(e[2 * i + 1])->0 == place(s@[2 * i + 1]));
    }
    assert(unhex(e) =~= bytes);
}

proof fn hex_twice(bytes: Seq<u8>)
    ensures
        crate::hashes::hex_text(bytes).len() == 2 * bytes.len(),
    decreases bytes.len(),
{
    if bytes.len() > 0 {
        hex_twice(bytes.drop_last());
    }
}

proof fn hex8_is(n: u64)
    ensures
        hex8(n as nat).len() >= 8,
        forall|i: int|
            0 <= i < hex8(n as nat).len() ==> {
                let c = #[trigger] hex8(n as nat)[i];
                plain_digit(c) || ('a' <= c && c <= 'f')
            },
{
    written_in(n as nat, 16);
    let s = numeral(n as nat, 16);
    let h = hex8(n as nat);
    assert forall|i: int| 0 <= i < h.len() implies {
        let c = #[trigger] h[i];
        plain_digit(c) || ('a' <= c && c <= 'f')
    } by {
        if s.len() < 8 && i >= 8 - s.len() {
            assert(h[i] == s[i - (8 - s.len())]);
        }
    }
}

/// The file of a block is told to be one, of its key, and gives the block's
/// number and the key's bytes again when nothing else is known.
pub proof fn block_files_are_known_again(
    key: &str,
    block: u64,
    name: String,
    file: &str,
    data: &[u8],
    raw: Vec<u8>,
    content: &[u8],
    is_block: bool,
    is_of: bool,
    is_tag: bool,
    r: Option<(Vec<u8>, u64)>,
)
    requires
        call_ensures(block_file, (key, block), name),
        file@ == name@,
        call_ensures(frame_block, (key, data), raw),
        content@ == raw@,
        encode_utf8(key@).len() <= u32::MAX,
        call_ensures(is_block_file, (file,), is_block),
        call_ensures(is_block_file_of, (file, key), is_of),
        call_ensures(is_etag_file, (file,), is_tag),
        call_ensures(parse_block_file, (file, content), r),
    ensures
        is_block,
        is_of,
        !is_tag,
        r matches Some((bytes, b)) && bytes@ == encode_utf8(key@) && b == block,
{
    reveal_strlit(".blk");
    reveal_strlit("blk");
    reveal_strlit("etag");
    reveal_strlit("-");
    let d = decimal(fnv(key@) as nat);
    let h = hex8(block as nat);
    let n = name@;
    written_in(fnv(key@) as nat, 10);
    hex8_is(block);
    padded_numbers_read_back(block);
    assert(n == d + "-"@ + h + ".blk"@);
    let dot = n.len() - 4;
    let tail = ".blk"@;
    assert(n[dot] == tail[0]);
    assert forall|i: int| dot < i < n.len() implies #[trigger] n[i] != '.' by {
        assert(n[i] == tail[i - dot]);
    }
    last_index_is(n, '.');
    assert(last_index(n, '.') == dot);
    assert(n.skip(dot + 1) =~= "blk"@);
    assert("blk"@.len() != "etag"@.len());
    let stem = n.take(dot);
    assert(tail =~= n.subrange(dot, n.len() as int));
    assert(tail.is_suffix_of(n));
    let dash = d.len() as int;
    assert(stem[dash] == '-');
    assert forall|i: int| dash < i < stem.len() implies #[trigger] stem[i] != '-' by {
        assert(stem[i] == h[i - dash - 1]);
    }
    last_index_is(stem, '-');
    assert(last_index(stem, '-') == dash);
    assert(stem.skip(dash + 1) =~= h);
    let start = d + "-"@;
    assert(start =~= n.subrange(0, start.len() as int));
    frames_read_back(key@, data@, key@);
    lemma_auto_spec_u32_to_from_le_bytes();
    let k = encode_utf8(key@);
    assert(raw@.subrange(0, 4) =~= spec_u32_to_le_bytes(k.len() as u32));
    assert(raw@.subrange(4, 4 + k.len() as int) =~= k);
}

/// A file of another kind gives no block, and what is given of a block's file
/// is the key that stands in it.
pub proof fn other_files_give_no_block(
    name: &str,
    content: &[u8],
    is_block: bool,
    r: Option<(Vec<u8>, u64)>,
    found: Option<(String, u64)>,
)
    requires
        call_ensures(is_block_file, (name,), is_block),
        call_ensures(parse_block_file, (name, content), r),
        call_ensures(found_block, (name, content), found),
    ensures
        !is_block || content@.len() < 4 ==> r is None,
        r matches Some((key, block)) ==> {
            &&& content@.len() >= 4 + key@.len()
            &&& spec_u32_from_le_bytes(content@.subrange(0, 4)) == key@.len()
            &&& key@ == content@.subrange(4, 4 + key@.len() as int)
        },
        found is Some <==> r is Some,
        found matches Some((key, block)) ==> key@ == lossy_text((r->0).0@) && block == (r->0).1,
{
}

/// A block's file is taken for one of another key exactly where the two keys
/// have the same hash.
pub proof fn block_files_are_told_apart_by_hash(
    key: &str,
    block: u64,
    name: String,
    file: &str,
    other: &str,
    h: u64,
    g: u64,
    r: bool,
)
    requires
        call_ensures(block_file, (key, block), name),
        file@ == name@,
        call_ensures(fnv1a64, (key,), h),
        call_ensures(fnv1a64, (other,), g),
        call_ensures(is_block_file_of, (file, other), r),
    ensures
        r <==> h == g,
{
    reveal_strlit(".blk");
    reveal_strlit("blk");
    reveal_strlit("-");
    let (d, e) = (decimal(h as nat), decimal(g as nat));
    let x = hex8(block as nat);
    let n = name@;
    written_in(h as nat, 10);
    written_in(g as nat, 10);
    hex8_is(block);
    assert(n == d + "-"@ + x + ".blk"@);
    let dot = n.len() - 4;
    assert(n[dot] == ".blk"@[0]);
    assert forall|i: int| dot < i < n.len() implies #[trigger] n[i] != '.' by {
        assert(n[i] == ".blk"@[i - dot]);
    }
    last_index_is(n, '.');
    assert(n.skip(dot + 1) =~= "blk"@);
    let start = e + "-"@;
    if h == g {
        assert(start =~= n.subrange(0, start.len() as int));
    } else if start.is_prefix_of(n) {
        assert(start =~= n.subrange(0, start.len() as int));
        assert(start[e.len() as int] == '-');
        assert(n[e.len() as int] == '-');
        if e.len() < d.len() {
            assert(n[e.len() as int] == d[e.len() as int]);
        }
        if d.len() < e.len() {
            assert(n[d.len() as int] == '-');
            assert(start[d.len() as int] == e[d.len() as int]);
        }
        assert(d =~= e) by {
            assert forall|i: int| 0 <= i < d.len() implies d[i] == e[i] by {
                assert(n[i] == d[i]);
                assert(start[i] == e[i]);
            }
        }
    }
}

/// Blocks, tags and the order go when the block size changes, and nothing else
/// of the cache does. The cache names its files as the format does.
pub proof fn stale_files_are_the_caches_own(
    cache: &DiskCache,
    key: &str,
    block: u64,
    name: &str,
    is_block: bool,
    is_tag: bool,
    stale: bool,
    a: String,
    b: String,
    c: String,
    path: String,
    tag: String,
    part: String,
    order: String,
)
    requires
        call_ensures(is_block_file, (name,), is_block),
        call_ensures(is_etag_file, (name,), is_tag),
        call_ensures(is_stale_file, (name,), stale),
        call_ensures(block_file, (key, block), a),
        call_ensures(etag_file, (key,), b),
        call_ensures(temporary_file, (key, block), c),
        call_ensures(DiskCache::path_for, (cache, key, block), path),
        call_ensures(DiskCache::etag_path, (cache, key), tag),
        call_ensures(DiskCache::temporary_path, (cache, key, block), part),
        call_ensures(DiskCache::order_path, (cache,), order),
    ensures
        stale <==> is_block || is_tag || name@ == order@,
        order@ == "lru.order"@,
        path@ == a@,
        tag@ == b@,
        part@ == c@,
{
}

/// The file of a tag is told to be one and no block's; a file that is still
/// being written is neither.
pub proof fn tags_and_unfinished_files_are_no_blocks(
    key: &str,
    block: u64,
    tag: String,
    tag_file: &str,
    part: String,
    part_file: &str,
    a: bool,
    b: bool,
    c: bool,
    d: bool,
)
    requires
        call_ensures(etag_file, (key,), tag),
        tag_file@ == tag@,
        call_ensures(temporary_file, (key, block), part),
        part_file@ == part@,
        call_ensures(is_etag_file, (tag_file,), a),
        call_ensures(is_block_file, (tag_file,), b),
        call_ensures(is_etag_file, (part_file,), c),
        call_ensures(is_block_file, (part_file,), d),
    ensures
        a,
        !b,
        !c,
        !d,
{
    reveal_strlit(".etag");
    reveal_strlit("etag");
    reveal_strlit("blk");
    reveal_strlit(".tmp-");
    reveal_strlit("-");
    let n = tag@;
    let tail = ".etag"@;
    let dot = n.len() - 5;
    written_in(fnv(key@) as nat, 10);
    assert(n[dot] == tail[0]);
    assert forall|i: int| dot < i < n.len() implies #[trigger] n[i] != '.' by {
        assert(n[i] == tail[i - dot]);
    }
    last_index_is(n, '.');
    assert(last_index(n, '.') == dot);
    assert(n.skip(dot + 1) =~= "etag"@);
    assert("blk"@.len() != "etag"@.len());
    let p = part@;
    let x = numeral(fnv(key@) as nat, 16);
    let h = hex8(block as nat);
    written_in(fnv(key@) as nat, 16);
    hex8_is(block);
    assert(p == ".tmp-"@ + x + "-"@ + h);
    assert forall|i: int| 0 < i < p.len() implies #[trigger] p[i] != '.' by {
        if i < 5 {
            assert(p[i] == ".tmp-"@[i]);
        } else if i < 5 + x.len() {
            assert(p[i] == x[i - 5]);
        } else if i > 5 + x.len() {
            assert(p[i] == h[i - 6 - x.len()]);
        }
    }
    last_index_is(p, '.');
    assert(last_index(p, '.') <= 0);
}

/// The room of the cache is rounded up to whole mebibytes, and a block has at
/// least one byte.
pub proof fn rooms_are_whole_units(
    max_bytes: usize,
    block_size: usize,
    min_free_bytes: u64,
    r: DiskCache,
)
    requires
        call_ensures(DiskCache::new, (max_bytes, block_size, min_free_bytes), r),
        max_bytes <= u64::MAX - 1_048_576,
    ensures
        max_bytes <= r.max_bytes < max_bytes + 1_048_576,
        r.max_bytes % 1_048_576 == 0,
        r.block_size >= 1,
        block_size > 0 ==> r.block_size == block_size,
        r.used == 0,
        r.listed().len() == 0,
        r.min_free_bytes == min_free_bytes,
{
    let x = max_bytes as int;
    let q = (x + 1_048_575) / 1_048_576;
    assert(crate::disk_cache::DISK_CACHE_BUDGET_UNIT == 1_048_576);
    assert(r.max_bytes == q * 1_048_576);
    assert(x <= q * 1_048_576 < x + 1_048_576 && (q * 1_048_576) % 1_048_576 == 0)
        by (nonlinear_arith)
        requires
            q == (x + 1_048_575) / 1_048_576,
    ;
}

/// A text is its first line, up to the line feed and without the carriage
/// return before it, and the lines of what follows; what has no line feed is
/// one line.
pub proof fn texts_are_read_line_by_line(
    s: &str,
    all: Vec<String>,
    t: &str,
    rest: Vec<String>,
    line: Seq<char>,
)
    requires
        call_ensures(lines_of, (s,), all),
        call_ensures(lines_of, (t,), rest),
        forall|i: int| 0 <= i < line.len() ==> #[trigger] line[i] != '\n',
    ensures
        s@ == line + seq!['\n'] + t@ ==> {
            &&& all@.len() == rest@.len() + 1
            &&& line.len() > 0 && line.last() == '\r' ==> all@[0]@ == line.take(line.len() - 1)
            &&& !(line.len() > 0 && line.last() == '\r') ==> all@[0]@ == line
            &&& forall|i: int| 0 <= i < rest@.len() ==> (#[trigger] all@[i + 1])@ == rest@[i]@
        },
        s@ == line && line.len() > 0 ==> all@.len() == 1 && all@[0]@ == line,
        s@.len() == 0 ==> all@.len() == 0,
{
    let x = s@;
    let k = first_index(x, '\n');
    first_index_bound(x, '\n');
    assert(texts(all@) == lines(x));
    assert(texts(all@).len() == all@.len());
    assert(texts(rest@).len() == rest@.len());
    if x == line + seq!['\n'] + t@ {
        assert(x[line.len() as int] == '\n');
        if k < line.len() {
            assert(x[k] == line[k]);
        }
        assert(k == line.len());
        assert(x.take(k) =~= line);
        assert(x.skip(k + 1) =~= t@);
        let first = without_cr(line);
        assert(lines(x) == seq![first] + lines(t@));
        assert(texts(all@)[0] == all@[0]@);
        if line.len() > 0 && line.last() == '\r' {
            assert(line.drop_last() =~= line.take(line.len() - 1));
        }
        assert forall|i: int| 0 <= i < rest@.len() implies (#[trigger] all@[i + 1])@ == rest@[i]@ by {
            assert(texts(all@)[i + 1] == all@[i + 1]@);
            assert(texts(rest@)[i] == rest@[i]@);
            assert(lines(x)[i + 1] == lines(t@)[i]);
        }
    }
    if x == line && line.len() > 0 {
        if k < x.len() {
            assert(x[k] == line[k]);
        }
        assert(lines(x) == seq![x]);
        assert(texts(all@)[0] == all@[0]@);
    }
}

proof fn front_mapped<A, B>(l: A, ls: Seq<A>, f: spec_fn(A) -> Option<B>)
    ensures
        (seq![l] + ls).filter_map(f) == (match f(l) {
            Some(e) => seq![e],
            None => Seq::empty(),
        }) + ls.filter_map(f),
    decreases ls.len(),
{
    reveal_with_fuel(Seq::filter_map, 2);
    let all = seq![l] + ls;
    let front = match f(l) {
        Some(e) => seq![e],
        None => Seq::empty(),
    };
    if ls.len() == 0 {
        assert(all =~= seq![l]);
        assert(seq![l].drop_last() =~= Seq::<A>::empty());
        assert(all.filter_map(f) =~= front + ls.filter_map(f));
    } else {
        front_mapped(l, ls.drop_last(), f);
        assert(all.drop_last() =~= seq![l] + ls.drop_last());
        assert(all.last() == ls.last());
        assert(all.filter_map(f) =~= front + ls.filter_map(f));
    }
}

/// An order is read line by line: a line that says nothing is passed over, and
/// what stands behind it is read as if it were not there.
pub proof fn orders_are_read_line_by_line(
    s: &str,
    all: Vec<(String, u64)>,
    t: &str,
    rest: Vec<(String, u64)>,
    line: Seq<char>,
)
    requires
        call_ensures(parse_order, (s,), all),
        call_ensures(parse_order, (t,), rest),
        s@ == line + seq!['\n'] + t@,
        forall|i: int| 0 <= i < line.len() ==> #[trigger] line[i] != '\n',
        line.len() > 0 ==> line.last() != '\r',
    ensures
        rest@.len() <= all@.len() <= rest@.len() + 1,
        forall|i: int|
            0 <= i < rest@.len() ==> {
                let e = all@[i + (all@.len() - rest@.len())];
                e.0@ == (#[trigger] rest@[i]).0@ && e.1 == rest@[i].1
            },
        (forall|i: int| 0 <= i < line.len() ==> #[trigger] line[i] != ' ') ==> all@.len()
            == rest@.len(),
{
    let x = s@;
    let k = first_index(x, '\n');
    first_index_bound(x, '\n');
    assert(x[line.len() as int] == '\n');
    if k < line.len() {
        assert(x[k] == line[k]);
    }
    assert(x.take(k) =~= line);
    assert(x.skip(k + 1) =~= t@);
    assert(lines(x) == seq![line] + lines(t@));
    front_mapped(line, lines(t@), |l: Seq<char>| order_entry(l));
    let (a, b) = (order_view(all@), order_view(rest@));
    assert(a.len() == all@.len() && b.len() == rest@.len());
    if forall|i: int| 0 <= i < line.len() ==> #[trigger] line[i] != ' ' {
        first_index_bound(line, ' ');
        let j = first_index(line, ' ');
        assert(j >= line.len());
    }
    assert forall|i: int| 0 <= i < rest@.len() implies {
        let e = all@[i + (all@.len() - rest@.len())];
        e.0@ == (#[trigger] rest@[i]).0@ && e.1 == rest@[i].1
    } by {
        assert(b[i] == (rest@[i].0@, rest@[i].1));
        let j = i + (a.len() - b.len());
        assert(a[j] == b[i]);
    }
}

} // verus!
