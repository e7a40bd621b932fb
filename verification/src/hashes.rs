//! Keys as they appear in file names and in the order file of the disk cache,
//! and the digest that goes along with an upload.

use crate::digits::{digit_char, digit_of};
use base64::engine::general_purpose::STANDARD;
use base64::Engine;
use md5::{Digest, Md5};
use vstd::prelude::*;
use vstd::utf8::*;

verus! {

/// FNV-1a over some bytes, from the state `h`.
pub open spec fn fnv_run(h: u64, bytes: Seq<u8>) -> u64
    decreases bytes.len(),
{
    if bytes.len() == 0 {
        h
    } else {
        (fnv_run(h, bytes.drop_last()) ^ (bytes.last() as u64)).wrapping_mul(0x100000001b3)
    }
}

/// The FNV-1a hash of a text.
pub open spec fn fnv(s: Seq<char>) -> u64 {
    fnv_run(0xcbf29ce484222325, encode_utf8(s))
}

/// The FNV-1a hash of a text, 64 bits.
pub fn fnv1a64(s: &str) -> (r: u64)
    ensures
        r == fnv(s@),
{
    let bytes = s.as_bytes();
    let mut hash: u64 = 0xcbf29ce484222325;
    let mut i: usize = 0;
    assert(bytes@.take(0) =~= Seq::<u8>::empty());
    while i < bytes.len()
        invariant
            i <= bytes@.len(),
            hash == fnv_run(0xcbf29ce484222325, bytes@.take(i as int)),
        decreases bytes@.len() - i,
    {
        hash = (hash ^ (bytes[i] as u64)).wrapping_mul(0x100000001b3);
        assert(bytes@.take(i + 1).drop_last() =~= bytes@.take(i as int));
        assert(bytes@.take(i + 1).last() == bytes@[i as int]);
        i += 1;
    }
    assert(bytes@.take(bytes@.len() as int) =~= bytes@);
    hash
}

/// Bytes in hexadecimal, two digits each.
pub open spec fn hex_text(bytes: Seq<u8>) -> Seq<char>
    decreases bytes.len(),
{
    if bytes.len() == 0 {
        Seq::empty()
    } else {
        hex_text(bytes.drop_last()).push(digit_char((bytes.last() / 16) as nat)).push(
            digit_char((bytes.last() % 16) as nat),
        )
    }
}

/// A text in hexadecimal, byte by byte.
pub fn hex_encode(s: &str) -> (r: String)
    ensures
        r@ == hex_text(encode_utf8(s@)),
{
    let bytes = s.as_bytes();
    let mut out = String::new();
    let mut i: usize = 0;
    assert(bytes@.take(0) =~= Seq::<u8>::empty());
    while i < bytes.len()
        invariant
            i <= bytes@.len(),
            out@ == hex_text(bytes@.take(i as int)),
        decreases bytes@.len() - i,
    {
        let b: u8 = bytes[i];
        out.push(digit_of((b / 16) as u64));
        out.push(digit_of((b % 16) as u64));
        assert(bytes@.take(i + 1).drop_last() =~= bytes@.take(i as int));
        assert(bytes@.take(i + 1).last() == b);
        i += 1;
    }
    assert(bytes@.take(bytes@.len() as int) =~= bytes@);
    out
}

/// The value of a byte that is a hexadecimal digit, in either case.
pub open spec fn hex_value(b: u8) -> Option<u8> {
    if 48 <= b <= 57 {
        Some((b - 48) as u8)
    } else if 97 <= b <= 102 {
        Some((b - 87) as u8)
    } else if 65 <= b <= 70 {
        Some((b - 55) as u8)
    } else {
        None
    }
}

fn hex_value_of(b: u8) -> (r: Option<u8>)
    ensures
        r == hex_value(b),
        r is Some ==> r->0 < 16,
{
    if 48 <= b && b <= 57 {
        Some(b - 48)
    } else if 97 <= b && b <= 102 {
        Some(b - 87)
    } else if 65 <= b && b <= 70 {
        Some(b - 55)
    } else {
        None
    }
}

/// The text is pairs of hexadecimal digits.
pub open spec fn is_hex(text: Seq<u8>) -> bool {
    &&& text.len() % 2 == 0
    &&& forall|i: int| 0 <= i < text.len() ==> hex_value(#[trigger] text[i]) is Some
}

/// The bytes that pairs of hexadecimal digits stand for.
pub open spec fn unhex(text: Seq<u8>) -> Seq<u8> {
    Seq::new(
        text.len() / 2,
        |i: int| (hex_value(text[2 * i])->0 * 16 + hex_value(text[2 * i + 1])->0) as u8,
    )
}

/// `String::from_utf8`: succeeds exactly on valid UTF-8, with the text that
/// the bytes encode.
#[verifier::external_body]
fn text_of_utf8(bytes: Vec<u8>) -> (r: Option<String>)
    ensures
        r is Some <==> valid_utf8(bytes@),
        r is Some ==> r->0@ == decode_utf8(bytes@),
{
    String::from_utf8(bytes).ok()
}

/// The text that was written in hexadecimal: pairs of digits that stand for
/// valid UTF-8.
pub fn hex_decode(s: &str) -> (r: Option<String>)
    ensures
        r is Some <==> is_hex(encode_utf8(s@)) && valid_utf8(unhex(encode_utf8(s@))),
        r is Some ==> r->0@ == decode_utf8(unhex(encode_utf8(s@))),
{
    let bytes = s.as_bytes();
    if bytes.len() % 2 != 0 {
        return None;
    }
    let mut out: Vec<u8> = Vec::new();
    let mut i: usize = 0;
    while i < bytes.len()
        invariant
            i <= bytes@.len(),
            i % 2 == 0,
            bytes@ == encode_utf8(s@),
            bytes@.len() % 2 == 0,
            bytes.len() == bytes@.len(),
            out@.len() == i / 2,
            forall|k: int| 0 <= k < i ==> hex_value(#[trigger] bytes@[k]) is Some,
            forall|k: int| 0 <= k < out@.len() ==> out@[k] == unhex(bytes@)[k],
        decreases bytes@.len() - i,
    {
        match (hex_value_of(bytes[i]), hex_value_of(bytes[i + 1])) {
            (Some(hi), Some(lo)) => {
                let ghost before = out@;
                out.push(hi * 16 + lo);
                proof {
                    let k = before.len() as int;
                    assert(2 * k == i);
                    assert(out@[k] == unhex(bytes@)[k]);
                }
                i += 2;
            },
            _ => {
                assert(!is_hex(bytes@)) by {
                    assert(hex_value(bytes@[i as int]) is None || hex_value(bytes@[i + 1]) is None);
                }
                return None;
            },
        }
    }
    assert(out@ =~= unhex(bytes@));
    text_of_utf8(out)
}

proof fn hex_text_shape(bytes: Seq<u8>, i: int)
    requires
        0 <= i < bytes.len(),
    ensures
        hex_text(bytes).len() == 2 * bytes.len(),
        hex_text(bytes)[2 * i] == digit_char((bytes[i] / 16) as nat),
        hex_text(bytes)[2 * i + 1] == digit_char((bytes[i] % 16) as nat),
    decreases bytes.len(),
{
    if bytes.len() == 1 {
        assert(hex_text(bytes.drop_last()).len() == 0);
    }
    if i < bytes.len() - 1 {
        hex_text_shape(bytes.drop_last(), i);
    } else if bytes.len() > 1 {
        hex_text_shape(bytes.drop_last(), 0);
    }
}

/// Hexadecimal text is digits and small letters.
pub proof fn hex_digits(bytes: Seq<u8>)
    ensures
        forall|i: int|
            0 <= i < hex_text(bytes).len() ==> ('0' <= #[trigger] hex_text(bytes)[i] <= '9') || (
            'a' <= hex_text(bytes)[i] <= 'f'),
{
    let t = hex_text(bytes);
    if bytes.len() > 0 {
        hex_text_shape(bytes, 0);
    }
    assert forall|i: int| 0 <= i < t.len() implies ('0' <= #[trigger] t[i] <= '9') || ('a' <= t[i]
        <= 'f') by {
        hex_text_shape(bytes, i / 2);
    }
}

/// A text written in hexadecimal reads back as the same text.
pub proof fn hex_reads_back(s: Seq<char>)
    ensures
        is_hex(encode_utf8(hex_text(encode_utf8(s)))),
        unhex(encode_utf8(hex_text(encode_utf8(s)))) == encode_utf8(s),
        valid_utf8(encode_utf8(s)),
        decode_utf8(encode_utf8(s)) == s,
{
    let bytes = encode_utf8(s);
    let t = hex_text(bytes);
    if bytes.len() > 0 {
        hex_text_shape(bytes, 0);
    }
    assert(t.len() == 2 * bytes.len());
    assert forall|i: int| 0 <= i < t.len() implies '\0' <= #[trigger] t[i] <= '\u{7f}' by {
        hex_text_shape(bytes, i / 2);
    }
    is_ascii_chars_encode_utf8(t);
    let e = encode_utf8(t);
    assert forall|i: int| 0 <= i < e.len() implies hex_value(#[trigger] e[i]) is Some by {
        hex_text_shape(bytes, i / 2);
        assert(e[i] == t[i] as u8);
    }
    assert forall|i: int| 0 <= i < bytes.len() implies unhex(e)[i] == bytes[i] by {
        hex_text_shape(bytes, i);
        assert(e[2 * i] == t[2 * i] as u8);
        assert(e[2 * i + 1] == t[2 * i + 1] as u8);
    }
    assert(unhex(e) =~= bytes);
    encode_utf8_valid_utf8(s);
    encode_utf8_decode_utf8(s);
}

/// The MD5 digest of some bytes.
pub uninterp spec fn md5_digest(data: Seq<u8>) -> Seq<u8>;

/// `md5::Md5`, from `new` over `update` to `finalize`: sixteen bytes that
/// depend on the data alone.
#[verifier::external_body]
fn md5_of(data: &[u8]) -> (r: Vec<u8>)
    ensures
        r@ == md5_digest(data@),
        r@.len() == 16,
{
    let mut hasher = Md5::new();
    hasher.update(data);
    hasher.finalize().to_vec()
}

/// Bytes in standard Base64, padded.
pub uninterp spec fn base64_text(bytes: Seq<u8>) -> Seq<char>;

/// `base64::Engine::encode` of the standard engine: depends on the bytes
/// alone, four characters for every three bytes begun. It panics where that
/// length does not fit, which the bound rules out.
#[verifier::external_body]
fn base64_of(bytes: &Vec<u8>) -> (r: String)
    requires
        bytes@.len() <= usize::MAX / 4,
    ensures
        r@ == base64_text(bytes@),
        r@.len() == (bytes@.len() + 2) / 3 * 4,
{
    STANDARD.encode(bytes)
}

/// The `Content-MD5` header for `data`: its MD5 digest in Base64.
pub fn content_md5(data: &[u8]) -> (r: String)
    ensures
        r@ == base64_text(md5_digest(data@)),
        r@.len() == 24,
{
    let digest = md5_of(data);
    base64_of(&digest)
}

/// The header for `data`, where the mount sends one along.
pub fn optional_md5(wanted: bool, data: &[u8]) -> (r: Option<String>)
    ensures
        r is Some <==> wanted,
        r is Some ==> r->0@ == base64_text(md5_digest(data@)),
{
    if wanted {
        Some(content_md5(data))
    } else {
        None
    }
}

} // verus!
