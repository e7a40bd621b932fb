use ossfs::digits::{decimal_of, hex8_of, hex_of, parse_number};
use ossfs::disk_format::{format_order, frame_block, lines_of, parse_block_file, parse_order};
use ossfs::hashes::{fnv1a64, hex_decode, hex_encode, optional_md5};
use ossfs::text::{
    contains, ends_with, join_of, joined3, lower_of, strip_prefix, trim_end_char,
    trim_start_char,
};

#[test]
fn hashes_match_known_values() {
    assert_eq!(fnv1a64(""), 0xcbf29ce484222325);
    assert_eq!(fnv1a64("a"), 0xaf63dc4c8601ec8c);
    assert_eq!(fnv1a64("foobar"), 0x85944171f73967e8);
    assert_eq!(optional_md5(false, b"x"), None);
    assert!(optional_md5(true, b"x").is_some());
}

#[test]
fn keys_read_back_from_hex() {
    for key in ["", "a", "docs/\u{e9}\u{4e2d}\n"] {
        assert_eq!(hex_decode(&hex_encode(key)).as_deref(), Some(key));
    }
    assert_eq!(hex_encode("a/"), "612f");
    assert_eq!(hex_decode("6"), None);
    assert_eq!(hex_decode("zz"), None);
    assert_eq!(hex_decode("ff"), None);
    assert_eq!(hex_decode("612F").as_deref(), Some("a/"));
}

#[test]
fn numbers_read_back() {
    for n in [0, 7, 10, 255, u64::MAX] {
        assert_eq!(decimal_of(n), format!("{n}"));
        assert_eq!(hex_of(n), format!("{n:x}"));
        assert_eq!(hex8_of(n), format!("{n:08x}"));
        assert_eq!(parse_number(&decimal_of(n), 10), Some(n));
        assert_eq!(parse_number(&hex8_of(n), 16), Some(n));
    }
    assert_eq!(parse_number("+5", 10), Some(5));
    assert_eq!(parse_number("", 10), None);
    assert_eq!(parse_number("+", 10), None);
    assert_eq!(parse_number("-5", 10), None);
    assert_eq!(parse_number(" 5", 10), None);
    assert_eq!(parse_number("18446744073709551616", 10), None);
}

#[test]
fn lines_are_split_like_text() {
    assert_eq!(lines_of(""), Vec::<String>::new());
    assert_eq!(lines_of("a\nb"), vec!["a", "b"]);
    assert_eq!(lines_of("a\r\nb\n"), vec!["a", "b"]);
    assert_eq!(lines_of("\n\n"), vec!["", ""]);
    for text in ["", "a\nb", "a\r\nb\n", "\n\n", "x\r", "\r\n"] {
        assert_eq!(lines_of(text), text.lines().collect::<Vec<&str>>());
    }
}

#[test]
fn order_files_skip_what_they_cannot_read() {
    let order = vec![("a\tb".to_string(), 3), ("c".to_string(), u64::MAX)];
    let good = format_order(&order.clone().into());
    assert_eq!(parse_order(&good), order);
    let noisy = format!("nonsense\n{good}zz\t1\n61\tx\n");
    assert_eq!(parse_order(&noisy), order);
}

#[test]
fn frames_name_their_key() {
    let raw = frame_block("key", &[1, 2]);
    assert_eq!(&raw[..4], &[3, 0, 0, 0]);
    assert_eq!(&raw[4..7], b"key");
    assert_eq!(raw.len(), 4 + 3 + 8 + 2);
    assert_eq!(parse_block_file("7-00000002.blk", &raw), Some((b"key".to_vec(), 2)));
}

#[test]
fn text_is_cut_and_joined() {
    assert_eq!(trim_start_char("//a/", '/'), "a/");
    assert_eq!(trim_end_char("/a//", '/'), "/a");
    assert_eq!(strip_prefix("abc", "ab").as_deref(), Some("c"));
    assert_eq!(strip_prefix("abc", "b"), None);
    assert!(ends_with("a_$folder$", "_$folder$"));
    assert!(contains("abc", "bc") && contains("abc", "") && !contains("abc", "cb"));
    assert_eq!(joined3("a", "b", "c"), "abc");
    assert_eq!(join_of(&vec!["a".into(), "b".into()], '\n'), "a\nb");
    assert_eq!(lower_of("AbC-9"), "abc-9");
}
