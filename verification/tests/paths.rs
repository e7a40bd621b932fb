use ossfs::paths::{
    basename, dir_object_prefix, directory_path, is_root_path, key_under, list_prefix_under,
    parent_path, rel_key, s3_copy_source,
};

#[test]
fn rel_key_maps_paths() {
    assert_eq!(rel_key("/"), "");
    assert_eq!(rel_key("/a"), "a");
    assert_eq!(rel_key("/a/b.txt"), "a/b.txt");
    assert_eq!(rel_key("/a/"), "a/");
    assert_eq!(rel_key("//a//b"), "a//b");
}

#[test]
fn rel_key_preserves_significant_whitespace() {
    assert_eq!(rel_key("/a "), "a ");
    assert_eq!(rel_key("/ a"), " a");
    assert_eq!(rel_key("/a\n"), "a\n");
    assert_eq!(rel_key(" /a"), " /a");
    assert_eq!(rel_key("/ a/"), " a/");
}

#[test]
fn basename_and_parent() {
    assert_eq!(basename("/a/b.txt"), "b.txt");
    assert_eq!(basename("/a/"), "a");
    assert_eq!(basename("/"), "/");
    assert_eq!(parent_path("/a/b"), "/a");
    assert_eq!(parent_path("/a"), "/");
    assert_eq!(parent_path("/"), "/");
}

#[test]
fn basename_and_parent_of_odd_paths() {
    assert_eq!(basename(""), "/");
    assert_eq!(basename("a"), "a");
    assert_eq!(basename("//"), "/");
    assert_eq!(basename("/a//b//"), "b");
    assert_eq!(parent_path(""), "/");
    assert_eq!(parent_path("a/b"), "a");
    assert_eq!(parent_path("/a//b"), "/a/");
    assert_eq!(parent_path("/a/b/"), "/a");
}

#[test]
fn s3_copy_source_encodes_reserved_chars() {
    assert_eq!(s3_copy_source("b", "plain.txt"), "/b/plain.txt");
    assert_eq!(s3_copy_source("b", "a b+%#中"), "/b/a%20b%2B%25%23%E4%B8%AD");
    assert_eq!(s3_copy_source("b", "dir/file.txt"), "/b/dir/file.txt");
}

#[test]
fn copy_sources_of_different_keys_differ() {
    assert_eq!(s3_copy_source("b", "a%20b"), "/b/a%2520b");
    assert_ne!(s3_copy_source("b", "a b"), s3_copy_source("b", "a%20b"));
    assert_eq!(s3_copy_source("b", "-_.~"), "/b/-_.~");
}

#[test]
fn root_paths_are_recognised() {
    assert!(is_root_path("/"));
    assert!(is_root_path("//"));
    assert!(is_root_path(""));
    assert!(!is_root_path(" "));
    assert!(!is_root_path("/a"));
}

#[test]
fn keys_stand_under_the_prefix() {
    assert_eq!(key_under("ossfs/", "/docs/a.txt"), "ossfs/docs/a.txt");
    assert_eq!(key_under("ossfs/", "/"), "ossfs");
    assert_eq!(key_under("", "/"), "");
    assert_eq!(list_prefix_under("ossfs/", "/docs"), "ossfs/docs/");
    assert_eq!(list_prefix_under("ossfs/", "/"), "ossfs/");
    assert_eq!(list_prefix_under("", "/"), "");
}

#[test]
fn a_trailing_slash_names_the_same_directory() {
    assert_eq!(list_prefix_under("ossfs/", "/docs/"), "ossfs/docs/");
    assert_eq!(list_prefix_under("", "/docs//"), "docs/");
    assert_eq!(list_prefix_under("ossfs/", "//"), "ossfs/");
    assert_eq!(list_prefix_under("ossfs/", ""), "ossfs/");
}

#[test]
fn a_childs_key_extends_its_directorys_list_prefix() {
    let prefix = list_prefix_under("ns/", "/docs");
    assert_eq!(key_under("ns/", "/docs/a b"), format!("{prefix}a b"));
    assert_ne!(key_under("ns/", "/a"), key_under("ns/", "/a "));
}

#[test]
fn directory_forms_end_in_one_slash() {
    assert_eq!(dir_object_prefix("docs"), "docs/");
    assert_eq!(dir_object_prefix("docs/"), "docs/");
    assert_eq!(dir_object_prefix("docs//"), "docs/");
    assert_eq!(directory_path("/docs"), "/docs/");
    assert_eq!(directory_path("/docs/"), "/docs/");
}
