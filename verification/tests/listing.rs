use ossfs::config::TrashRefreshMode;
use ossfs::error::{FsError, Step};
use ossfs::listing::{
    next_page_token, object_length, object_time, DirEntry, ListedObject, Listing, Page,
};
use ossfs::metrics::Metrics;
use ossfs::stat::{
    anything_left, children_probe, has_children, HeadReply, Lookup, LookupNext, ProbeReply,
};
use ossfs::trash::{SystemTrash, SystemTrashPlatform, TombstoneIndex, TrashState};

fn object(key: &str, size: i64) -> ListedObject {
    ListedObject { key: Some(key.into()), size: Some(size), mtime_secs: Some(5) }
}

fn trash() -> TrashState {
    TrashState {
        prefix: ".trash/".into(),
        mode: TrashRefreshMode::Lazy,
        refresh_interval_secs: 30,
        rebuild_interval_secs: 600,
        gc_interval_secs: 86_400,
        retention_days: 30,
        system: None,
        index: TombstoneIndex::new(),
        generation: 0,
        cursor: None,
    }
}

fn names(entries: &[DirEntry]) -> Vec<&str> {
    entries.iter().map(|e| e.name.as_str()).collect()
}

#[test]
fn next_page_token_requires_token_when_truncated() {
    assert_eq!(next_page_token(None, None), Ok(None));
    assert_eq!(next_page_token(Some(true), Some("tok".into())), Ok(Some("tok".into())));
    assert_eq!(next_page_token(Some(true), None), Err(FsError::PartialListing));
}

#[test]
fn a_token_without_more_pages_is_ignored() {
    assert_eq!(next_page_token(Some(false), Some("tok".into())), Ok(None));
    assert_eq!(next_page_token(None, Some("tok".into())), Ok(None));
    assert_eq!(
        FsError::PartialListing.message(),
        "s3 list truncated without a continuation token; refusing to return a partial listing"
    );
}

#[test]
fn listings_show_directories_and_files() {
    let mut m = Metrics::default();
    let mut listing = Listing::start("docs/".into(), false, &mut m);
    assert_eq!(m.s3_lists, 1);
    let page = Page {
        prefixes: vec![Some("docs/sub/".into()), None],
        objects: vec![
            object("docs/", 0),
            object("docs/a.txt", 3),
            object("docs/old_$folder$", 0),
            object("docs/marker/", 0),
            object("elsewhere", 1),
            ListedObject { key: None, size: None, mtime_secs: None },
            ListedObject { key: Some("docs/b".into()), size: None, mtime_secs: None },
        ],
        truncated: Some(true),
        token: Some("next".into()),
    };
    assert_eq!(listing.page(page, &None), Ok(Some("next".into())));
    let last = Page {
        prefixes: vec![],
        objects: vec![object("docs/c", -1)],
        truncated: None,
        token: None,
    };
    assert_eq!(listing.page(last, &None), Ok(None));
    let out = listing.finish("/docs", &None, vec![]);
    assert_eq!(names(&out), vec!["sub", "a.txt", "old_$folder$", "b", "c"]);
    assert!(out[0].is_dir && !out[1].is_dir);
    assert_eq!((out[1].size, out[1].mtime_secs), (3, 5));
    assert_eq!((out[3].size, out[3].mtime_secs), (0, 0));
    assert_eq!(out[4].size, 0);
}

#[test]
fn foreign_markers_can_be_skipped() {
    let mut m = Metrics::default();
    let mut listing = Listing::start("".into(), true, &mut m);
    let page = Page {
        prefixes: vec![],
        objects: vec![object("a_$folder$", 0), object("a", 1)],
        truncated: None,
        token: None,
    };
    assert_eq!(listing.page(page, &None), Ok(None));
    assert_eq!(names(&listing.out), vec!["a"]);
}

#[test]
fn hidden_keys_are_left_out() {
    let mut t = trash();
    t.index.insert("a.txt", false);
    t.index.insert("gone", true);
    let t = Some(t);
    let mut m = Metrics::default();
    let mut listing = Listing::start("".into(), false, &mut m);
    let page = Page {
        prefixes: vec![Some(".trash/".into()), Some("gone/".into()), Some("kept/".into())],
        objects: vec![object("a.txt", 1), object("b.txt", 1), object(".trash/x", 1)],
        truncated: None,
        token: None,
    };
    assert_eq!(listing.page(page, &t), Ok(None));
    assert_eq!(names(&listing.out), vec!["kept", "b.txt"]);
}

#[test]
fn real_entries_win_over_made_up_ones() {
    let mut t = trash();
    t.system = Some(SystemTrash {
        platform: SystemTrashPlatform::WindowsRecycleBin,
        dir_name: "$Recycle.Bin".into(),
        macos_uid_dirs: vec![],
    });
    let t = Some(t);
    let mut m = Metrics::default();
    let mut listing = Listing::start("".into(), false, &mut m);
    let page = Page {
        prefixes: vec![],
        objects: vec![object("same", 7)],
        truncated: None,
        token: None,
    };
    assert_eq!(listing.page(page, &t), Ok(None));
    let made_up = vec![
        DirEntry { name: "same".into(), is_dir: true, size: 0, mtime_secs: 0 },
        DirEntry { name: "new".into(), is_dir: false, size: 1, mtime_secs: 0 },
    ];
    let out = listing.finish("/", &t, made_up);
    assert_eq!(names(&out), vec!["same", "new", "$Recycle.Bin"]);
    assert_eq!(out[0].size, 7);
    assert!(out[2].is_dir);
}

#[test]
fn a_failed_page_is_counted() {
    let mut m = Metrics::default();
    let e = Listing::failed(vec!["boom".into()], &mut m);
    assert_eq!(e, FsError::Failed { step: Step::List, cause: vec!["boom".into()] });
    assert_eq!((m.s3_errors, m.s3_list_errors), (1, 1));
    assert_eq!(object_length(None), 0);
    assert_eq!(object_length(Some(12)), 12);
    assert_eq!(object_time(None), 0);
    assert_eq!(object_time(Some(-3)), -3);
}

fn lookup(path: &str) -> Lookup {
    Lookup { prefix: "p/".into(), path: path.into() }
}

#[test]
fn lookups_try_the_object_then_its_marker_then_its_children() {
    let mut m = Metrics::default();
    let look = lookup("/d");
    assert_eq!(look.start(&None, None, &mut m), LookupNext::Head { key: "p/d".into() });
    assert_eq!(
        look.head(HeadReply::Missing, &mut m),
        LookupNext::HeadMarker { key: "p/d/".into() }
    );
    assert_eq!(
        look.marker(HeadReply::Missing, &mut m),
        LookupNext::Probe { prefix: "p/d/".into() }
    );
    assert_eq!((m.s3_heads, m.s3_stat_heads, m.s3_lists), (2, 2, 1));
    match look.probed(named(&["p/d/x"], true)) {
        LookupNext::Done { result: Ok(Some(e)) } => {
            assert_eq!(e, DirEntry { name: "d".into(), is_dir: true, size: 0, mtime_secs: 0 });
        }
        other => panic!("{other:?}"),
    }
    assert_eq!(
        look.probed(named(&[], false)),
        LookupNext::Done { result: Ok(None) }
    );
}

#[test]
fn a_lookup_ends_with_what_is_there() {
    let mut m = Metrics::default();
    let found = || HeadReply::Found { length: Some(4), mtime_secs: Some(9) };
    assert_eq!(
        lookup("/a/f").head(found(), &mut m),
        LookupNext::Done {
            result: Ok(Some(DirEntry {
                name: "f".into(),
                is_dir: false,
                size: 4,
                mtime_secs: 9
            }))
        }
    );
    assert!(matches!(
        lookup("/a/f").marker(found(), &mut m),
        LookupNext::Done { result: Ok(Some(DirEntry { is_dir: true, .. })) }
    ));
    assert!(matches!(
        lookup("/a/d/").head(found(), &mut m),
        LookupNext::Done { result: Ok(Some(DirEntry { is_dir: true, .. })) }
    ));
    assert_eq!(
        lookup("/a/d/").head(HeadReply::Missing, &mut m),
        LookupNext::Probe { prefix: "p/a/d/".into() }
    );
}

#[test]
fn a_lookup_fails_with_its_step() {
    let mut m = Metrics::default();
    let cause = || vec!["denied".to_string()];
    let failed = |step: Step| LookupNext::Done {
        result: Err(FsError::Failed { step, cause: cause() }),
    };
    let look = lookup("/f");
    assert_eq!(look.head(HeadReply::Failed { cause: cause() }, &mut m), failed(Step::Head));
    assert_eq!(
        look.marker(HeadReply::Failed { cause: cause() }, &mut m),
        failed(Step::HeadMarker)
    );
    assert_eq!(look.probed(ProbeReply::Failed { cause: cause() }), failed(Step::Probe));
}

#[test]
fn a_directory_has_children_unless_the_store_denies_it() {
    let asked = |reply: ProbeReply| has_children(Some(("p/d/".into(), reply)));
    let mut m = Metrics::default();
    assert_eq!(children_probe("p/", "/d/", &mut m), Some("p/d/".into()));
    assert_eq!(children_probe("p/", "//", &mut m), None);
    assert_eq!(m.s3_lists, 1);
    assert!(!asked(named(&[], false)));
    assert!(asked(named(&["p/d/x"], false)));
    assert!(asked(named(&["p/d/x"], true)));
    assert!(asked(ProbeReply::Failed { cause: vec![] }));
    assert!(has_children(None));
}

#[test]
fn a_directorys_marker_is_no_child() {
    let asked = |reply: ProbeReply| has_children(Some(("dir/".into(), reply)));
    assert!(!asked(named(&["dir/"], false)));
    assert!(asked(named(&["dir/"], true)));
    assert!(asked(named(&["dir/", "dir/a.txt"], false)));
    assert!(asked(ProbeReply::Answer { keys: vec![None], truncated: None }));
    assert!(!asked(ProbeReply::Answer { keys: vec![Some("dir/".into())], truncated: None }));
}

#[test]
fn a_marker_is_left_where_a_directory_is_removed() {
    assert_eq!(anything_left(named(&["dir/"], false)), Ok(true));
    assert_eq!(anything_left(named(&[], false)), Ok(false));
    assert_eq!(
        anything_left(ProbeReply::Failed { cause: vec!["denied".into()] }),
        Err(FsError::Failed { step: Step::Probe, cause: vec!["denied".into()] })
    );
}

fn named(keys: &[&str], more: bool) -> ProbeReply {
    ProbeReply::Answer {
        keys: keys.iter().map(|k| Some(k.to_string())).collect(),
        truncated: Some(more),
    }
}
