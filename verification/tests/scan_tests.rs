use disk_sight::deletion::{
    check_writable, classify_os_error, removal_for, DeleteFailure, DeleteRefusal, Removal,
};
use disk_sight::listing::checked_total;
use disk_sight::setup::{task_named, SetupState, SetupTask};
use disk_sight::tree::enumerated;
use disk_sight::{
    calculate_dir_size, calculate_dir_size1, checked_dir_size, list_directory, sorted_names, Cli,
    FileEntry, FsNode, Metadata, ScanError,
};

fn join(parent: &str, name: &str) -> String {
    format!("{}/{}", parent, name)
}

fn file(parent: &str, name: &str, len: u64) -> FsNode {
    FsNode {
        name: name.to_string(),
        path: join(parent, name),
        canonical: Some(join(parent, name)),
        meta: Some(Metadata { is_dir: false, len, readonly: false, created: Some(1_700_000_000) }),
        children: None,
    }
}

fn dir(parent: &str, name: &str, children: Vec<FsNode>) -> FsNode {
    FsNode {
        name: name.to_string(),
        path: join(parent, name),
        canonical: Some(join(parent, name)),
        meta: Some(Metadata { is_dir: true, len: 4096, readonly: false, created: Some(1_600_000_000) }),
        children: Some(children),
    }
}

fn unreadable(parent: &str, name: &str) -> FsNode {
    FsNode {
        name: name.to_string(),
        path: join(parent, name),
        canonical: None,
        meta: None,
        children: None,
    }
}

fn locked_dir(parent: &str, name: &str) -> FsNode {
    FsNode {
        name: name.to_string(),
        path: join(parent, name),
        canonical: Some(join(parent, name)),
        meta: Some(Metadata { is_dir: true, len: 4096, readonly: true, created: None }),
        children: None,
    }
}

fn root(children: Vec<FsNode>) -> FsNode {
    FsNode {
        name: "a".to_string(),
        path: "/a".to_string(),
        canonical: Some("/a".to_string()),
        meta: Some(Metadata { is_dir: true, len: 4096, readonly: false, created: None }),
        children: Some(children),
    }
}

fn options() -> Cli {
    Cli {
        file: None,
        long_format: true,
        human_readable: false,
        all: false,
        show_time: false,
        parallel: false,
        sort: false,
        name: None,
        full_path: false,
    }
}

fn sample_tree() -> FsNode {
    root(vec![
        file("/a", "notes.txt", 10),
        dir(
            "/a",
            "src",
            vec![
                file("/a/src", "main.rs", 1000),
                dir("/a/src", "deep", vec![file("/a/src/deep", "x", 5), file("/a/src/deep", "y", 7)]),
            ],
        ),
        dir("/a", "empty", vec![]),
        file("/a", "big.bin", 5000),
    ])
}

fn names(entries: &[FileEntry]) -> Vec<String> {
    entries.iter().map(|e| e.name.clone()).collect()
}

fn sizes(entries: &[FileEntry]) -> Vec<u64> {
    entries.iter().map(|e| e.size_raw).collect()
}

#[test]
fn dir_listing_it_works() {
    assert_eq!(2 + 2, 4);
}

#[test]
fn dir_listing_v2_it_works() {
    assert_eq!(2 + 2, 4);
}

#[test]
fn total_is_the_sum_of_all_files_below() {
    let tree = sample_tree();
    let (raw, shown) = calculate_dir_size(&tree, false, false);
    assert_eq!(raw, 10 + 1000 + 5 + 7 + 5000);
    assert_eq!(shown, "6022");
    let (raw, shown) = calculate_dir_size(&tree, true, false);
    assert_eq!(raw, 6022);
    assert_eq!(shown, "5.88 KB");
}

#[test]
fn parallel_and_sequential_totals_agree() {
    let tree = sample_tree();
    let sequential = calculate_dir_size(&tree, false, false);
    let parallel = calculate_dir_size(&tree, false, true);
    assert_eq!(sequential.0, 6022);
    assert_eq!(parallel.0, 6022);
    assert_eq!(sequential.1, parallel.1);
}

#[test]
fn parallel_total_of_a_wide_directory() {
    let mut children = Vec::new();
    let mut expected = 0u64;
    for i in 0..500u64 {
        children.push(file("/a", &format!("f{}", i), i * 3 + 1));
        expected += i * 3 + 1;
    }
    let tree = root(children);
    assert_eq!(calculate_dir_size(&tree, false, true).0, expected);
    assert_eq!(calculate_dir_size(&tree, false, false).0, expected);
}

#[test]
fn empty_directory_sums_to_zero() {
    let tree = root(vec![]);
    assert_eq!(calculate_dir_size(&tree, false, false), (0, "0".to_string()));
    assert_eq!(calculate_dir_size(&tree, true, true), (0, "0 B".to_string()));
}

#[test]
fn unreadable_leaf_adds_nothing() {
    let with_bad = root(vec![
        file("/a", "one", 100),
        unreadable("/a", "bad"),
        dir("/a", "d", vec![file("/a/d", "two", 20), file("/a/d", "three", 3)]),
    ]);
    let without = root(vec![
        file("/a", "one", 100),
        dir("/a", "d", vec![file("/a/d", "two", 20), file("/a/d", "three", 3)]),
    ]);
    assert_eq!(calculate_dir_size(&with_bad, false, false).0, 123);
    assert_eq!(calculate_dir_size(&with_bad, false, true).0, 123);
    assert_eq!(calculate_dir_size(&without, false, false).0, 123);
}

#[test]
fn unreadable_leaf_deep_in_the_tree_adds_nothing() {
    let tree = root(vec![
        file("/a", "one", 1),
        dir("/a", "d", vec![dir("/a/d", "e", vec![unreadable("/a/d/e", "bad"), file("/a/d/e", "f", 40)])]),
    ]);
    assert_eq!(calculate_dir_size(&tree, false, false).0, 41);
    assert_eq!(calculate_dir_size(&tree, false, true).0, 41);
}

#[test]
fn directory_that_cannot_be_opened_adds_nothing() {
    let tree = root(vec![file("/a", "one", 9), locked_dir("/a", "locked")]);
    assert_eq!(calculate_dir_size(&tree, false, false).0, 9);
    let closed = locked_dir("/", "a");
    assert_eq!(calculate_dir_size(&closed, false, false), (0, "0".to_string()));
}

#[test]
fn checked_total_reports_what_does_not_fit() {
    let fits = root(vec![file("/a", "x", u64::MAX - 1), file("/a", "y", 1)]);
    assert_eq!(checked_dir_size(&fits), Some(u64::MAX));
    let too_much = root(vec![file("/a", "x", u64::MAX), file("/a", "y", 1)]);
    assert_eq!(checked_dir_size(&too_much), None);
    let nested = root(vec![dir("/a", "d", vec![file("/a/d", "x", u64::MAX)]), file("/a", "y", 1)]);
    assert_eq!(checked_dir_size(&nested), None);
    assert_eq!(checked_dir_size(&sample_tree()), Some(6022));
}

#[test]
fn listing_has_one_entry_for_each_child() {
    let tree = sample_tree();
    let entries = list_directory(&tree, &options()).unwrap();
    assert_eq!(entries.len(), 4);
    assert_eq!(names(&entries), vec!["big.bin", "empty", "notes.txt", "src"]);
    assert_eq!(sizes(&entries), vec![5000, 0, 10, 1012]);
}

#[test]
fn listing_describes_each_entry() {
    let tree = sample_tree();
    let mut args = options();
    args.human_readable = true;
    let entries = list_directory(&tree, &args).unwrap();
    let src = &entries[3];
    assert_eq!(src.file_type, 'd');
    assert_eq!(src.permissions, " wx");
    assert_eq!(src.size_raw, 1012);
    assert_eq!(src.size_display, "1012 B");
    assert_eq!(src.path, "/a/src");
    assert_eq!(src.name, "src");
    assert_eq!(src.created_time, None);
    let big = &entries[0];
    assert_eq!(big.file_type, '-');
    assert_eq!(big.size_display, "4.88 KB");
    assert_eq!(big.path, "/a/big.bin");
}

#[test]
fn read_only_bit_shows_in_the_permissions() {
    let mut node = file("/a", "ro", 1);
    node.meta = Some(Metadata { is_dir: false, len: 1, readonly: true, created: None });
    let entries = list_directory(&root(vec![node]), &options()).unwrap();
    assert_eq!(entries[0].permissions, "rwx");
}

#[test]
fn verbatim_prefix_is_taken_off_the_canonical_path() {
    let mut node = file("C:\\a", "f", 1);
    node.path = "C:\\a\\f".to_string();
    node.canonical = Some("\\\\?\\C:\\a\\f".to_string());
    let mut short = file("/a", "g", 1);
    short.canonical = Some("\\\\?".to_string());
    let mut plain = file("/a", "h", 1);
    plain.canonical = Some("/real/h".to_string());
    let entries = list_directory(&root(vec![node, short, plain]), &options()).unwrap();
    assert_eq!(entries[0].path, "C:\\a\\f");
    assert_eq!(entries[1].path, "\\\\?");
    assert_eq!(entries[2].path, "/real/h");
}

#[test]
fn path_falls_back_where_canonicalisation_failed() {
    let mut node = file("/a", "f", 1);
    node.canonical = None;
    let entries = list_directory(&root(vec![node]), &options()).unwrap();
    assert_eq!(entries[0].path, "/a/f");
}

#[test]
fn entry_whose_stat_failed_is_left_out() {
    let tree = root(vec![file("/a", "one", 1), unreadable("/a", "bad"), file("/a", "two", 2)]);
    let entries = list_directory(&tree, &options()).unwrap();
    assert_eq!(names(&entries), vec!["one", "two"]);
}

#[test]
fn entries_are_taken_in_the_order_of_their_names() {
    let tree = root(vec![
        file("/a", "b", 1),
        file("/a", "a", 2),
        file("/a", "B", 3),
        file("/a", "ab", 4),
        file("/a", "", 5),
        file("/a", "\u{e9}", 6),
        file("/a", "z", 7),
    ]);
    let entries = list_directory(&tree, &options()).unwrap();
    assert_eq!(names(&entries), vec!["", "B", "a", "ab", "b", "z", "\u{e9}"]);
    assert_eq!(
        sorted_names(&tree).unwrap(),
        vec!["", "B", "a", "ab", "b", "z", "\u{e9}"]
    );
}

#[test]
fn without_long_format_nothing_is_listed() {
    let mut args = options();
    args.long_format = false;
    let tree = sample_tree();
    assert!(list_directory(&tree, &args).unwrap().is_empty());
    assert_eq!(sorted_names(&tree).unwrap(), vec!["big.bin", "empty", "notes.txt", "src"]);
}

#[test]
fn root_that_cannot_be_opened_is_an_error() {
    let closed = locked_dir("/", "a");
    assert_eq!(list_directory(&closed, &options()).err(), Some(ScanError::RootUnreadable));
    let mut args = options();
    args.long_format = false;
    assert_eq!(list_directory(&closed, &args).err(), Some(ScanError::RootUnreadable));
    assert_eq!(sorted_names(&closed).err(), Some(ScanError::RootUnreadable));
}

#[test]
fn sorted_listing_puts_the_largest_first() {
    let tree = root(vec![file("/a", "a", 10), file("/a", "b", 1000), file("/a", "c", 100)]);
    let mut args = options();
    args.sort = true;
    let entries = list_directory(&tree, &args).unwrap();
    assert_eq!(sizes(&entries), vec![1000, 100, 10]);
    assert_eq!(names(&entries), vec!["b", "c", "a"]);
}

#[test]
fn entries_of_one_size_stay_in_name_order() {
    let tree = root(vec![
        file("/a", "d", 5),
        file("/a", "c", 7),
        file("/a", "b", 5),
        file("/a", "a", 7),
        file("/a", "e", 9),
    ]);
    let mut args = options();
    args.sort = true;
    let entries = list_directory(&tree, &args).unwrap();
    assert_eq!(names(&entries), vec!["e", "a", "c", "b", "d"]);
}

#[test]
fn scanning_twice_gives_the_same_sizes() {
    let tree = sample_tree();
    let mut args = options();
    args.sort = true;
    args.parallel = true;
    let first = list_directory(&tree, &args).unwrap();
    let second = list_directory(&tree, &args).unwrap();
    assert_eq!(sizes(&first), sizes(&second));
    assert_eq!(sizes(&first), vec![5000, 1012, 10, 0]);
    args.parallel = false;
    let third = list_directory(&tree, &args).unwrap();
    assert_eq!(sizes(&first), sizes(&third));
}

#[test]
fn filter_reports_matching_directories_only() {
    let tree = root(vec![
        dir("/a", "foo", vec![file("/a/foo", "x", 11), dir("/a/foo", "foo_inner", vec![file("/a/foo/foo_inner", "y", 2)])]),
        dir(
            "/a",
            "bar",
            vec![
                dir("/a/bar", "foo2", vec![file("/a/bar/foo2", "z", 30), dir("/a/bar/foo2", "foo3", vec![])]),
                dir("/a/bar", "baz", vec![file("/a/bar/baz", "w", 400)]),
                file("/a/bar", "foo_file", 5000),
            ],
        ),
        file("/a", "foo.txt", 60000),
    ]);
    let mut args = options();
    args.name = Some("foo".to_string());
    let entries = list_directory(&tree, &args).unwrap();
    assert_eq!(names(&entries), vec!["foo2", "foo"]);
    assert_eq!(sizes(&entries), vec![30, 13]);
    assert_eq!(entries[0].path, "/a/bar/foo2");
    assert_eq!(entries[0].file_type, 'd');
    assert_eq!(entries[1].path, "/a/foo");
}

#[test]
fn filter_is_case_sensitive_and_matches_anywhere_in_the_name() {
    let tree = root(vec![
        dir("/a", "myfoo", vec![]),
        dir("/a", "Foo", vec![]),
        dir("/a", "fo", vec![]),
        dir("/a", "xfoox", vec![]),
        dir("/a", "f-o-o", vec![]),
    ]);
    let mut args = options();
    args.name = Some("foo".to_string());
    let entries = list_directory(&tree, &args).unwrap();
    assert_eq!(names(&entries), vec!["myfoo", "xfoox"]);
}

#[test]
fn empty_filter_matches_every_directory() {
    let tree = sample_tree();
    let mut args = options();
    args.name = Some(String::new());
    let entries = list_directory(&tree, &args).unwrap();
    assert_eq!(names(&entries), vec!["empty", "src"]);
}

#[test]
fn search_walks_entries_in_the_order_found() {
    let tree = dir(
        "/a",
        "bar",
        vec![
            dir("/a/bar", "zfoo", vec![file("/a/bar/zfoo", "f", 1)]),
            unreadable("/a/bar", "foo_bad"),
            dir("/a/bar", "mid", vec![dir("/a/bar/mid", "afoo", vec![file("/a/bar/mid/afoo", "g", 2)])]),
            locked_dir("/a/bar", "closed"),
            locked_dir("/a/bar", "foo_closed"),
        ],
    );
    let mut entries = Vec::new();
    calculate_dir_size1(&tree, true, false, "foo", &mut entries);
    assert_eq!(names(&entries), vec!["zfoo", "afoo", "foo_closed"]);
    assert_eq!(sizes(&entries), vec![1, 2, 0]);
    assert_eq!(entries[0].size_display, "1 B");
    assert_eq!(entries[2].permissions, "rwx");
    calculate_dir_size1(&tree, false, true, "afoo", &mut entries);
    assert_eq!(names(&entries), vec!["zfoo", "afoo", "foo_closed", "afoo"]);
}

#[test]
fn read_only_path_is_refused_unless_forced() {
    assert_eq!(check_writable(false, false, false), Err(DeleteRefusal::Missing));
    assert_eq!(check_writable(false, true, true), Err(DeleteRefusal::Missing));
    assert_eq!(check_writable(true, true, false), Err(DeleteRefusal::ReadOnly));
    assert_eq!(check_writable(true, true, true), Ok(true));
    assert_eq!(check_writable(true, false, false), Ok(false));
    assert_eq!(check_writable(true, false, true), Ok(false));
}

#[test]
fn removal_goes_by_the_kind_of_path() {
    assert_eq!(removal_for(true, false), Ok(Removal::File));
    assert_eq!(removal_for(false, true), Ok(Removal::DirectoryTree));
    assert_eq!(removal_for(false, false), Err(DeleteRefusal::InvalidKind));
}

#[test]
fn error_codes_are_sorted_into_categories() {
    assert_eq!(classify_os_error(Some(5)), DeleteFailure::PermissionDenied);
    assert_eq!(classify_os_error(Some(32)), DeleteFailure::ResourceBusy);
    assert_eq!(classify_os_error(Some(2)), DeleteFailure::NotFound);
    assert_eq!(classify_os_error(Some(145)), DeleteFailure::DirectoryNotEmpty);
    assert_eq!(classify_os_error(Some(13)), DeleteFailure::Other);
    assert_eq!(classify_os_error(None), DeleteFailure::Other);
}

#[test]
fn listed_sizes_add_up_to_the_total_of_the_root() {
    let tree = sample_tree();
    let mut args = options();
    args.sort = true;
    let entries = list_directory(&tree, &args).unwrap();
    assert_eq!(checked_total(&entries), Some(6022));
    assert_eq!(checked_total(&entries), Some(calculate_dir_size(&tree, false, false).0));
    assert_eq!(checked_total(&Vec::new()), Some(0));
    let huge = root(vec![file("/a", "x", u64::MAX), file("/a", "y", 0)]);
    let mut both = list_directory(&huge, &options()).unwrap();
    assert_eq!(checked_total(&both), Some(u64::MAX));
    both.extend(list_directory(&root(vec![file("/a", "z", 1)]), &options()).unwrap());
    assert_eq!(checked_total(&both), None);
}

#[test]
fn failed_places_of_an_enumeration_are_dropped() {
    let kept = enumerated(vec![
        None,
        Some(file("/a", "one", 1)),
        None,
        None,
        Some(file("/a", "two", 2)),
        Some(unreadable("/a", "three")),
        None,
    ]);
    let kept_names: Vec<String> = kept.iter().map(|n| n.name.clone()).collect();
    assert_eq!(kept_names, vec!["one", "two", "three"]);
    assert!(enumerated(vec![None, None]).is_empty());
    assert!(enumerated(Vec::new()).is_empty());
}

#[test]
fn main_window_shows_when_both_sides_are_ready() {
    let mut state = SetupState::new();
    assert_eq!(state, SetupState { frontend_task: false, backend_task: false });
    assert!(!state.set_complete(SetupTask::Backend));
    assert!(!state.set_complete(SetupTask::Backend));
    assert_eq!(state, SetupState { frontend_task: false, backend_task: true });
    assert!(state.set_complete(SetupTask::Frontend));
    assert!(state.set_complete(SetupTask::Backend));
    let mut other = SetupState::new();
    assert!(!other.set_complete(SetupTask::Frontend));
    assert!(other.set_complete(SetupTask::Backend));
}

#[test]
fn tasks_are_known_by_their_names() {
    assert_eq!(task_named(&"frontend".to_string()), Some(SetupTask::Frontend));
    assert_eq!(task_named(&"backend".to_string()), Some(SetupTask::Backend));
    assert_eq!(task_named(&"Frontend".to_string()), None);
    assert_eq!(task_named(&"".to_string()), None);
    assert_eq!(task_named(&"backend ".to_string()), None);
}
