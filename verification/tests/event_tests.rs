use disk_sight::progress::emit_progress;
use disk_sight::with_events::milestone_tag;
use disk_sight::{
    calculate_dir_size_with_events, calculate_dir_size_with_events_simple, list_directory,
    list_directory_with_events, Cli, FsNode, Metadata, ProgressEvent, ScanError,
};

fn join(parent: &str, name: &str) -> String {
    format!("{}/{}", parent, name)
}

fn file(parent: &str, name: &str, len: u64) -> FsNode {
    FsNode {
        name: name.to_string(),
        path: join(parent, name),
        canonical: Some(join(parent, name)),
        meta: Some(Metadata { is_dir: false, len, readonly: false, created: Some(1_700_000_000) }),
        children: None,
    }
}

fn dir(parent: &str, name: &str, children: Vec<FsNode>) -> FsNode {
    FsNode {
        name: name.to_string(),
        path: join(parent, name),
        canonical: Some(join(parent, name)),
        meta: Some(Metadata { is_dir: true, len: 4096, readonly: false, created: Some(1_600_000_000) }),
        children: Some(children),
    }
}

fn unreadable(parent: &str, name: &str) -> FsNode {
    FsNode {
        name: name.to_string(),
        path: join(parent, name),
        canonical: None,
        meta: None,
        children: None,
    }
}

fn root(children: Vec<FsNode>) -> FsNode {
    FsNode {
        name: "a".to_string(),
        path: "/a".to_string(),
        canonical: Some("/a".to_string()),
        meta: Some(Metadata { is_dir: true, len: 4096, readonly: false, created: None }),
        children: Some(children),
    }
}

fn options() -> Cli {
    Cli {
        file: None,
        long_format: true,
        human_readable: true,
        all: true,
        show_time: true,
        parallel: true,
        sort: true,
        name: None,
        full_path: true,
    }
}

fn told(events: &[ProgressEvent]) -> Vec<(String, String, String)> {
    events
        .iter()
        .map(|e| (e.current_path.clone(), e.current_file.clone(), e.status.clone()))
        .collect()
}

fn ev(dir: &str, file: &str, status: &str) -> (String, String, String) {
    (dir.to_string(), file.to_string(), status.to_string())
}

#[test]
fn one_notification_is_appended() {
    let mut events = Vec::new();
    emit_progress(&mut events, "/a", "/a/b", "processing");
    emit_progress(&mut events, "/a", "/a/c", "completed");
    assert_eq!(told(&events), vec![ev("/a", "/a/b", "processing"), ev("/a", "/a/c", "completed")]);
}

#[test]
fn milestone_names_the_percentage() {
    assert_eq!(milestone_tag(0, 1), "progress_0%");
    assert_eq!(milestone_tag(0, 3), "progress_0%");
    assert_eq!(milestone_tag(1, 3), "progress_33%");
    assert_eq!(milestone_tag(2, 3), "progress_66%");
    assert_eq!(milestone_tag(50, 100), "progress_50%");
    assert_eq!(milestone_tag(99, 100), "progress_99%");
}

#[test]
fn aggregation_tells_each_entry_then_goes_down() {
    let tree = dir(
        "/r",
        "d",
        vec![
            file("/r/d", "f", 3),
            dir("/r/d", "e", vec![file("/r/d/e", "g", 4)]),
            unreadable("/r/d", "bad"),
            dir("/r/d", "h", vec![]),
        ],
    );
    let mut events = vec![ProgressEvent {
        current_path: "p".to_string(),
        current_file: "q".to_string(),
        status: "earlier".to_string(),
    }];
    let (raw, shown) = calculate_dir_size_with_events_simple(&tree, true, true, &mut events);
    assert_eq!(raw, 7);
    assert_eq!(shown, "7 B");
    assert_eq!(
        told(&events),
        vec![
            ev("p", "q", "earlier"),
            ev("/r/d", "/r/d", "calculating_directory_size"),
            ev("/r/d", "/r/d/f", "processing_file"),
            ev("/r/d", "/r/d/e", "processing_file"),
            ev("/r/d", "/r/d/bad", "processing_file"),
            ev("/r/d", "/r/d/h", "processing_file"),
            ev("/r/d/e", "/r/d/e/g", "processing_file"),
        ]
    );
}

#[test]
fn search_tells_what_it_checks_and_sums() {
    let tree = dir(
        "/r",
        "d",
        vec![
            file("/r/d", "foo.txt", 3),
            dir("/r/d", "sub", vec![dir("/r/d/sub", "foo", vec![file("/r/d/sub/foo", "g", 4)])]),
            unreadable("/r/d", "bad"),
        ],
    );
    let mut entries = Vec::new();
    let mut events = Vec::new();
    calculate_dir_size_with_events(&tree, false, false, "foo", &mut entries, &mut events);
    assert_eq!(entries.len(), 1);
    assert_eq!(entries[0].name, "foo");
    assert_eq!(entries[0].size_raw, 4);
    assert_eq!(entries[0].size_display, "4");
    assert_eq!(entries[0].created_time, Some(1_600_000_000));
    assert_eq!(
        told(&events),
        vec![
            ev("/r/d", "/r/d", "searching_in_directory"),
            ev("/r/d", "/r/d/foo.txt", "checking_file"),
            ev("/r/d", "/r/d/sub", "checking_file"),
            ev("/r/d/sub", "/r/d/sub", "searching_in_directory"),
            ev("/r/d/sub", "/r/d/sub/foo", "checking_file"),
            ev("/r/d/sub", "/r/d/sub/foo", "calculating_matching_directory"),
            ev("/r/d/sub/foo", "/r/d/sub/foo", "calculating_directory_size"),
            ev("/r/d/sub/foo", "/r/d/sub/foo/g", "processing_file"),
            ev("/r/d/sub", "/r/d/sub/foo", "matching_directory_completed"),
        ]
    );
}

#[test]
fn listing_tells_each_stage_of_each_entry() {
    let tree = root(vec![
        dir("/a", "d", vec![file("/a/d", "g", 2000)]),
        file("/a", "c", 5),
        unreadable("/a", "b"),
    ]);
    let mut events = Vec::new();
    let entries = list_directory_with_events(&tree, &options(), &mut events).unwrap();
    let listed: Vec<(String, u64, Option<u64>)> =
        entries.iter().map(|e| (e.name.clone(), e.size_raw, e.created_time)).collect();
    assert_eq!(
        listed,
        vec![
            ("d".to_string(), 2000, Some(1_600_000_000)),
            ("c".to_string(), 5, Some(1_700_000_000)),
        ]
    );
    assert_eq!(entries[0].size_display, "1.95 KB");
    assert_eq!(
        told(&events),
        vec![
            ev("/a", "b", "processing"),
            ev("/a", "b", "progress_0%"),
            ev("/a", "c", "processing"),
            ev("/a", "c", "progress_33%"),
            ev("/a", "/a/c", "completed"),
            ev("/a", "d", "processing"),
            ev("/a", "d", "progress_66%"),
            ev("/a", "/a/d", "calculating_directory_size"),
            ev("/a/d", "/a/d", "calculating_directory_size"),
            ev("/a/d", "/a/d/g", "processing_file"),
            ev("/a", "/a/d", "directory_calculation_completed"),
            ev("/a", "/a/d", "completed"),
        ]
    );
}

#[test]
fn milestones_come_every_tenth_of_the_entries() {
    let mut children = Vec::new();
    for i in 0..25u64 {
        children.push(file("/a", &format!("f{:02}", i), i));
    }
    let mut events = Vec::new();
    list_directory_with_events(&root(children), &options(), &mut events).unwrap();
    let milestones: Vec<String> = events
        .iter()
        .filter(|e| e.status.starts_with("progress_"))
        .map(|e| format!("{} {}", e.current_file, e.status))
        .collect();
    assert_eq!(
        milestones,
        vec![
            "f00 progress_0%",
            "f02 progress_8%",
            "f04 progress_16%",
            "f06 progress_24%",
            "f08 progress_32%",
            "f10 progress_40%",
            "f12 progress_48%",
            "f14 progress_56%",
            "f16 progress_64%",
            "f18 progress_72%",
            "f20 progress_80%",
            "f22 progress_88%",
            "f24 progress_96%",
        ]
    );
    assert_eq!(events.len(), 25 * 2 + 13);
}

#[test]
fn listing_with_a_filter_tells_the_search() {
    let tree = root(vec![
        dir("/a", "bar", vec![dir("/a/bar", "foo2", vec![]), dir("/a/bar", "baz", vec![])]),
        dir("/a", "foo", vec![]),
        file("/a", "foo.txt", 1),
    ]);
    let mut args = options();
    args.name = Some("foo".to_string());
    args.sort = false;
    let mut events = Vec::new();
    let entries = list_directory_with_events(&tree, &args, &mut events).unwrap();
    let names: Vec<String> = entries.iter().map(|e| e.name.clone()).collect();
    assert_eq!(names, vec!["foo2", "foo"]);
    assert_eq!(
        told(&events),
        vec![
            ev("/a", "bar", "processing"),
            ev("/a", "bar", "progress_0%"),
            ev("/a/bar", "/a/bar", "searching_in_directory"),
            ev("/a/bar", "/a/bar/foo2", "checking_file"),
            ev("/a/bar", "/a/bar/foo2", "calculating_matching_directory"),
            ev("/a/bar/foo2", "/a/bar/foo2", "calculating_directory_size"),
            ev("/a/bar", "/a/bar/foo2", "matching_directory_completed"),
            ev("/a/bar", "/a/bar/baz", "checking_file"),
            ev("/a/bar/baz", "/a/bar/baz", "searching_in_directory"),
            ev("/a", "foo", "processing"),
            ev("/a", "foo", "progress_33%"),
            ev("/a", "/a/foo", "calculating_directory_size"),
            ev("/a/foo", "/a/foo", "calculating_directory_size"),
            ev("/a", "/a/foo", "directory_calculation_completed"),
            ev("/a", "/a/foo", "completed"),
            ev("/a", "foo.txt", "processing"),
            ev("/a", "foo.txt", "progress_66%"),
        ]
    );
}

#[test]
fn both_listings_agree_but_for_the_creation_time() {
    let tree = root(vec![
        dir("/a", "d", vec![file("/a/d", "g", 2000)]),
        file("/a", "c", 5),
        file("/a", "e", 70000),
    ]);
    let mut events = Vec::new();
    let with_events = list_directory_with_events(&tree, &options(), &mut events).unwrap();
    let plain = list_directory(&tree, &options()).unwrap();
    assert_eq!(with_events.len(), plain.len());
    for (a, b) in with_events.iter().zip(plain.iter()) {
        assert_eq!(a.name, b.name);
        assert_eq!(a.size_raw, b.size_raw);
        assert_eq!(a.size_display, b.size_display);
        assert_eq!(a.path, b.path);
        assert!(a.created_time.is_some());
        assert_eq!(b.created_time, None);
    }
    assert_eq!(with_events[0].size_raw, 70000);
}

#[test]
fn unreadable_root_gives_no_notification() {
    let closed = FsNode {
        name: "a".to_string(),
        path: "/a".to_string(),
        canonical: None,
        meta: None,
        children: None,
    };
    let mut events = Vec::new();
    let r = list_directory_with_events(&closed, &options(), &mut events);
    assert_eq!(r.err(), Some(ScanError::RootUnreadable));
    assert!(events.is_empty());
}

#[test]
fn without_long_format_no_notification_is_given() {
    let mut args = options();
    args.long_format = false;
    let mut events = Vec::new();
    let entries = list_directory_with_events(&root(vec![file("/a", "c", 5)]), &args, &mut events).unwrap();
    assert!(entries.is_empty());
    assert!(events.is_empty());
}
