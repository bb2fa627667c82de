use mkube::scanner::{
    classify_listing, has_video_extension, is_self_reference, nomedia_marker, DirEntry, EntryKind,
    Listing, PendingDir, ScanItem, Scanner,
};

fn file(name: &str) -> DirEntry {
    DirEntry { name: name.to_string(), kind: EntryKind::File }
}

fn dir(name: &str) -> DirEntry {
    DirEntry { name: name.to_string(), kind: EntryKind::Directory }
}

/// A directory of a simulated tree: its path below the root, whether it
/// holds the marker file, and its entries.
struct SimDir {
    path: Vec<&'static str>,
    marked: bool,
    entries: Vec<DirEntry>,
}

fn listing_for(tree: &[SimDir], d: &PendingDir) -> Listing {
    let comps: Vec<&str> = d.components.iter().map(|s| s.as_str()).collect();
    match tree.iter().find(|s| s.path == comps) {
        Some(s) if s.marked => Listing::Marked,
        Some(s) => Listing::Entries(s.entries.clone()),
        None => Listing::Failed(format!("no such directory: {}", comps.join("/"))),
    }
}

/// Runs a scan to the end over a simulated tree; returns the found files as
/// "dir/.../name" paths, and the failures.
fn run_scan(tree: &[SimDir], library: usize, depth: usize) -> (Vec<String>, Vec<String>, bool) {
    let mut s = Scanner::new(library, depth);
    let mut files = Vec::new();
    let mut failures = Vec::new();
    let mut cancelled = false;
    loop {
        while let Some(item) = s.next_item() {
            match item {
                ScanItem::Found { dir, name } => {
                    let mut p = dir.clone();
                    p.push(name);
                    files.push(p.join("/"));
                }
                ScanItem::Failed(m) => failures.push(m),
                ScanItem::Cancelled => cancelled = true,
            }
        }
        match s.next_request() {
            Some(d) => {
                let l = listing_for(tree, &d);
                assert!(s.deliver(&d, l));
            }
            None => break,
        }
    }
    assert!(s.is_exhausted());
    files.sort();
    (files, failures, cancelled)
}

fn nested_tree() -> Vec<SimDir> {
    vec![
        SimDir { path: vec![], marked: false, entries: vec![file("top.mkv"), dir("a"), file("notes.txt")] },
        SimDir { path: vec!["a"], marked: false, entries: vec![file("one.mp4"), dir("b")] },
        SimDir { path: vec!["a", "b"], marked: false, entries: vec![file("two.avi"), dir("c")] },
        SimDir { path: vec!["a", "b", "c"], marked: false, entries: vec![file("three.webm")] },
    ]
}

#[test]
fn video_extensions_are_recognised() {
    assert!(has_video_extension("movie.mkv"));
    assert!(has_video_extension("a.b.mp4"));
    assert!(has_video_extension("clip.m4v"));
    assert!(has_video_extension("disc.iso"));
    assert!(!has_video_extension("movie.MKV"));
    assert!(!has_video_extension(".mp4"));
    assert!(!has_video_extension("mp4"));
    assert!(!has_video_extension("notes.txt"));
    assert!(!has_video_extension("movie."));
    assert!(!has_video_extension(""));
}

#[test]
fn self_references_are_recognised() {
    assert!(is_self_reference("."));
    assert!(is_self_reference(".."));
    assert!(!is_self_reference("..."));
    assert!(!is_self_reference(".a"));
    assert!(!is_self_reference("a"));
}

#[test]
fn marker_name_is_nomedia() {
    assert_eq!(nomedia_marker(), ".nomedia");
}

#[test]
fn classify_keeps_videos_and_subdirectories() {
    let root = PendingDir { components: vec!["x".to_string()], depth_left: 2 };
    let entries = vec![
        file("a.mkv"),
        file("b.srt"),
        dir("sub"),
        dir("."),
        dir(".."),
        DirEntry { name: "link.mkv".to_string(), kind: EntryKind::Other },
        file("c.mov"),
    ];
    let (files, subdirs) = classify_listing(&root, &entries);
    let names: Vec<String> = files
        .iter()
        .map(|f| match f {
            ScanItem::Found { dir, name } => format!("{}/{}", dir.join("/"), name),
            _ => panic!("not a file"),
        })
        .collect();
    assert_eq!(names, vec!["x/a.mkv".to_string(), "x/c.mov".to_string()]);
    assert_eq!(subdirs.len(), 1);
    assert_eq!(subdirs[0].components, vec!["x".to_string(), "sub".to_string()]);
    assert_eq!(subdirs[0].depth_left, 1);
}

#[test]
fn classify_at_depth_zero_enters_nothing() {
    let root = PendingDir { components: vec![], depth_left: 0 };
    let (files, subdirs) = classify_listing(&root, &vec![file("a.mkv"), dir("sub")]);
    assert_eq!(files.len(), 1);
    assert!(subdirs.is_empty());
}

#[test]
fn depth_limits_how_deep_files_are_found() {
    let tree = nested_tree();
    let (files, failures, _) = run_scan(&tree, 0, 0);
    assert_eq!(files, vec!["top.mkv".to_string()]);
    assert!(failures.is_empty());
    let (files, _, _) = run_scan(&tree, 0, 1);
    assert_eq!(files, vec!["a/one.mp4".to_string(), "top.mkv".to_string()]);
    let (files, _, _) = run_scan(&tree, 0, 4);
    assert_eq!(
        files,
        vec![
            "a/b/c/three.webm".to_string(),
            "a/b/two.avi".to_string(),
            "a/one.mp4".to_string(),
            "top.mkv".to_string()
        ]
    );
}

#[test]
fn marked_root_yields_nothing_at_any_depth() {
    let mut tree = nested_tree();
    tree[0].marked = true;
    for depth in [0usize, 1, 3, 10] {
        let (files, failures, cancelled) = run_scan(&tree, 0, depth);
        assert!(files.is_empty());
        assert!(failures.is_empty());
        assert!(!cancelled);
    }
}

#[test]
fn marked_subdirectory_is_skipped() {
    let mut tree = nested_tree();
    tree[2].marked = true;
    let (files, _, _) = run_scan(&tree, 0, 4);
    assert_eq!(files, vec!["a/one.mp4".to_string(), "top.mkv".to_string()]);
}

#[test]
fn two_libraries_with_marked_subdirectories() {
    let lib0 = vec![
        SimDir { path: vec![], marked: false, entries: vec![file("first.mkv"), dir("extras")] },
        SimDir { path: vec!["extras"], marked: true, entries: vec![file("hidden.mkv")] },
    ];
    let lib1 = vec![
        SimDir { path: vec![], marked: false, entries: vec![dir("private"), file("second.mp4")] },
        SimDir { path: vec!["private"], marked: true, entries: vec![file("secret.mp4")] },
    ];
    let (f0, e0, _) = run_scan(&lib0, 0, 4);
    let (f1, e1, _) = run_scan(&lib1, 1, 4);
    let mut all: Vec<String> = f0.into_iter().chain(f1).collect();
    all.sort();
    assert_eq!(all, vec!["first.mkv".to_string(), "second.mp4".to_string()]);
    assert!(e0.is_empty() && e1.is_empty());
}

#[test]
fn missing_root_yields_a_single_failure() {
    let tree: Vec<SimDir> = vec![];
    let (files, failures, _) = run_scan(&tree, 0, 4);
    assert!(files.is_empty());
    assert_eq!(failures.len(), 1);
}

#[test]
fn deleted_library_cancels_scan_in_flight() {
    let tree = nested_tree();
    let mut s = Scanner::new(3, 4);
    let root = s.next_request().unwrap();
    assert!(s.deliver(&root, listing_for(&tree, &root)));
    let sub = s.next_request().unwrap();
    assert_eq!(sub.components, vec!["a".to_string()]);
    assert!(s.deliver(&sub, Listing::Cancelled));
    assert!(s.is_cancelled());
    assert!(matches!(s.next_item(), Some(ScanItem::Cancelled)));
    assert!(s.next_item().is_none());
    assert!(s.next_request().is_none());
    let late = PendingDir { components: vec!["a".to_string(), "b".to_string()], depth_left: 2 };
    assert!(!s.deliver(&late, Listing::Entries(vec![file("late.mkv")])));
    assert!(s.next_item().is_none());
    assert!(s.is_exhausted());
}

#[test]
fn foreign_directory_is_ignored() {
    let mut s = Scanner::new(0, 2);
    let _root = s.next_request().unwrap();
    let forged = PendingDir { components: vec![], depth_left: 5 };
    assert!(!s.deliver(&forged, Listing::Entries(vec![file("x.mkv")])));
    assert!(s.next_item().is_none());
    assert!(!s.is_exhausted());
}

#[test]
fn failed_listing_is_reported() {
    let mut s = Scanner::new(0, 1);
    let root = s.next_request().unwrap();
    assert!(s.deliver(&root, Listing::Failed("permission denied".to_string())));
    match s.next_item() {
        Some(ScanItem::Failed(m)) => assert_eq!(m, "permission denied"),
        _ => panic!("expected a failure"),
    }
    assert!(s.is_exhausted());
}
