use dir_compare::compare::{compare, find_diffs, missing, ComparisonResult};
use dir_compare::entry::FileEntry;
use dir_compare::walk::{Listing, NamePolicy, RawEntry, ScanError, Walk};

fn p(parts: &[&str]) -> Vec<String> {
    parts.iter().map(|s| s.to_string()).collect()
}

fn file(name: &str, size: u64) -> RawEntry {
    RawEntry { name: Some(name.to_string()), size: Some(size), is_dir: false }
}

fn dir(name: &str) -> RawEntry {
    RawEntry { name: Some(name.to_string()), size: Some(4096), is_dir: true }
}

/// Runs a walk where `read` gives the listing of each directory.
fn run_walk(root: &[&str], policy: NamePolicy, read: &dyn Fn(&[String]) -> Listing) -> Result<Vec<FileEntry>, ScanError> {
    let mut walk = Walk::new(p(root), policy);
    while let Some(d) = walk.next_dir() {
        let listing = read(&d);
        walk.absorb(listing);
    }
    walk.finish()
}

fn tree_a(d: &[String]) -> Listing {
    match d.join("/").as_str() {
        "/a" => Listing::Entries(vec![file("a.txt", 10), dir("sub")]),
        "/a/sub" => Listing::Entries(vec![file("b.txt", 5)]),
        _ => Listing::Unreadable("no such directory".to_string()),
    }
}

fn tree_b(d: &[String]) -> Listing {
    match d.join("/").as_str() {
        "/b" => Listing::Entries(vec![file("a.txt", 10), file("c.txt", 3)]),
        _ => Listing::Unreadable("no such directory".to_string()),
    }
}

fn keys(v: &[FileEntry]) -> Vec<(String, u64)> {
    let mut k: Vec<(String, u64)> = v.iter().map(|e| (e.name.clone(), e.size)).collect();
    k.sort();
    k
}

fn scenario() -> ComparisonResult {
    let a = run_walk(&["", "a"], NamePolicy::SkipEntry, &tree_a);
    let b = run_walk(&["", "b"], NamePolicy::SkipEntry, &tree_b);
    find_diffs(a, b, p(&["", "a"]), p(&["", "b"])).unwrap()
}

#[test]
fn scenario_missing_lists() {
    let r = scenario();
    assert_eq!(r.left_missing.len(), 1);
    assert_eq!(r.left_missing[0].name, "b.txt");
    assert_eq!(r.left_missing[0].size, 5);
    assert_eq!(r.left_missing[0].path, p(&["", "a", "sub", "b.txt"]));
    assert_eq!(r.right_missing.len(), 1);
    assert_eq!(r.right_missing[0].name, "c.txt");
    assert_eq!(r.right_missing[0].size, 3);
    assert_eq!(r.right_missing[0].path, p(&["", "b", "c.txt"]));
    assert!(!r.left_missing.iter().any(|e| e.name == "a.txt"));
    assert!(!r.right_missing.iter().any(|e| e.name == "a.txt"));
    assert_eq!(r.left_root, p(&["", "a"]));
    assert_eq!(r.right_root, p(&["", "b"]));
}

#[test]
fn walk_records_files_not_directories() {
    let a = run_walk(&["", "a"], NamePolicy::SkipEntry, &tree_a).unwrap();
    assert_eq!(keys(&a), vec![("a.txt".to_string(), 10), ("b.txt".to_string(), 5)]);
    assert!(a.iter().all(|e| !e.should_copy));
}

#[test]
fn identity_symmetry_on_scenario() {
    let a = run_walk(&["", "a"], NamePolicy::SkipEntry, &tree_a).unwrap();
    let b = run_walk(&["", "b"], NamePolicy::SkipEntry, &tree_b).unwrap();
    let ab = compare(&a, &b, p(&["", "a"]), p(&["", "b"]));
    let ba = compare(&b, &a, p(&["", "b"]), p(&["", "a"]));
    assert_eq!(keys(&ab.left_missing), keys(&ba.right_missing));
    assert_eq!(keys(&ab.right_missing), keys(&ba.left_missing));
    assert_eq!(ab.left_missing[0].path, ba.right_missing[0].path);
}

#[test]
fn missing_lists_are_disjoint() {
    let r = scenario();
    for l in &r.left_missing {
        for rt in &r.right_missing {
            assert!(!l.same_identity(rt));
        }
    }
}

#[test]
fn comparing_twice_gives_the_same_keys() {
    let first = scenario();
    let second = scenario();
    assert_eq!(keys(&first.left_missing), keys(&second.left_missing));
    assert_eq!(keys(&first.right_missing), keys(&second.right_missing));
}

#[test]
fn listing_order_does_not_change_keys() {
    let reversed = |d: &[String]| match d.join("/").as_str() {
        "/a" => Listing::Entries(vec![dir("sub"), file("a.txt", 10)]),
        "/a/sub" => Listing::Entries(vec![file("b.txt", 5)]),
        _ => Listing::Unreadable("no such directory".to_string()),
    };
    let a1 = run_walk(&["", "a"], NamePolicy::SkipEntry, &tree_a).unwrap();
    let a2 = run_walk(&["", "a"], NamePolicy::SkipEntry, &reversed).unwrap();
    let b = run_walk(&["", "b"], NamePolicy::SkipEntry, &tree_b).unwrap();
    let r1 = compare(&a1, &b, p(&["", "a"]), p(&["", "b"]));
    let r2 = compare(&a2, &b, p(&["", "a"]), p(&["", "b"]));
    assert_eq!(keys(&r1.left_missing), keys(&r2.left_missing));
    assert_eq!(keys(&r1.right_missing), keys(&r2.right_missing));
}

#[test]
fn unreadable_subdirectory_is_skipped() {
    let read = |d: &[String]| match d.join("/").as_str() {
        "/r" => Listing::Entries(vec![dir("one"), dir("locked"), dir("two")]),
        "/r/one" => Listing::Entries(vec![file("x", 1)]),
        "/r/two" => Listing::Entries(vec![file("y", 2)]),
        _ => Listing::Unreadable("permission denied".to_string()),
    };
    let found = run_walk(&["", "r"], NamePolicy::SkipEntry, &read).unwrap();
    assert_eq!(keys(&found), vec![("x".to_string(), 1), ("y".to_string(), 2)]);
}

#[test]
fn unreadable_root_fails_the_walk() {
    let read = |_: &[String]| Listing::Unreadable("permission denied".to_string());
    match run_walk(&["", "r"], NamePolicy::SkipEntry, &read) {
        Err(ScanError::RootUnreadable(m)) => assert_eq!(m, "permission denied"),
        other => panic!("unexpected {:?}", other),
    }
}

#[test]
fn entry_without_metadata_is_skipped() {
    let read = |d: &[String]| match d.join("/").as_str() {
        "/r" => Listing::Entries(vec![RawEntry { name: Some("gone".to_string()), size: None, is_dir: true }, file("kept", 7)]),
        _ => Listing::Unreadable("no such directory".to_string()),
    };
    let found = run_walk(&["", "r"], NamePolicy::FailWalk, &read).unwrap();
    assert_eq!(keys(&found), vec![("kept".to_string(), 7)]);
}

fn tree_with_bad_name(d: &[String]) -> Listing {
    match d.join("/").as_str() {
        "/r" => Listing::Entries(vec![file("ok", 1), dir("sub")]),
        "/r/sub" => Listing::Entries(vec![RawEntry { name: None, size: Some(3), is_dir: false }, file("fine", 2)]),
        _ => Listing::Unreadable("no such directory".to_string()),
    }
}

#[test]
fn skip_entry_policy_leaves_out_bad_names() {
    let found = run_walk(&["", "r"], NamePolicy::SkipEntry, &tree_with_bad_name).unwrap();
    assert_eq!(keys(&found), vec![("fine".to_string(), 2), ("ok".to_string(), 1)]);
}

#[test]
fn fail_walk_policy_fails_on_bad_names() {
    match run_walk(&["", "r"], NamePolicy::FailWalk, &tree_with_bad_name) {
        Err(ScanError::NameEncoding(d)) => assert_eq!(d, p(&["", "r", "sub"])),
        other => panic!("unexpected {:?}", other),
    }
}

#[test]
fn duplicate_identity_keeps_one_entry_last_path_wins() {
    let read = |d: &[String]| match d.join("/").as_str() {
        "/r" => Listing::Entries(vec![file("same", 4), dir("sub")]),
        "/r/sub" => Listing::Entries(vec![file("same", 4), file("same", 5)]),
        _ => Listing::Unreadable("no such directory".to_string()),
    };
    let found = run_walk(&["", "r"], NamePolicy::SkipEntry, &read).unwrap();
    assert_eq!(keys(&found), vec![("same".to_string(), 4), ("same".to_string(), 5)]);
    let e = found.iter().find(|e| e.name == "same" && e.size == 4).unwrap();
    assert_eq!(e.path, p(&["", "r", "sub", "same"]));
}

#[test]
fn failed_scan_fails_the_comparison() {
    let good = Ok(vec![FileEntry::new("a".to_string(), p(&["", "x", "a"]), 1)]);
    let left_bad: Result<Vec<FileEntry>, ScanError> = Err(ScanError::RootUnreadable("left".to_string()));
    let right_bad: Result<Vec<FileEntry>, ScanError> = Err(ScanError::RootUnreadable("right".to_string()));
    match find_diffs(left_bad, good, p(&["", "x"]), p(&["", "y"])) {
        Err(ScanError::RootUnreadable(m)) => assert_eq!(m, "left"),
        other => panic!("unexpected {:?}", other),
    }
    let good = Ok(vec![FileEntry::new("a".to_string(), p(&["", "x", "a"]), 1)]);
    match find_diffs(good, right_bad, p(&["", "x"]), p(&["", "y"])) {
        Err(ScanError::RootUnreadable(m)) => assert_eq!(m, "right"),
        other => panic!("unexpected {:?}", other),
    }
}

#[test]
fn same_name_different_size_is_missing_on_both_sides() {
    let a = vec![FileEntry::new("f".to_string(), p(&["", "a", "f"]), 1)];
    let b = vec![FileEntry::new("f".to_string(), p(&["", "b", "f"]), 2)];
    assert_eq!(missing(&a, &b).len(), 1);
    assert_eq!(missing(&b, &a).len(), 1);
    let empty: Vec<FileEntry> = Vec::new();
    assert_eq!(missing(&empty, &a).len(), 0);
    assert_eq!(missing(&a, &empty)[0].path, p(&["", "a", "f"]));
}
