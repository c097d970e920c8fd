use file_explorer::errors::EngineError;
use file_explorer::fileops::delete_action;
use file_explorer::fileops::plan_copy_into;
use file_explorer::fileops::plan_create_directory;
use file_explorer::fileops::plan_create_file;
use file_explorer::fileops::plan_rename;
use file_explorer::fileops::DeleteAction;
use file_explorer::listing::build_listing;
use file_explorer::listing::Entry;
use file_explorer::listing::RawEntry;
use file_explorer::names::resolve_create;
use file_explorer::names::resolve_general;
use file_explorer::names::u64_to_string;
use file_explorer::pathops::base_name_of;
use file_explorer::pathops::join_path;
use file_explorer::pathops::parent_of;
use file_explorer::session::ClipboardController;
use file_explorer::session::RenameController;
use file_explorer::session::SelectionModel;

fn names(v: &[&str]) -> Vec<String> {
    v.iter().map(|s| s.to_string()).collect()
}

fn raw_dir(name: &str, dir: &str) -> RawEntry {
    RawEntry {
        name: name.to_string(),
        path: format!("{}/{}", dir, name),
        is_dir: true,
        size: 0,
        accessed_secs: None,
    }
}

fn raw_file(name: &str, dir: &str, size: u64, secs: Option<i64>) -> RawEntry {
    RawEntry {
        name: name.to_string(),
        path: format!("{}/{}", dir, name),
        is_dir: false,
        size,
        accessed_secs: secs,
    }
}

#[test]
fn listing_of_file_and_subdir() {
    let raw = vec![raw_file("a.txt", "/tmp/x", 42, None), raw_dir("sub", "/tmp/x")];
    let listing = build_listing(raw);
    assert_eq!(listing.len(), 2);
    match &listing[0] {
        Entry::Directory { name, path } => {
            assert_eq!(name.as_str(), "sub");
            assert_eq!(path.as_str(), "/tmp/x/sub");
        }
        _ => panic!("expected the directory first"),
    }
    match &listing[1] {
        Entry::File { name, size, path, access } => {
            assert_eq!(name.as_str(), "a.txt");
            assert_eq!(*size, 42);
            assert_eq!(path.as_str(), "/tmp/x/a.txt");
            assert_eq!(access.as_str(), "");
        }
        _ => panic!("expected the file second"),
    }
}

#[test]
fn listing_sorts_each_group_by_name() {
    let raw = vec![
        raw_file("c.txt", "/d", 1, None),
        raw_dir("zeta", "/d"),
        raw_file("b.txt", "/d", 2, None),
        raw_dir("alpha", "/d"),
    ];
    let listing = build_listing(raw);
    let got: Vec<(bool, String)> =
        listing.iter().map(|e| (e.is_dir(), e.name().clone())).collect();
    assert_eq!(
        got,
        vec![
            (true, "alpha".to_string()),
            (true, "zeta".to_string()),
            (false, "b.txt".to_string()),
            (false, "c.txt".to_string()),
        ]
    );
}

#[test]
fn listing_same_snapshot_same_entries() {
    let make = || {
        vec![
            raw_file("m.txt", "/d", 5, Some(0)),
            raw_dir("q", "/d"),
            raw_file("a.txt", "/d", 7, None),
        ]
    };
    let l1 = build_listing(make());
    let l2 = build_listing(make());
    assert_eq!(l1.len(), 3);
    assert_eq!(l2.len(), 3);
    let k1: Vec<(bool, String)> = l1.iter().map(|e| (e.is_dir(), e.name().clone())).collect();
    let k2: Vec<(bool, String)> = l2.iter().map(|e| (e.is_dir(), e.name().clone())).collect();
    assert_eq!(k1, k2);
}

#[test]
fn listing_formats_access_timestamp() {
    let raw = vec![
        raw_file("epoch.txt", "/d", 1, Some(0)),
        raw_file("later.txt", "/d", 1, Some(1577934240)),
    ];
    let listing = build_listing(raw);
    match &listing[0] {
        Entry::File { access, .. } => assert_eq!(access.as_str(), "1970-01-01 00:00"),
        _ => panic!("expected a file"),
    }
    match &listing[1] {
        Entry::File { access, .. } => assert_eq!(access.as_str(), "2020-01-02 03:04"),
        _ => panic!("expected a file"),
    }
}

#[test]
fn resolve_create_counts_before_extension() {
    let r = resolve_create("new_file.txt", &names(&["new_file.txt"]));
    assert_eq!(r.unwrap(), "new_file_0.txt");
    let r = resolve_create("new_file.txt", &names(&["new_file.txt", "new_file_0.txt"]));
    assert_eq!(r.unwrap(), "new_file_1.txt");
}

#[test]
fn resolve_create_free_name_unchanged() {
    let r = resolve_create("new_file.txt", &names(&["other.txt"]));
    assert_eq!(r.unwrap(), "new_file.txt");
}

#[test]
fn resolve_general_counts_after_name() {
    let r = resolve_general("report", &names(&["report"]));
    assert_eq!(r.unwrap(), "report0");
    let r = resolve_general("report", &names(&["report", "report0"]));
    assert_eq!(r.unwrap(), "report1");
}

#[test]
fn resolve_general_free_name_unchanged() {
    let r = resolve_general("report", &names(&["summary"]));
    assert_eq!(r.unwrap(), "report");
}

#[test]
fn resolve_general_keeps_extension_last_candidate_whole() {
    // the rename/paste scheme appends after the full name, extension included
    let r = resolve_general("notes.txt", &names(&["notes.txt"]));
    assert_eq!(r.unwrap(), "notes.txt0");
}

#[test]
fn create_file_twice_in_a_row() {
    let mut existing: Vec<String> = Vec::new();
    let first = plan_create_file(&existing).unwrap();
    assert_eq!(first, "new_file.txt");
    existing.push(first);
    let second = plan_create_file(&existing).unwrap();
    assert_eq!(second, "new_file_0.txt");
}

#[test]
fn create_directory_uses_suffix_after_name() {
    let r = plan_create_directory(&names(&[])).unwrap();
    assert_eq!(r, "new_folder");
    let r = plan_create_directory(&names(&["new_folder"])).unwrap();
    assert_eq!(r, "new_folder0");
}

#[test]
fn rename_to_free_name() {
    let plan = plan_rename(
        &"/tmp/x/old.txt".to_string(),
        &"x".to_string(),
        &names(&["old.txt", "a"]),
    )
    .unwrap();
    assert_eq!(plan.resolved_name, "x");
    assert_eq!(plan.new_path, "/tmp/x/x");
    assert!(!plan.adjusted);
}

#[test]
fn rename_collision_is_adjusted_and_reported() {
    let plan = plan_rename(
        &"/tmp/x/old.txt".to_string(),
        &"a".to_string(),
        &names(&["old.txt", "a"]),
    )
    .unwrap();
    assert_eq!(plan.resolved_name, "a0");
    assert_eq!(plan.new_path, "/tmp/x/a0");
    assert!(plan.adjusted);
}

#[test]
fn delete_maps_directory_to_recursive_removal() {
    let e = Entry::Directory { name: "sub".to_string(), path: "/d/sub".to_string() };
    match delete_action(&e) {
        DeleteAction::RemoveDirRecursive { path } => assert_eq!(path.as_str(), "/d/sub"),
        _ => panic!("expected recursive removal"),
    }
}

#[test]
fn delete_maps_file_to_single_removal() {
    let e = Entry::File {
        name: "a.txt".to_string(),
        size: 1,
        path: "/d/a.txt".to_string(),
        access: String::new(),
    };
    match delete_action(&e) {
        DeleteAction::RemoveFile { path } => assert_eq!(path.as_str(), "/d/a.txt"),
        _ => panic!("expected single-file removal"),
    }
}

#[test]
fn copy_into_plans_fresh_destination() {
    let plan = plan_copy_into(
        &"/src/d/f.txt".to_string(),
        false,
        &"/dst".to_string(),
        &names(&["g.txt"]),
    )
    .unwrap();
    assert_eq!(plan.dest_name, "f.txt");
    assert_eq!(plan.dest_path, "/dst/f.txt");
}

#[test]
fn copy_into_disambiguates_destination() {
    let plan = plan_copy_into(
        &"/src/d/f.txt".to_string(),
        false,
        &"/dst".to_string(),
        &names(&["f.txt"]),
    )
    .unwrap();
    assert_eq!(plan.dest_name, "f.txt0");
    assert_eq!(plan.dest_path, "/dst/f.txt0");
}

#[test]
fn copy_into_rejects_directory_source() {
    let r = plan_copy_into(
        &"/src/d/sub".to_string(),
        true,
        &"/dst".to_string(),
        &names(&[]),
    );
    assert_eq!(r.unwrap_err(), EngineError::UnsupportedOperation);
}

#[test]
fn select_out_of_range_fails() {
    let mut sel = SelectionModel::new();
    sel.set_listing(3);
    let r = sel.select(5);
    assert_eq!(r.unwrap_err(), EngineError::IndexOutOfRange);
    assert_eq!(sel.current(), None);
    sel.select(2).unwrap();
    assert_eq!(sel.current(), Some(2));
}

#[test]
fn selection_dropped_on_new_listing() {
    let mut sel = SelectionModel::new();
    sel.set_listing(4);
    sel.select(1).unwrap();
    assert_eq!(sel.current(), Some(1));
    sel.set_listing(4);
    assert_eq!(sel.current(), None);
}

#[test]
fn clipboard_keeps_source_after_reading() {
    let mut clip = ClipboardController::new();
    assert!(clip.source().is_none());
    clip.copy("/a/b.txt".to_string());
    assert_eq!(clip.source().unwrap().as_str(), "/a/b.txt");
    assert_eq!(clip.source().unwrap().as_str(), "/a/b.txt");
}

#[test]
fn rename_edit_seeds_name_and_commits() {
    let mut edit = RenameController::new();
    assert!(!edit.active);
    edit.begin("/tmp/x/old.txt".to_string());
    assert!(edit.active);
    assert_eq!(edit.edited_text, "old.txt");
    edit.set_text("x".to_string());
    let req = edit.commit();
    assert_eq!(req.old_path, "/tmp/x/old.txt");
    assert_eq!(req.new_name, "x");
    assert!(!edit.active);
    assert_eq!(edit.edited_text, "");
}

#[test]
fn path_split_and_join() {
    assert_eq!(join_path("/a", "b"), "/a/b");
    assert_eq!(parent_of("/a/b"), "/a");
    assert_eq!(base_name_of("/a/b"), "b");
    assert_eq!(parent_of("plain"), "");
    assert_eq!(base_name_of("plain"), "plain");
    assert_eq!(base_name_of("/a/b/c.txt"), "c.txt");
}

#[test]
fn decimal_rendering() {
    assert_eq!(u64_to_string(0), "0");
    assert_eq!(u64_to_string(7), "7");
    assert_eq!(u64_to_string(12345), "12345");
    assert_eq!(u64_to_string(u64::MAX), "18446744073709551615");
}
