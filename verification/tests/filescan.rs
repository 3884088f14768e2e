use muc::shared::filesystem::{EntryKind, FileScan, ScanEntry};

fn entry(name: &str, kind: EntryKind) -> ScanEntry {
    ScanEntry { name: name.to_string(), kind }
}

#[test]
fn scan_sorts_entries_by_kind() {
    let scan = FileScan::new(Some(vec![
        entry("b", EntryKind::File),
        entry("d1", EntryKind::Directory),
        entry("link", EntryKind::Other),
        entry("a", EntryKind::File),
        entry("d2", EntryKind::Directory),
    ]))
    .unwrap();
    let dirs: Vec<String> = scan.directories().iter().map(|d| d.name().clone()).collect();
    let files: Vec<String> = scan.files().iter().map(|f| f.name().clone()).collect();
    assert_eq!(dirs, vec!["d1", "d2"]);
    assert_eq!(files, vec!["b", "a"]);
    assert!(scan.has_dir("d2"));
    assert!(!scan.has_dir("a"));
    assert!(scan.has_file("a"));
    assert!(!scan.has_file("link"));
    assert!(!scan.has_dir("link"));
}

#[test]
fn no_listing_no_scan() {
    assert!(FileScan::new(None).is_none());
    let empty = FileScan::new(Some(Vec::new())).unwrap();
    assert!(empty.directories().is_empty() && empty.files().is_empty());
    let default = FileScan::default();
    assert!(!default.has_dir("") && !default.has_file(""));
}

#[test]
fn clone_keeps_names() {
    let scan = FileScan::new(Some(vec![entry("x", EntryKind::Directory), entry("y", EntryKind::File)])).unwrap();
    let copy = scan.clone();
    assert!(copy.has_dir("x") && copy.has_file("y"));
    assert_eq!(copy.directories().len(), 1);
    assert_eq!(copy.files().len(), 1);
}

#[test]
fn improper_names_are_left_out() {
    let scan = FileScan::new(Some(vec![
        entry(".", EntryKind::Directory),
        entry("..", EntryKind::Directory),
        entry("", EntryKind::File),
        entry("a/b", EntryKind::Directory),
        entry("ok", EntryKind::Directory),
        entry(".hidden", EntryKind::File),
    ]))
    .unwrap();
    let dirs: Vec<String> = scan.directories().iter().map(|d| d.name().clone()).collect();
    let files: Vec<String> = scan.files().iter().map(|f| f.name().clone()).collect();
    assert_eq!(dirs, vec!["ok"]);
    assert_eq!(files, vec![".hidden"]);
    assert!(!scan.has_dir(".."));
}
