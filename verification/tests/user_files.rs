use muc::server::client::filesystem::{
    is_proper_name, user_files_root, CdStep, FileSystem, PathKind, UserPath, UserPathBit,
};
use muc::server::file::Path;
use muc::shared::filesystem::{EntryKind, FileScan, ScanEntry};

const BASE: &str = "C:\\muc\\server";
const USER: &str = "baa2b3e9-bbef-4cc6-b82b-a42654edf87d";

fn scan_of(dirs: &[&str], files: &[&str]) -> FileScan {
    let mut entries = Vec::new();
    for d in dirs {
        entries.push(ScanEntry { name: d.to_string(), kind: EntryKind::Directory });
    }
    for f in files {
        entries.push(ScanEntry { name: f.to_string(), kind: EntryKind::File });
    }
    FileScan::new(Some(entries)).unwrap()
}

#[test]
fn path() {
    let p = Path::from(user_files_root()).build(BASE);
    println!("{p}");
    assert_eq!(p, "C:\\muc\\server\\files\\user_files/");
    let bits = UserPath::relative_bits("", BASE);
    assert!(bits.is_empty());
    let user_path = UserPath::new_root(USER.to_string());
    println!("total bits: {:?}", bits);
    let built = user_path.build(BASE);
    println!("{}", built);
    assert_eq!(built, "C:/muc/server/files/user_files/baa2b3e9-bbef-4cc6-b82b-a42654edf87d/");
    println!("Valid: {}", std::path::Path::new(&built).exists());
}

#[test]
fn dir() {
    let id = u128::from_str_radix("baa2b3e9bbef4cc6b82ba42654edf87d", 16).unwrap();
    let mut files = FileSystem::new(id);
    assert_eq!(files.user_id(), USER);
    assert!(files.is_root());
    files.set_scan(scan_of(&["test_dir"], &["notes.txt"]));
    let steps = muc::text::split_char("test_dir/..", '/');
    assert_eq!(steps, vec!["test_dir".to_string(), "..".to_string()]);
    assert_eq!(files.cd_step(&steps[0]), CdStep::Entered);
    assert!(!files.is_root());
    files.set_scan(scan_of(&[], &[]));
    assert_eq!(files.cd_step(&steps[1]), CdStep::Left);
    assert!(files.is_root());
    println!("{:?}", files.current_dir_scan);
    println!("Done")
}

#[test]
fn cd_at_root_stays() {
    let mut files = FileSystem::new(7);
    assert_eq!(files.cd_step(".."), CdStep::AtRoot);
    assert!(files.is_root());
}

#[test]
fn cd_unknown_name_goes_up() {
    let mut files = FileSystem::new(7);
    files.set_scan(scan_of(&["a"], &[]));
    assert_eq!(files.cd_step("a"), CdStep::Entered);
    files.set_scan(scan_of(&["b"], &[]));
    // A name the scan does not hold moves up, as `..` does.
    assert_eq!(files.cd_step("missing"), CdStep::Left);
    assert!(files.is_root());
    // `..` is never entered, even if a directory is named so.
    files.set_scan(scan_of(&[".."], &[]));
    assert_eq!(files.cd_step(".."), CdStep::AtRoot);
}

#[test]
fn cd_never_leaves_the_user_directory() {
    let mut files = FileSystem::new(9);
    let root = files.current_directory().build(BASE);
    files.set_scan(scan_of(&["a"], &[]));
    for action in "a/../../../..".split('/') {
        files.cd_step(action);
        assert!(files.current_directory().build(BASE).starts_with(&root));
        files.set_scan(scan_of(&["a"], &[]));
    }
    assert!(files.is_root());
    assert_eq!(files.current_directory().build(BASE), root);
}

#[test]
fn enter_then_leave_restores_path() {
    let mut files = FileSystem::new(1);
    files.set_scan(scan_of(&["docs"], &[]));
    let before = files.current_directory().build(BASE);
    assert_eq!(files.cd_step("docs"), CdStep::Entered);
    assert_eq!(files.current_directory().build(BASE), format!("{before}docs/"));
    assert_eq!(files.cd_step(".."), CdStep::Left);
    assert_eq!(files.current_directory().build(BASE), before);
}

#[test]
fn user_path_push_pop_parent() {
    let mut p = UserPath::new_root("u".to_string());
    assert!(p.is_root());
    assert!(p.parent().is_none());
    p.push(UserPathBit::Directory("a".to_string()));
    p.push(UserPathBit::File("f.txt".to_string()));
    assert_eq!(p.build("B"), "B/files/user_files/u/a/f.txt");
    let parent = p.parent().unwrap();
    assert_eq!(parent.build("B"), "B/files/user_files/u/a/");
    match p.pop() {
        Some(UserPathBit::File(name)) => assert_eq!(name, "f.txt"),
        other => panic!("unexpected {other:?}"),
    }
    assert_eq!(p.build("B"), parent.build("B"));
    assert!(p.pop().is_some());
    assert!(p.pop().is_none());
    assert!(p.is_root());
}

#[test]
fn build_cleans_root() {
    let p = UserPath::new_root("id".to_string());
    assert_eq!(p.build("\\\\?\\D:\\data"), "D:/data/files/user_files/id/");
    assert_eq!(p.build("x\\"), "x/files/user_files/id/");
}

#[test]
fn relative_bits_strip_root_and_empty_steps() {
    let root = Path::from(user_files_root()).build(BASE);
    let text = format!("{root}abc//def\\ghi/");
    let bits = UserPath::relative_bits(&text, BASE);
    assert_eq!(bits, vec!["abc".to_string(), "def".to_string(), "ghi".to_string()]);
    assert_eq!(UserPath::relative_bits("a/b", BASE), vec!["a".to_string(), "b".to_string()]);
}

#[test]
fn descend_follows_disk() {
    let mut p = UserPath::new_root("u".to_string());
    assert!(p.descend("d", PathKind::Directory, PathKind::Directory));
    assert!(p.descend("f", PathKind::Directory, PathKind::File));
    assert_eq!(p.build("B"), "B/files/user_files/u/d/f");
    // Below a file, or below a missing path, the walk stops.
    assert!(!p.descend("g", PathKind::File, PathKind::Directory));
    assert!(!p.descend("g", PathKind::Missing, PathKind::Directory));
    // A step that is neither a file nor a directory stops it too.
    assert!(!p.descend("g", PathKind::Directory, PathKind::Other));
    assert!(!p.descend("g", PathKind::Directory, PathKind::Missing));
    assert_eq!(p.build("B"), "B/files/user_files/u/d/f");
}

#[test]
fn descend_refuses_steps_out_of_the_directory() {
    let mut p = UserPath::new_root("u".to_string());
    assert!(p.descend("d", PathKind::Directory, PathKind::Directory));
    // `..` and `.` are directories on disk, but never steps of a user path.
    assert!(!p.descend("..", PathKind::Directory, PathKind::Directory));
    assert!(!p.descend(".", PathKind::Directory, PathKind::Directory));
    assert!(!p.descend("", PathKind::Directory, PathKind::Directory));
    assert!(!p.descend("a/b", PathKind::Directory, PathKind::Directory));
    assert_eq!(p.build("B"), "B/files/user_files/u/d/");
}

#[test]
fn proper_names() {
    assert!(is_proper_name("notes.txt"));
    assert!(is_proper_name("..."));
    assert!(is_proper_name(".hidden"));
    assert!(!is_proper_name(".."));
    assert!(!is_proper_name("."));
    assert!(!is_proper_name(""));
    assert!(!is_proper_name("x/y"));
}

#[test]
fn file_operations_name_the_file() {
    let mut files = FileSystem::new(3);
    files.set_scan(scan_of(&["d"], &["a.txt"]));
    let read = files.read_file("a.txt").unwrap();
    assert!(files.read_file("b.txt").is_none());
    let root = files.current_directory().build(BASE);
    assert_eq!(read.build(BASE), format!("{root}a.txt"));
    files.write_file();
    let created = files.create_file("b.txt").unwrap();
    assert_eq!(created.build(BASE), format!("{root}b.txt"));
    assert!(files.create_file("a.txt").is_none());
    assert!(files.create_file("d").is_none());
    assert!(files.create_file("..").is_none());
    assert!(files.current_dir_scan.has_file("a.txt"));
    assert!(!files.current_dir_scan.has_file("b.txt"));
}

#[test]
fn root_path_is_root() {
    let p = FileSystem::root_path("someone".to_string());
    assert!(p.is_root());
    assert_eq!(p.build("B"), "B/files/user_files/someone/");
}
