//! A listing of the files and directories found in one directory.

use vstd::prelude::*;
use crate::text::{chars_of, str_eq};

verus! {

/// A regular file seen in a scan.
#[derive(Debug)]
pub struct File {
    name: String,
}

/// A directory seen in a scan.
#[derive(Debug)]
pub struct Directory {
    name: String,
}

/// What a directory entry is, as the file system reports it.
#[derive(Debug, Clone, Copy, PartialEq, Eq, Structural)]
pub enum EntryKind {
    Directory,
    File,
    /// Anything else (links, devices, ...): a scan leaves it out.
    Other,
}

/// One entry of a directory listing: its name and its kind.
#[derive(Debug)]
pub struct ScanEntry {
    pub name: String,
    pub kind: EntryKind,
}

/// The directories and the files of one directory, in listing order.
#[derive(Debug)]
pub struct FileScan {
    directories: Vec<Directory>,
    files: Vec<File>,
}

/// Abstract view of a scan: the names of its directories and of its files.
pub struct FileScanView {
    pub directories: Seq<Seq<char>>,
    pub files: Seq<Seq<char>>,
}

impl View for File {
    type V = Seq<char>;

    closed spec fn view(&self) -> Seq<char> {
        self.name@
    }
}

impl View for Directory {
    type V = Seq<char>;

    closed spec fn view(&self) -> Seq<char> {
        self.name@
    }
}

impl View for FileScan {
    type V = FileScanView;

    closed spec fn view(&self) -> FileScanView {
        FileScanView {
            directories: self.directories@.map_values(|d: Directory| d@),
            files: self.files@.map_values(|f: File| f@),
        }
    }
}

/// `..`
pub open spec fn dotdot_spec() -> Seq<char> {
    seq!['.', '.']
}

/// `.`
pub open spec fn dot_spec() -> Seq<char> {
    seq!['.']
}

/// Whether a step name stays inside the directory it is taken in: it is not
/// empty, not `.` or `..`, and holds no `/`.
pub open spec fn proper_name(n: Seq<char>) -> bool {
    &&& n.len() > 0
    &&& n != dot_spec()
    &&& n != dotdot_spec()
    &&& !n.contains('/')
}

/// A name is proper exactly when it is not empty, is neither `.` nor `..`,
/// and holds no `/`: any other character, a space or a dot included, may
/// stand in it.
pub proof fn lemma_proper_name_chars(n: Seq<char>)
    ensures
        proper_name(n) <==> (n.len() > 0 && n != seq!['.'] && n != seq!['.', '.'] && forall|i: int|
            0 <= i < n.len() ==> n[i] != '/'),
{
    if n.contains('/') {
        let k = choose|k: int| 0 <= k < n.len() && n[k] == '/';
        assert(n[k] == '/');
    }
}

/// Whether `bit` is a proper step name.
pub fn is_proper_name(bit: &str) -> (r: bool)
    ensures
        r == proper_name(bit@),
        r <==> (bit@.len() > 0 && bit@ != seq!['.'] && bit@ != seq!['.', '.'] && forall|i: int|
            0 <= i < bit@.len() ==> bit@[i] != '/'),
{
    proof {
        lemma_proper_name_chars(bit@);
    }
    let cs = chars_of(bit);
    if cs.len() == 0 {
        return false;
    }
    proof {
        reveal_strlit(".");
        reveal_strlit("..");
        assert("."@ =~= dot_spec());
        assert(".."@ =~= dotdot_spec());
    }
    if str_eq(bit, ".") || str_eq(bit, "..") {
        return false;
    }
    let mut i: usize = 0;
    while i < cs.len()
        invariant
            cs@ == bit@,
            i <= cs@.len(),
            forall|j: int| 0 <= j < i ==> cs@[j] != '/',
        decreases cs.len() - i,
    {
        if cs[i] == '/' {
            assert(bit@[i as int] == '/');
            return false;
        }
        i = i + 1;
    }
    true
}

/// Whether every name in a scan, of a directory or of a file, is a proper
/// name.
pub open spec fn scan_names_proper(scan: FileScanView) -> bool {
    &&& forall|k: int| 0 <= k < scan.directories.len() ==> proper_name(#[trigger] scan.directories[k])
    &&& forall|k: int| 0 <= k < scan.files.len() ==> proper_name(#[trigger] scan.files[k])
}

/// The names of the entries of `kind` in `entries` whose names are proper
/// names, in order.
pub open spec fn names_of_kind(entries: Seq<ScanEntry>, kind: EntryKind) -> Seq<Seq<char>>
    decreases entries.len(),
{
    if entries.len() == 0 {
        Seq::empty()
    } else {
        let prev = names_of_kind(entries.drop_last(), kind);
        if entries.last().kind == kind && proper_name(entries.last().name@) {
            prev.push(entries.last().name@)
        } else {
            prev
        }
    }
}

impl FileScan {
    /// A scan holds only proper names.
    #[verifier::type_invariant]
    pub open spec fn well_named(self) -> bool {
        scan_names_proper(self@)
    }
}

/// An entry of `kind` with a proper name is kept by `names_of_kind`.
pub proof fn lemma_names_of_kind_keeps(entries: Seq<ScanEntry>, kind: EntryKind, i: int)
    requires
        0 <= i < entries.len(),
        entries[i].kind == kind,
        proper_name(entries[i].name@),
    ensures
        names_of_kind(entries, kind).contains(entries[i].name@),
    decreases entries.len(),
{
    let prev = names_of_kind(entries.drop_last(), kind);
    if i < entries.len() - 1 {
        lemma_names_of_kind_keeps(entries.drop_last(), kind, i);
        assert(entries.drop_last()[i] == entries[i]);
        let k = choose|k: int| 0 <= k < prev.len() && prev[k] == entries[i].name@;
        let cur = names_of_kind(entries, kind);
        assert(cur[k] == prev[k]);
    } else {
        let cur = names_of_kind(entries, kind);
        assert(cur[cur.len() - 1] == entries[i].name@);
    }
}

/// Every name that `names_of_kind` keeps is a proper name.
pub proof fn lemma_names_of_kind_proper(entries: Seq<ScanEntry>, kind: EntryKind)
    ensures
        forall|k: int|
            0 <= k < names_of_kind(entries, kind).len() ==> proper_name(
                #[trigger] names_of_kind(entries, kind)[k],
            ),
    decreases entries.len(),
{
    if entries.len() > 0 {
        let prev = names_of_kind(entries.drop_last(), kind);
        lemma_names_of_kind_proper(entries.drop_last(), kind);
        let cur = names_of_kind(entries, kind);
        assert forall|k: int| 0 <= k < cur.len() implies proper_name(#[trigger] cur[k]) by {
            if k < prev.len() {
                assert(cur[k] == prev[k]);
            }
        }
    }
}

impl Clone for File {
    fn clone(&self) -> (r: Self)
        ensures
            r@ == self@,
    {
        File { name: self.name.clone() }
    }
}

impl Clone for Directory {
    fn clone(&self) -> (r: Self)
        ensures
            r@ == self@,
    {
        Directory { name: self.name.clone() }
    }
}

impl Clone for FileScan {
    fn clone(&self) -> (r: Self)
        ensures
            r@ == self@,
    {
        proof {
            use_type_invariant(self);
        }
        let mut directories: Vec<Directory> = Vec::new();
        let mut i: usize = 0;
        while i < self.directories.len()
            invariant
                i <= self.directories@.len(),
                directories@.len() == i,
                forall|k: int| 0 <= k < i ==> #[trigger] directories@[k]@ == self.directories@[k]@,
            decreases self.directories.len() - i,
        {
            directories.push(self.directories[i].clone());
            i = i + 1;
        }
        let mut files: Vec<File> = Vec::new();
        let mut j: usize = 0;
        while j < self.files.len()
            invariant
                j <= self.files@.len(),
                files@.len() == j,
                forall|k: int| 0 <= k < j ==> #[trigger] files@[k]@ == self.files@[k]@,
            decreases self.files.len() - j,
        {
            files.push(self.files[j].clone());
            j = j + 1;
        }
        assert(directories@.map_values(|d: Directory| d@) =~= self@.directories);
        assert(files@.map_values(|f: File| f@) =~= self@.files);
        let r = FileScan { directories, files };
        assert(r@.directories =~= self@.directories);
        assert(r@.files =~= self@.files);
        r
    }
}

impl Default for FileScan {
    /// An empty scan.
    fn default() -> (r: FileScan)
        ensures
            r@.directories.len() == 0,
            r@.files.len() == 0,
    {
        FileScan { directories: Vec::new(), files: Vec::new() }
    }
}

impl File {
    /// The file's name.
    pub fn name(&self) -> (r: &String)
        ensures
            r@ == self@,
    {
        &self.name
    }
}

impl Directory {
    /// The directory's name.
    pub fn name(&self) -> (r: &String)
        ensures
            r@ == self@,
    {
        &self.name
    }
}

impl FileScan {
    /// Builds the scan of a directory from its listing: the directories and
    /// the regular files, each in listing order; other entries, and entries
    /// whose name is not a proper name (such as `.` and `..`, which a real
    /// listing never holds), are left out. No listing (the directory is
    /// missing or unreadable) gives no scan.
    pub fn new(listing: Option<Vec<ScanEntry>>) -> (r: Option<FileScan>)
        ensures
            listing is None <==> r is None,
            listing matches Some(entries) ==> {
                &&& r matches Some(scan)
                &&& scan@.directories == names_of_kind(entries@, EntryKind::Directory)
                &&& scan@.files == names_of_kind(entries@, EntryKind::File)
                &&& scan_names_proper(scan@)
                &&& forall|i: int|
                    0 <= i < entries@.len() && (#[trigger] entries@[i]).kind == EntryKind::File
                        && entries@[i].name@.len() > 0 && entries@[i].name@ != seq!['.']
                        && entries@[i].name@ != seq!['.', '.'] && (forall|j: int|
                        0 <= j < entries@[i].name@.len() ==> entries@[i].name@[j] != '/')
                        ==> scan@.files.contains(entries@[i].name@)
                &&& forall|i: int|
                    0 <= i < entries@.len() && (#[trigger] entries@[i]).kind == EntryKind::Directory
                        && entries@[i].name@.len() > 0 && entries@[i].name@ != seq!['.']
                        && entries@[i].name@ != seq!['.', '.'] && (forall|j: int|
                        0 <= j < entries@[i].name@.len() ==> entries@[i].name@[j] != '/')
                        ==> scan@.directories.contains(entries@[i].name@)
            },
    {
        let entries = match listing {
            None => return None,
            Some(entries) => entries,
        };
        let mut dirs: Vec<Directory> = Vec::new();
        let mut files: Vec<File> = Vec::new();
        let ghost all = entries@;
        let n = entries.len();
        let mut i: usize = 0;
        while i < n
            invariant
                n == all.len(),
                entries@ == all,
                i <= n,
                dirs@.map_values(|d: Directory| d@) == names_of_kind(all.take(i as int), EntryKind::Directory),
                files@.map_values(|f: File| f@) == names_of_kind(all.take(i as int), EntryKind::File),
            decreases n - i,
        {
            let e = &entries[i];
            proof {
                assert(all.take(i + 1).drop_last() == all.take(i as int));
                assert(all.take(i + 1).last() == all[i as int]);
            }
            let ghost before_dirs = dirs@.map_values(|d: Directory| d@);
            let ghost before_files = files@.map_values(|f: File| f@);
            if is_proper_name(e.name.as_str()) {
                match e.kind {
                    EntryKind::Directory => {
                        dirs.push(Directory { name: e.name.clone() });
                        assert(dirs@.map_values(|d: Directory| d@) =~= before_dirs.push(all[i as int].name@));
                    },
                    EntryKind::File => {
                        files.push(File { name: e.name.clone() });
                        assert(files@.map_values(|f: File| f@) =~= before_files.push(all[i as int].name@));
                    },
                    EntryKind::Other => {},
                }
            }
            i = i + 1;
        }
        assert(all.take(n as int) == all);
        proof {
            lemma_names_of_kind_proper(all, EntryKind::Directory);
            lemma_names_of_kind_proper(all, EntryKind::File);
            assert forall|k: int|
                0 <= k < all.len() && (#[trigger] all[k]).kind == EntryKind::File && all[k].name@.len() > 0
                    && all[k].name@ != seq!['.'] && all[k].name@ != seq!['.', '.'] && (forall|j: int|
                    0 <= j < all[k].name@.len() ==> all[k].name@[j] != '/') implies names_of_kind(
                all,
                EntryKind::File,
            ).contains(all[k].name@) by {
                lemma_proper_name_chars(all[k].name@);
                lemma_names_of_kind_keeps(all, EntryKind::File, k);
            }
            assert forall|k: int|
                0 <= k < all.len() && (#[trigger] all[k]).kind == EntryKind::Directory && all[k].name@.len()
                    > 0 && all[k].name@ != seq!['.'] && all[k].name@ != seq!['.', '.'] && (forall|j: int|
                    0 <= j < all[k].name@.len() ==> all[k].name@[j] != '/') implies names_of_kind(
                all,
                EntryKind::Directory,
            ).contains(all[k].name@) by {
                lemma_proper_name_chars(all[k].name@);
                lemma_names_of_kind_keeps(all, EntryKind::Directory, k);
            }
        }
        Some(FileScan { directories: dirs, files })
    }

    /// The scanned directories, in listing order.
    pub fn directories(&self) -> (r: &Vec<Directory>)
        ensures
            r@.map_values(|d: Directory| d@) == self@.directories,
    {
        &self.directories
    }

    /// The scanned files, in listing order.
    pub fn files(&self) -> (r: &Vec<File>)
        ensures
            r@.map_values(|f: File| f@) == self@.files,
    {
        &self.files
    }

    /// Whether the scan holds a directory named `target_dir`.
    pub fn has_dir(&self, target_dir: &str) -> (r: bool)
        ensures
            r == self@.directories.contains(target_dir@),
    {
        let mut i: usize = 0;
        while i < self.directories.len()
            invariant
                i <= self.directories@.len(),
                forall|k: int| 0 <= k < i ==> #[trigger] self.directories@[k]@ != target_dir@,
            decreases self.directories.len() - i,
        {
            if str_eq(self.directories[i].name.as_str(), target_dir) {
                assert(self@.directories[i as int] == target_dir@);
                return true;
            }
            i = i + 1;
        }
        assert(!self@.directories.contains(target_dir@)) by {
            if self@.directories.contains(target_dir@) {
                let k = choose|k: int| 0 <= k < self@.directories.len() && self@.directories[k] == target_dir@;
                assert(self.directories@[k]@ == target_dir@);
            }
        }
        false
    }

    /// Whether the scan holds a file named `target_file`.
    pub fn has_file(&self, target_file: &str) -> (r: bool)
        ensures
            r == self@.files.contains(target_file@),
    {
        let mut i: usize = 0;
        while i < self.files.len()
            invariant
                i <= self.files@.len(),
                forall|k: int| 0 <= k < i ==> #[trigger] self.files@[k]@ != target_file@,
            decreases self.files.len() - i,
        {
            if str_eq(self.files[i].name.as_str(), target_file) {
                assert(self@.files[i as int] == target_file@);
                return true;
            }
            i = i + 1;
        }
        assert(!self@.files.contains(target_file@)) by {
            if self@.files.contains(target_file@) {
                let k = choose|k: int| 0 <= k < self@.files.len() && self@.files[k] == target_file@;
                assert(self.files@[k]@ == target_file@);
            }
        }
        false
    }
}

} // verus!
