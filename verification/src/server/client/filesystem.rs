//! Each user's own directory tree on the server, and a user's walk through it.

use vstd::prelude::*;
use crate::server::file::{ConsPath, FileSystem as Root, Path, files_dir_spec};
use crate::shared::filesystem::{FileScan, FileScanView, dot_spec, dotdot_spec, proper_name};
pub use crate::shared::filesystem::is_proper_name;
use crate::shared::id::{hyphenated, hyphenated_spec};
use crate::text::{push_char, replace_all, replace_spec, split_char, split_spec, str_eq};

verus! {

/// The directory, under the server's `files` directory, that holds one
/// directory per user.
pub fn user_files_root() -> (r: ConsPath)
    ensures
        r@ == user_files_root_spec(),
{
    proof {
        reveal_strlit("user_files/");
    }
    ConsPath::new(Root::External, "user_files/")
}

/// `user_files/`
pub open spec fn user_files_root_spec() -> Seq<char> {
    seq!['u', 's', 'e', 'r', '_', 'f', 'i', 'l', 'e', 's', '/']
}

/// The directory holding every user's directory, below the base directory
/// `base`, as it is built before cleaning.
pub open spec fn root_dir_spec(base: Seq<char>) -> Seq<char> {
    base + files_dir_spec() + user_files_root_spec()
}

/// A path with the extended-length prefix `\\?\` removed, every `\` turned
/// into `/`, and then every `//` turned into `/`.
pub open spec fn clean_spec(s: Seq<char>) -> Seq<char> {
    let a = replace_spec(s, seq!['\\', '\\', '?', '\\'], Seq::empty());
    let b = replace_spec(a, seq!['\\'], seq!['/']);
    replace_spec(b, seq!['/', '/'], seq!['/'])
}

/// One step of a user path: a directory or a file, by name.
#[derive(Debug)]
pub enum UserPathBit {
    Directory(String),
    File(String),
}

/// Abstract view of a path step.
pub enum PathBitView {
    Directory(Seq<char>),
    File(Seq<char>),
}

/// A path inside one user's directory: the user's id and the steps below it.
#[derive(Debug)]
pub struct UserPath {
    id: String,
    bits: Vec<UserPathBit>,
}

/// Abstract view of a user path.
pub struct UserPathView {
    pub id: Seq<char>,
    pub bits: Seq<PathBitView>,
}

impl View for UserPathBit {
    type V = PathBitView;

    open spec fn view(&self) -> PathBitView {
        match self {
            UserPathBit::Directory(name) => PathBitView::Directory(name@),
            UserPathBit::File(name) => PathBitView::File(name@),
        }
    }
}

impl View for UserPath {
    type V = UserPathView;

    closed spec fn view(&self) -> UserPathView {
        UserPathView { id: self.id@, bits: self.bits@.map_values(|b: UserPathBit| b@) }
    }
}

/// The text of the steps of a path: a directory as its name and `/`, a file
/// as its name.
pub open spec fn bits_text(bits: Seq<PathBitView>) -> Seq<char>
    decreases bits.len(),
{
    if bits.len() == 0 {
        Seq::empty()
    } else {
        bits_text(bits.drop_last()) + match bits.last() {
            PathBitView::Directory(name) => name.push('/'),
            PathBitView::File(name) => name,
        }
    }
}

/// The full text of a user path below the base directory `base`: the cleaned
/// root, the user's id and `/`, then the steps.
pub open spec fn build_spec(base: Seq<char>, p: UserPathView) -> Seq<char> {
    clean_spec(root_dir_spec(base)) + p.id.push('/') + bits_text(p.bits)
}

/// A path one step deeper.
pub open spec fn push_spec(p: UserPathView, bit: PathBitView) -> UserPathView {
    UserPathView { id: p.id, bits: p.bits.push(bit) }
}

/// The parent of a path: none at the user's root, else the path without
/// its last step.
pub open spec fn parent_spec(p: UserPathView) -> Option<UserPathView> {
    if p.bits.len() == 0 {
        None
    } else {
        Some(UserPathView { id: p.id, bits: p.bits.drop_last() })
    }
}

/// The name of a step.
pub open spec fn bit_name(b: PathBitView) -> Seq<char> {
    match b {
        PathBitView::Directory(name) => name,
        PathBitView::File(name) => name,
    }
}

/// Whether every step of a path is a proper name, so that the path names a
/// place inside its user's directory.
pub open spec fn confined(p: UserPathView) -> bool {
    forall|i: int| 0 <= i < p.bits.len() ==> proper_name(#[trigger] bit_name(p.bits[i]))
}

/// The root directory of the user whose id is `id`.
pub open spec fn root_spec(id: Seq<char>) -> UserPathView {
    UserPathView { id, bits: Seq::empty() }
}

impl Clone for UserPathBit {
    fn clone(&self) -> (r: Self)
        ensures
            r@ == self@,
    {
        match self {
            UserPathBit::Directory(name) => UserPathBit::Directory(name.clone()),
            UserPathBit::File(name) => UserPathBit::File(name.clone()),
        }
    }
}

impl Clone for UserPath {
    fn clone(&self) -> (r: Self)
        ensures
            r@ == self@,
    {
        let mut bits: Vec<UserPathBit> = Vec::new();
        let mut i: usize = 0;
        while i < self.bits.len()
            invariant
                i <= self.bits@.len(),
                bits@.len() == i,
                forall|k: int| 0 <= k < i ==> #[trigger] bits@[k]@ == self.bits@[k]@,
            decreases self.bits.len() - i,
        {
            bits.push(self.bits[i].clone());
            i = i + 1;
        }
        let r = UserPath { id: self.id.clone(), bits };
        assert(r@.bits =~= self@.bits);
        r
    }
}

/// A path with the extended-length prefix removed and its separators made
/// forward slashes.
fn clean_it(p: String) -> (r: String)
    ensures
        r@ == clean_spec(p@),
{
    proof {
        reveal_strlit("\\\\?\\");
        reveal_strlit("");
        reveal_strlit("\\");
        reveal_strlit("/");
        reveal_strlit("//");
        assert("\\\\?\\"@ =~= seq!['\\', '\\', '?', '\\']);
        assert(""@ =~= Seq::<char>::empty());
        assert("\\"@ =~= seq!['\\']);
        assert("/"@ =~= seq!['/']);
        assert("//"@ =~= seq!['/', '/']);
    }
    let a = replace_all(p.as_str(), "\\\\?\\", "");
    let b = replace_all(a.as_str(), "\\", "/");
    replace_all(b.as_str(), "//", "/")
}

/// What a path names on disk, as the file system reports it.
#[derive(Debug, Clone, Copy, PartialEq, Eq, Structural)]
pub enum PathKind {
    Missing,
    File,
    Directory,
    /// It exists but is neither a regular file nor a directory.
    Other,
}

/// The steps of a path given as text, below the root directory of every
/// user: the root's text removed, the rest cleaned and cut at `/`, empty
/// steps left out.
pub open spec fn relative_bits_spec(p: Seq<char>, base: Seq<char>) -> Seq<Seq<char>> {
    split_spec(clean_spec(replace_spec(p, root_dir_spec(base), Seq::empty())), '/').filter(
        |b: Seq<char>| b.len() > 0,
    )
}

impl UserPath {
    /// The root directory of the user `user_id`.
    pub fn new_root(user_id: String) -> (r: UserPath)
        ensures
            r@.id == user_id@,
            r@.bits.len() == 0,
    {
        let r = UserPath { id: user_id, bits: Vec::new() };
        assert(r@.bits =~= Seq::<PathBitView>::empty());
        r
    }

    /// The steps named by the text `p` below the root directory of every
    /// user, where that root lies under the base directory `base_dir`.
    pub fn relative_bits(p: &str, base_dir: &str) -> (r: Vec<String>)
        ensures
            r@.len() == relative_bits_spec(p@, base_dir@).len(),
            forall|i: int| 0 <= i < r@.len() ==> #[trigger] r@[i]@ == relative_bits_spec(p@, base_dir@)[i],
    {
        let root_dir = Path::from(user_files_root()).build(base_dir);
        proof {
            assert(root_dir@.len() > 0) by {
                assert(root_dir@ == base_dir@ + files_dir_spec() + user_files_root_spec());
            }
        }
        let stripped = replace_all(p, root_dir.as_str(), "");
        proof {
            reveal_strlit("");
            assert(""@ =~= Seq::<char>::empty());
        }
        let clean = clean_it(stripped);
        let pieces = split_char(clean.as_str(), '/');
        let ghost all = split_spec(clean@, '/');
        let ghost pred = |b: Seq<char>| b.len() > 0;
        let mut out: Vec<String> = Vec::new();
        let mut i: usize = 0;
        while i < pieces.len()
            invariant
                pieces@.len() == all.len(),
                pred == (|b: Seq<char>| b.len() > 0),
                forall|k: int| 0 <= k < pieces@.len() ==> #[trigger] pieces@[k]@ == all[k],
                i <= pieces@.len(),
                out@.len() == all.take(i as int).filter(pred).len(),
                forall|k: int| 0 <= k < out@.len() ==> #[trigger] out@[k]@ == all.take(i as int).filter(pred)[k],
            decreases pieces.len() - i,
        {
            proof {
                assert(all.take(i + 1) =~= all.take(i as int).push(all[i as int]));
                all.take(i as int).lemma_filter_push(all[i as int], pred);
            }
            let piece = &pieces[i];
            if piece.as_str().unicode_len() != 0 {
                out.push(piece.clone());
            }
            i = i + 1;
        }
        assert(all.take(pieces@.len() as int) =~= all);
        out
    }

    /// The full text of this path below the base directory `base_dir`.
    pub fn build(&self, base_dir: &str) -> (r: String)
        ensures
            r@ == build_spec(base_dir@, self@),
    {
        let root = Path::from(user_files_root()).build(base_dir);
        let mut o = clean_it(root);
        o.append(self.id.as_str());
        push_char(&mut o, '/');
        let ghost head = o@;
        let mut i: usize = 0;
        while i < self.bits.len()
            invariant
                i <= self.bits@.len(),
                o@ == head + bits_text(self@.bits.take(i as int)),
            decreases self.bits.len() - i,
        {
            assert(self@.bits.take(i + 1).drop_last() =~= self@.bits.take(i as int));
            assert(self@.bits.take(i + 1).last() == self.bits@[i as int]@);
            match &self.bits[i] {
                UserPathBit::Directory(name) => {
                    o.append(name.as_str());
                    push_char(&mut o, '/');
                },
                UserPathBit::File(name) => {
                    o.append(name.as_str());
                },
            }
            i = i + 1;
        }
        assert(self@.bits.take(self.bits@.len() as int) =~= self@.bits);
        o
    }

    /// Goes one step deeper.
    pub fn push(&mut self, p: UserPathBit)
        ensures
            final(self)@ == push_spec(old(self)@, p@),
    {
        let ghost b = p@;
        self.bits.push(p);
        assert(self@.bits =~= old(self)@.bits.push(b));
    }

    /// Removes the last step, if any, and returns it.
    pub fn pop(&mut self) -> (r: Option<UserPathBit>)
        ensures
            old(self)@.bits.len() == 0 ==> r is None && final(self)@ == old(self)@,
            old(self)@.bits.len() > 0 ==> {
                &&& r matches Some(b) && b@ == old(self)@.bits.last()
                &&& Some(final(self)@) == parent_spec(old(self)@)
            },
    {
        if self.bits.len() == 0 {
            return None;
        }
        let r = self.bits.pop();
        assert(self@.bits =~= old(self)@.bits.drop_last());
        r
    }

    /// Whether this is the user's root directory.
    pub fn is_root(&self) -> (r: bool)
        ensures
            r == (self@.bits.len() == 0),
    {
        self.bits.len() == 0
    }

    /// The directory that holds this path; none at the user's root.
    pub fn parent(&self) -> (r: Option<UserPath>)
        ensures
            r matches Some(p) ==> Some(p@) == parent_spec(self@),
            r is None ==> parent_spec(self@) is None,
    {
        if self.is_root() {
            return None;
        }
        let mut parent = self.clone();
        parent.pop();
        Some(parent)
    }

    /// One step of resolving a path on disk. `here` is what this path names,
    /// `next` what it names with `bit` appended. Returns whether the walk
    /// goes on: it stops at a step that is not a proper name (such as `..`),
    /// below a missing path or a file, and at a step that is neither a file
    /// nor a directory; otherwise the step is appended.
    pub fn descend(&mut self, bit: &str, here: PathKind, next: PathKind) -> (r: bool)
        ensures
            r == (proper_name(bit@) && (here == PathKind::Directory || here == PathKind::Other) && (
            next == PathKind::File || next == PathKind::Directory)),
            r && next == PathKind::File ==> final(self)@ == push_spec(old(self)@, PathBitView::File(bit@)),
            r && next == PathKind::Directory ==> final(self)@ == push_spec(
                old(self)@,
                PathBitView::Directory(bit@),
            ),
            !r ==> final(self)@ == old(self)@,
            confined(old(self)@) ==> confined(final(self)@),
    {
        if !is_proper_name(bit) {
            return false;
        }
        if here == PathKind::Missing || here == PathKind::File {
            return false;
        }
        if next == PathKind::File {
            self.push(UserPathBit::File(String::from_str(bit)));
            proof {
                if confined(old(self)@) {
                    lemma_push_confined(old(self)@, PathBitView::File(bit@));
                }
            }
            true
        } else if next == PathKind::Directory {
            self.push(UserPathBit::Directory(String::from_str(bit)));
            proof {
                if confined(old(self)@) {
                    lemma_push_confined(old(self)@, PathBitView::Directory(bit@));
                }
            }
            true
        } else {
            false
        }
    }
}

/// A user's position in their own directory tree, with a scan of the
/// directory they are in.
#[derive(Debug)]
pub struct FileSystem {
    current_directory: UserPath,
    pub current_dir_scan: FileScan,
    user_id: String,
}

/// Abstract view of a user's position.
pub struct FileSystemView {
    pub user_id: Seq<char>,
    pub current: UserPathView,
    pub scan: FileScanView,
}

impl View for FileSystem {
    type V = FileSystemView;

    closed spec fn view(&self) -> FileSystemView {
        FileSystemView {
            user_id: self.user_id@,
            current: self.current_directory@,
            scan: self.current_dir_scan@,
        }
    }
}

/// What one step of a change of directory did.
#[derive(Debug, Clone, Copy, PartialEq, Eq, Structural)]
pub enum CdStep {
    /// Moved into a directory of the current one.
    Entered,
    /// Moved up to the parent directory.
    Left,
    /// Stayed: already at the user's root.
    AtRoot,
}

/// One step of a change of directory from `current`, whose scan is `scan`:
/// into the directory named `action` if the scan holds it and it is not
/// `..`; otherwise up one level, unless already at the root.
pub open spec fn cd_step_spec(current: UserPathView, scan: FileScanView, action: Seq<char>) -> (
    UserPathView,
    CdStep,
) {
    if action != dotdot_spec() && scan.directories.contains(action) {
        (push_spec(current, PathBitView::Directory(action)), CdStep::Entered)
    } else if current.bits.len() > 0 {
        (parent_spec(current).unwrap(), CdStep::Left)
    } else {
        (current, CdStep::AtRoot)
    }
}

impl FileSystem {
    /// The user `user_id`, at their root directory. The root has not been
    /// scanned yet: the scan is empty until `set_scan` is given one.
    pub fn new(user_id: u128) -> (r: FileSystem)
        ensures
            r@.user_id == hyphenated_spec(user_id),
            r@.current.id == hyphenated_spec(user_id),
            r@.current.bits.len() == 0,
            confined(r@.current),
            r@.scan.directories.len() == 0,
            r@.scan.files.len() == 0,
    {
        let str_id = hyphenated(user_id);
        let root_path = FileSystem::root_path(str_id.clone());
        FileSystem { current_directory: root_path, current_dir_scan: FileScan::default(), user_id: str_id }
    }

    /// The root directory of the user `user_id`.
    pub fn root_path(user_id: String) -> (r: UserPath)
        ensures
            r@.id == user_id@,
            r@.bits.len() == 0,
    {
        UserPath::new_root(user_id)
    }

    /// Whether the user is at their root directory.
    pub fn is_root(&self) -> (r: bool)
        ensures
            r == (self@.current.bits.len() == 0),
    {
        self.current_directory.is_root()
    }

    /// The directory the user is in.
    pub fn current_directory(&self) -> (r: &UserPath)
        ensures
            r@ == self@.current,
    {
        &self.current_directory
    }

    /// The user's id, as text.
    pub fn user_id(&self) -> (r: &String)
        ensures
            r@ == self@.user_id,
    {
        &self.user_id
    }

    /// Records a fresh scan of the current directory.
    pub fn set_scan(&mut self, scan: FileScan)
        ensures
            final(self)@.scan == scan@,
            final(self)@.current == old(self)@.current,
            final(self)@.user_id == old(self)@.user_id,
    {
        self.current_dir_scan = scan;
    }

    /// One step of a change of directory: into the directory `action` of
    /// the current scan, or up one level for `..` or a name the scan does
    /// not hold. After a move the current directory must be scanned again.
    pub fn cd_step(&mut self, action: &str) -> (r: CdStep)
        ensures
            (final(self)@.current, r) == cd_step_spec(old(self)@.current, old(self)@.scan, action@),
            final(self)@.scan == old(self)@.scan,
            final(self)@.user_id == old(self)@.user_id,
            final(self)@.current.id == old(self)@.current.id,
            confined(old(self)@.current) ==> confined(final(self)@.current),
            r == CdStep::Entered <==> (action@ != dotdot_spec() && old(self)@.scan.directories.contains(
                action@,
            )),
            r == CdStep::Entered ==> final(self)@.current.bits == old(self)@.current.bits.push(
                PathBitView::Directory(action@),
            ),
            r == CdStep::Left ==> old(self)@.current.bits.len() > 0 && final(self)@.current.bits == old(
                self,
            )@.current.bits.drop_last(),
            r == CdStep::AtRoot ==> old(self)@.current.bits.len() == 0 && final(self)@.current == old(
                self,
            )@.current,
    {
        proof {
            use_type_invariant(&self.current_dir_scan);
            if confined(self@.current) {
                lemma_cd_step_confined(self@.current, self@.scan, action@);
            }
            lemma_cd_step_keeps_user(self@.current, self@.scan, action@);
            reveal_strlit("..");
            assert(".."@ =~= dotdot_spec());
        }
        if !str_eq(action, "..") && self.current_dir_scan.has_dir(action) {
            self.current_directory.push(UserPathBit::Directory(String::from_str(action)));
            CdStep::Entered
        } else if !self.is_root() {
            let parent = self.current_directory.parent();
            match parent {
                Some(p) => {
                    self.current_directory = p;
                },
                None => {},
            }
            CdStep::Left
        } else {
            CdStep::AtRoot
        }
    }

    /// The file `file_name` of the current directory, whose content is to
    /// be read; none if the current scan holds no such file.
    pub fn read_file(&self, file_name: &str) -> (r: Option<UserPath>)
        ensures
            r is Some <==> self@.scan.files.contains(file_name@),
            r matches Some(p) ==> p@ == push_spec(self@.current, PathBitView::File(file_name@)),
    {
        if self.current_dir_scan.has_file(file_name) {
            let mut p = self.current_directory.clone();
            p.push(UserPathBit::File(String::from_str(file_name)));
            Some(p)
        } else {
            None
        }
    }

    /// Writing to a file of the current directory: no file is named, so
    /// there is nothing to write and the call has no effect.
    pub fn write_file(&self) {
    }

    /// The file `file_name` to create in the current directory; none if the
    /// name is not a proper step name or the current scan already holds a
    /// file or a directory of that name.
    pub fn create_file(&self, file_name: &str) -> (r: Option<UserPath>)
        ensures
            r is Some <==> (proper_name(file_name@) && !self@.scan.files.contains(file_name@)
                && !self@.scan.directories.contains(file_name@)),
            r matches Some(p) ==> p@ == push_spec(self@.current, PathBitView::File(file_name@)),
    {
        if is_proper_name(file_name) && !self.current_dir_scan.has_file(file_name)
            && !self.current_dir_scan.has_dir(file_name) {
            let mut p = self.current_directory.clone();
            p.push(UserPathBit::File(String::from_str(file_name)));
            Some(p)
        } else {
            None
        }
    }
}

/// Entering a directory and then stepping `..` brings the user back where
/// they were, whatever the new directory's scan holds.
pub proof fn lemma_enter_then_leave(
    current: UserPathView,
    scan: FileScanView,
    dir: Seq<char>,
    inner_scan: FileScanView,
)
    requires
        dir != dotdot_spec(),
        scan.directories.contains(dir),
    ensures
        cd_step_spec(current, scan, dir) == (
            push_spec(current, PathBitView::Directory(dir)),
            CdStep::Entered,
        ),
        cd_step_spec(cd_step_spec(current, scan, dir).0, inner_scan, dotdot_spec()) == (
            current,
            CdStep::Left,
        ),
{
    lemma_parent_of_push(current, PathBitView::Directory(dir));
}

/// At the user's root, `..` leaves the user where they are.
pub proof fn lemma_root_stays(current: UserPathView, scan: FileScanView)
    requires
        current.bits.len() == 0,
    ensures
        cd_step_spec(current, scan, dotdot_spec()) == (current, CdStep::AtRoot),
{
}

/// Removing the last step undoes going one step deeper.
pub proof fn lemma_parent_of_push(p: UserPathView, bit: PathBitView)
    ensures
        parent_spec(push_spec(p, bit)) == Some(p),
{
    assert(p.bits.push(bit).drop_last() =~= p.bits);
}

/// A user's root directory is confined.
pub proof fn lemma_root_confined(id: Seq<char>)
    ensures
        confined(root_spec(id)),
{
}

/// Going one step deeper by a proper name keeps a path confined and its
/// user.
pub proof fn lemma_push_confined(p: UserPathView, bit: PathBitView)
    requires
        confined(p),
        proper_name(bit_name(bit)),
    ensures
        confined(push_spec(p, bit)),
        push_spec(p, bit).id == p.id,
{
    let q = push_spec(p, bit);
    assert forall|i: int| 0 <= i < q.bits.len() implies proper_name(#[trigger] bit_name(q.bits[i])) by {
        if i < p.bits.len() {
            assert(q.bits[i] == p.bits[i]);
        }
    }
}

/// The text of every path starts with its user's root directory: what
/// follows is the text of its steps alone.
pub proof fn lemma_build_below_root(base: Seq<char>, p: UserPathView)
    ensures
        build_spec(base, p) == build_spec(base, root_spec(p.id)) + bits_text(p.bits),
        build_spec(base, root_spec(p.id)).is_prefix_of(build_spec(base, p)),
{
    let r = build_spec(base, root_spec(p.id));
    assert(bits_text(Seq::<PathBitView>::empty()) =~= Seq::<char>::empty());
    assert(r =~= clean_spec(root_dir_spec(base)) + p.id.push('/'));
    assert(build_spec(base, p).subrange(0, r.len() as int) =~= r);
}

/// One change-of-directory step keeps the user, never appends `..`, and
/// keeps a path confined when the directories of the scan are proper names
/// (a directory listing never holds `.`, `..` or an empty name).
pub proof fn lemma_cd_step_confined(current: UserPathView, scan: FileScanView, action: Seq<char>)
    requires
        confined(current),
        forall|k: int| 0 <= k < scan.directories.len() ==> proper_name(#[trigger] scan.directories[k]),
    ensures
        cd_step_spec(current, scan, action).0.id == current.id,
        confined(cd_step_spec(current, scan, action).0),
{
    if action != dotdot_spec() && scan.directories.contains(action) {
        let k = choose|k: int| 0 <= k < scan.directories.len() && scan.directories[k] == action;
        assert(proper_name(scan.directories[k]));
        lemma_push_confined(current, PathBitView::Directory(action));
    } else if current.bits.len() > 0 {
        let q = parent_spec(current).unwrap();
        assert forall|i: int| 0 <= i < q.bits.len() implies proper_name(#[trigger] bit_name(q.bits[i])) by {
            assert(q.bits[i] == current.bits[i]);
        }
    }
}

/// One change-of-directory step moves exactly one level: into the named
/// directory when the scan holds it and it is not `..`; otherwise to the
/// parent, dropping only the last step; or nowhere at the root.
pub proof fn lemma_cd_step_one_level(current: UserPathView, scan: FileScanView, action: Seq<char>)
    ensures
        ({
            let (next, step) = cd_step_spec(current, scan, action);
            &&& step == CdStep::Entered <==> (action != dotdot_spec() && scan.directories.contains(action))
            &&& step == CdStep::Entered ==> next.bits == current.bits.push(PathBitView::Directory(action))
            &&& step == CdStep::Left <==> (!(action != dotdot_spec() && scan.directories.contains(action))
                && current.bits.len() > 0)
            &&& step == CdStep::Left ==> next.bits == current.bits.drop_last()
            &&& step == CdStep::AtRoot ==> next == current
            &&& next.id == current.id
        }),
{
}

/// One change-of-directory step keeps the path's user.
pub proof fn lemma_cd_step_keeps_user(current: UserPathView, scan: FileScanView, action: Seq<char>)
    ensures
        cd_step_spec(current, scan, action).0.id == current.id,
{
}

/// Whatever the scan holds, one change-of-directory step never appends a
/// `..` step to a path that has none.
pub proof fn lemma_cd_step_no_dotdot(current: UserPathView, scan: FileScanView, action: Seq<char>)
    requires
        forall|i: int| 0 <= i < current.bits.len() ==> bit_name(#[trigger] current.bits[i]) != dotdot_spec(),
    ensures
        forall|i: int|
            0 <= i < cd_step_spec(current, scan, action).0.bits.len() ==> bit_name(
                #[trigger] cd_step_spec(current, scan, action).0.bits[i],
            ) != dotdot_spec(),
{
    let q = cd_step_spec(current, scan, action).0;
    assert forall|i: int| 0 <= i < q.bits.len() implies bit_name(#[trigger] q.bits[i]) != dotdot_spec() by {
        if i < current.bits.len() {
            assert(q.bits[i] == current.bits[i]);
        }
    }
}

/// Where a change of directory ends: each step taken in turn, the step
/// `actions[i]` seen with the scan `scans[i]` of the directory the user is
/// then in.
pub open spec fn cd_walk(current: UserPathView, scans: Seq<FileScanView>, actions: Seq<Seq<char>>) -> UserPathView
    decreases actions.len(),
{
    if actions.len() == 0 || scans.len() == 0 {
        current
    } else {
        cd_walk(
            cd_step_spec(current, scans[0], actions[0]).0,
            scans.drop_first(),
            actions.drop_first(),
        )
    }
}

/// Whether every directory listed in every scan has a proper name.
pub open spec fn scans_proper(scans: Seq<FileScanView>) -> bool {
    forall|i: int, k: int|
        0 <= i < scans.len() && 0 <= k < scans[i].directories.len() ==> proper_name(
            #[trigger] scans[i].directories[k],
        )
}

/// However many change-of-directory steps a user takes from a confined
/// place (their root, say), they stay the same user's path and confined, so
/// the text of where they end starts with their own root directory. The
/// scans of `FileScan` values always hold proper names only (its type
/// invariant), so every walk over real scans meets `scans_proper`.
pub proof fn lemma_cd_walk_confined(
    base: Seq<char>,
    current: UserPathView,
    scans: Seq<FileScanView>,
    actions: Seq<Seq<char>>,
)
    requires
        confined(current),
        scans_proper(scans),
    ensures
        cd_walk(current, scans, actions).id == current.id,
        confined(cd_walk(current, scans, actions)),
        build_spec(base, root_spec(current.id)).is_prefix_of(
            build_spec(base, cd_walk(current, scans, actions)),
        ),
    decreases actions.len(),
{
    if actions.len() == 0 || scans.len() == 0 {
        lemma_build_below_root(base, current);
    } else {
        assert forall|k: int| 0 <= k < scans[0].directories.len() implies proper_name(
            #[trigger] scans[0].directories[k],
        ) by {
            assert(proper_name(scans[0].directories[k]));
        }
        lemma_cd_step_confined(current, scans[0], actions[0]);
        let next = cd_step_spec(current, scans[0], actions[0]).0;
        let rest = scans.drop_first();
        assert forall|i: int, k: int| 0 <= i < rest.len() && 0 <= k < rest[i].directories.len() implies proper_name(
            #[trigger] rest[i].directories[k],
        ) by {
            assert(rest[i] == scans[i + 1]);
        }
        lemma_cd_walk_confined(base, next, rest, actions.drop_first());
    }
}

/// Going one step deeper into a directory appends its name and `/` to the
/// path's text; into a file, its name.
pub proof fn lemma_build_push(base: Seq<char>, p: UserPathView, bit: PathBitView)
    ensures
        build_spec(base, push_spec(p, bit)) == build_spec(base, p) + match bit {
            PathBitView::Directory(name) => name.push('/'),
            PathBitView::File(name) => name,
        },
{
    assert(p.bits.push(bit).drop_last() =~= p.bits);
    let t = match bit {
        PathBitView::Directory(name) => name.push('/'),
        PathBitView::File(name) => name,
    };
    assert(build_spec(base, push_spec(p, bit)) =~= build_spec(base, p) + t);
}

} // verus!
