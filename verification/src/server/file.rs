//! Paths of the files that the server keeps on its own disk.

use vstd::prelude::*;
use crate::text::push_char;

verus! {

/// Where a path is rooted. Every file of the server lives on its disk.
#[derive(Debug, Clone, Copy, PartialEq, Eq, Structural)]
pub enum FileSystem {
    External,
}

/// A path relative to the server's `files` directory.
#[derive(Debug)]
pub struct Path {
    fs: FileSystem,
    p: String,
}

/// A path relative to the server's `files` directory, fixed at compile time.
#[derive(Debug)]
pub struct ConsPath {
    fs: FileSystem,
    p: &'static str,
}

impl View for Path {
    type V = Seq<char>;

    /// The relative path.
    closed spec fn view(&self) -> Seq<char> {
        self.p@
    }
}

impl View for ConsPath {
    type V = Seq<char>;

    /// The relative path.
    closed spec fn view(&self) -> Seq<char> {
        self.p@
    }
}

/// The separator and directory name between the base directory and a path:
/// a path `p` is built as `base + "\files\" + p`.
pub open spec fn files_dir_spec() -> Seq<char> {
    seq!['\\', 'f', 'i', 'l', 'e', 's', '\\']
}

impl Path {
    /// A path to `p` in file system `fs`.
    pub fn new(fs: FileSystem, p: &'static str) -> (r: Path)
        ensures
            r@ == p@,
    {
        Path { fs, p: String::from_str(p) }
    }

    /// The path's file system: the server's disk.
    pub fn fs(&self) -> (r: FileSystem)
        ensures
            r == FileSystem::External,
    {
        self.fs
    }

    /// The relative path, as text.
    pub fn relative(&self) -> (r: &String)
        ensures
            r@ == self@,
    {
        &self.p
    }

    /// The full path of this file under the directory `base_dir` that holds
    /// the server's `files` directory.
    pub fn build(&self, base_dir: &str) -> (r: String)
        ensures
            r@ == base_dir@ + files_dir_spec() + self@,
    {
        let mut o = String::from_str(base_dir);
        push_char(&mut o, '\\');
        push_char(&mut o, 'f');
        push_char(&mut o, 'i');
        push_char(&mut o, 'l');
        push_char(&mut o, 'e');
        push_char(&mut o, 's');
        push_char(&mut o, '\\');
        assert(o@ == base_dir@ + files_dir_spec());
        o.append(self.p.as_str());
        o
    }

    /// This path with `other` appended to it.
    pub fn join(self, other: &str) -> (r: Path)
        ensures
            r@ == self@ + other@,
    {
        Path { fs: self.fs, p: self.p.concat(other) }
    }
}

impl ConsPath {
    /// A fixed path to `p` in file system `fs`.
    pub fn new(fs: FileSystem, p: &'static str) -> (r: ConsPath)
        ensures
            r@ == p@,
    {
        ConsPath { fs, p }
    }

    /// The owned path that this fixed path names.
    pub fn to_path(self) -> (r: Path)
        ensures
            r@ == self@,
    {
        Path { fs: self.fs, p: String::from_str(self.p) }
    }
}

impl From<ConsPath> for Path {
    fn from(o: ConsPath) -> (r: Path)
        ensures
            r@ == o@,
    {
        o.to_path()
    }
}

impl vstd::std_specs::convert::FromSpecImpl<ConsPath> for Path {
    open spec fn obeys_from_spec() -> bool {
        false
    }

    open spec fn from_spec(v: ConsPath) -> Path {
        arbitrary()
    }
}

impl<'a> core::ops::Add<&'a str> for Path {
    type Output = Path;

    fn add(self, other: &'a str) -> (r: Path)
        ensures
            r@ == self@ + other@,
    {
        self.join(other)
    }
}

impl<'a> vstd::std_specs::ops::AddSpecImpl<&'a str> for Path {
    open spec fn obeys_add_spec() -> bool {
        false
    }

    open spec fn add_req(self, rhs: &'a str) -> bool {
        true
    }

    open spec fn add_spec(self, rhs: &'a str) -> Path {
        arbitrary()
    }
}

} // verus!
