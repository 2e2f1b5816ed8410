//! Directories of a monorepo, and the paths of the files inside them.

use std::path::{Path, PathBuf};
use vstd::prelude::*;

verus! {

/// `std::path::PathBuf`, an owned file-system path. Nothing in this library
/// looks inside one.
#[verifier::external_type_specification]
#[verifier::external_body]
pub struct ExPathBuf(PathBuf);

/// `std::path::Path`, a borrowed file-system path. Nothing in this library
/// looks inside one.
#[verifier::external_type_specification]
#[verifier::external_body]
pub struct ExPath(Path);

/// The owned path that holds what the borrowed path `path` holds, as
/// `std::path::Path::to_path_buf` makes it.
pub uninterp spec fn owned_path(path: &Path) -> PathBuf;

/// `std::path::PathBuf::as_path`: the path, borrowed. Owned again it is the
/// same path.
pub assume_specification<'a>[ PathBuf::as_path ](path: &'a PathBuf) -> (borrowed: &'a Path)
    ensures
        owned_path(borrowed) == *path,
;

/// `Clone` for `std::path::PathBuf`: the copy is the same path.
pub assume_specification[ <PathBuf as Clone>::clone ](path: &PathBuf) -> (copy: PathBuf)
    ensures
        copy == *path,
;

/// The path that `std::path::Path::join` makes of `base` and `tail`.
pub uninterp spec fn joined_path(base: PathBuf, tail: PathBuf) -> PathBuf;

/// The path that `std::path::PathBuf::from` makes of a piece of text.
pub uninterp spec fn path_of_text(text: Seq<char>) -> PathBuf;

/// `std::path::Path::join`: `tail` adjoined to `base`.
#[verifier::external_body]
pub(crate) fn join_paths(base: &PathBuf, tail: &PathBuf) -> (path: PathBuf)
    ensures
        path == joined_path(*base, *tail),
{
    base.join(tail)
}

/// `std::path::PathBuf::from`, on a string slice: the path written as `text`.
#[verifier::external_body]
pub(crate) fn path_from_text(text: &str) -> (path: PathBuf)
    ensures
        path == path_of_text(text@),
{
    PathBuf::from(text)
}

/// The path of the file called `file_name` that lies directly in `directory`.
pub open spec fn file_in(directory: PathBuf, file_name: Seq<char>) -> PathBuf {
    joined_path(directory, path_of_text(file_name))
}

/// A non-empty path terminating in a directory.
#[derive(Clone, Debug, PartialEq, Eq, PartialOrd, Ord, Hash)]
pub struct Directory(PathBuf);

impl View for Directory {
    type V = PathBuf;

    /// The path of the directory.
    closed spec fn view(&self) -> PathBuf {
        self.0
    }
}

impl Directory {
    /// Takes `path` for a directory without looking at the file system.
    pub fn unchecked_from_path(path: PathBuf) -> (directory: Self)
        ensures
            directory@ == path,
    {
        Directory(path)
    }

    /// The path of the directory.
    pub fn as_path_buf(&self) -> (path: &PathBuf)
        ensures
            *path == self@,
    {
        &self.0
    }

    /// The directory `relative` as seen from inside this one.
    pub fn join(&self, relative: &Directory) -> (path: PathBuf)
        ensures
            path == joined_path(self@, relative@),
    {
        join_paths(&self.0, &relative.0)
    }

    /// The path of the file called `file_name` directly in this directory.
    pub fn file(&self, file_name: &str) -> (path: PathBuf)
        ensures
            path == file_in(self@, file_name@),
    {
        let tail = path_from_text(file_name);
        join_paths(&self.0, &tail)
    }
}

impl AsRef<Path> for Directory {
    fn as_ref(&self) -> (path: &Path)
        ensures
            owned_path(path) == self@,
    {
        self.0.as_path()
    }
}

impl std::ops::Deref for Directory {
    type Target = Path;

    fn deref(&self) -> (path: &Path)
        ensures
            owned_path(path) == self@,
    {
        self.0.as_path()
    }
}

/// The path of the file called `file_name` in the directory `relative` of the
/// monorepo rooted at `monorepo_root`.
pub fn configuration_file_path(monorepo_root: &Directory, relative: &Directory, file_name: &str) -> (path: PathBuf)
    ensures
        path == file_in(joined_path(monorepo_root@, relative@), file_name@),
{
    let directory = monorepo_root.join(relative);
    let tail = path_from_text(file_name);
    join_paths(&directory, &tail)
}

} // verus!
