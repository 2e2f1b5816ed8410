//! The TypeScript compiler's project files, as far as the monorepo tooling
//! reads them.

use crate::directory::{file_in, Directory};
use serde_json::Value;
use std::path::PathBuf;
use vstd::prelude::*;

verus! {

/// The name that every TypeScript project file carries.
pub const TYPESCRIPT_CONFIG_FILENAME: &'static str = "tsconfig.json";

/// The characters of [`TYPESCRIPT_CONFIG_FILENAME`].
pub open spec fn typescript_config_filename() -> Seq<char> {
    TYPESCRIPT_CONFIG_FILENAME@
}

/// One entry of a project's `references` list.
#[derive(Debug, PartialEq, Eq)]
pub struct TypescriptProjectReference {
    pub path: String,
}

/// The contents of a project file that only refers to other projects.
#[derive(Debug, PartialEq, Eq)]
pub struct TypescriptParentProjectReferenceFile {
    /// This list is expected to be empty, but must be present to satisfy the
    /// TypeScript compiler.
    pub files: Vec<String>,
    pub references: Vec<TypescriptProjectReference>,
}

/// A project file that only refers to other projects, with the directory it
/// lies in.
#[derive(Debug)]
pub struct TypescriptParentProjectReference {
    directory: Directory,
    pub contents: TypescriptParentProjectReferenceFile,
}

impl TypescriptParentProjectReference {
    /// The directory the file lies in.
    pub closed spec fn spec_directory(&self) -> Directory {
        self.directory
    }

    /// What the file holds.
    pub closed spec fn spec_contents(&self) -> TypescriptParentProjectReferenceFile {
        self.contents
    }

    /// A project file with the given contents in `directory`.
    pub fn new(directory: Directory, contents: TypescriptParentProjectReferenceFile) -> (file: Self)
        ensures
            file.spec_directory() == directory,
            file.spec_contents() == contents,
    {
        TypescriptParentProjectReference { directory, contents }
    }

    /// The directory the file lies in, relative to the monorepo root.
    pub fn directory(&self) -> (directory: &Directory)
        ensures
            *directory == self.spec_directory(),
    {
        &self.directory
    }

    /// The path of the file, relative to the monorepo root.
    pub fn path(&self) -> (path: PathBuf)
        ensures
            path == file_in(self.spec_directory()@, typescript_config_filename()),
    {
        self.directory.file(TYPESCRIPT_CONFIG_FILENAME)
    }

    /// What the file holds.
    pub fn contents(&self) -> (contents: &TypescriptParentProjectReferenceFile)
        ensures
            *contents == self.spec_contents(),
    {
        &self.contents
    }
}

/// A TypeScript project file of any shape, with the directory it lies in.
#[derive(Debug)]
pub struct TypescriptConfig {
    directory: Directory,
    pub contents: serde_json::Map<String, Value>,
}

impl TypescriptConfig {
    /// The directory the file lies in.
    pub closed spec fn spec_directory(&self) -> Directory {
        self.directory
    }

    /// What the file holds.
    pub closed spec fn spec_contents(&self) -> serde_json::Map<String, Value> {
        self.contents
    }

    /// A project file with the given contents in `directory`.
    pub fn new(directory: Directory, contents: serde_json::Map<String, Value>) -> (file: Self)
        ensures
            file.spec_directory() == directory,
            file.spec_contents() == contents,
    {
        TypescriptConfig { directory, contents }
    }

    /// The directory the file lies in, relative to the monorepo root.
    pub fn directory(&self) -> (directory: &Directory)
        ensures
            *directory == self.spec_directory(),
    {
        &self.directory
    }

    /// The path of the file, relative to the monorepo root.
    pub fn path(&self) -> (path: PathBuf)
        ensures
            path == file_in(self.spec_directory()@, typescript_config_filename()),
    {
        self.directory.file(TYPESCRIPT_CONFIG_FILENAME)
    }

    /// What the file holds.
    pub fn contents(&self) -> (contents: &serde_json::Map<String, Value>)
        ensures
            *contents == self.spec_contents(),
    {
        &self.contents
    }
}

} // verus!
