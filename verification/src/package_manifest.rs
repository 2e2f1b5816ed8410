//! Package manifests and the dependencies they declare.

use crate::directory::{file_in, Directory};
use crate::json::{
    entries_lookup, object_entries, object_get, object_iter, object_of, string_of,
    value_as_object, value_as_str,
};
use crate::package_name::PackageName;
use crate::text::{last_segment, is_last_segment, replace_char, strip_and_replace, strip_leading};
use serde_json::Value;
use std::path::PathBuf;
use vstd::prelude::*;
use vstd::string::StringExecFns;

verus! {

/// The name that every package manifest file carries.
pub const PACKAGE_MANIFEST_FILENAME: &'static str = "package.json";

/// The field that holds the dependencies a package needs when it runs: the
/// first of the four dependency groups.
pub const RUNTIME_GROUP: &'static str = "dependencies";

/// The field that holds the dependencies a package needs while it is
/// developed: the second group.
pub const DEVELOPMENT_GROUP: &'static str = "devDependencies";

/// The field that holds the dependencies a package can do without: the third
/// group.
pub const OPTIONAL_GROUP: &'static str = "optionalDependencies";

/// The field that holds the dependencies a package expects of its host: the
/// fourth group.
pub const PEER_GROUP: &'static str = "peerDependencies";

/// The characters of [`PACKAGE_MANIFEST_FILENAME`].
pub open spec fn package_manifest_filename() -> Seq<char> {
    PACKAGE_MANIFEST_FILENAME@
}

/// The characters of [`RUNTIME_GROUP`].
pub open spec fn runtime_group() -> Seq<char> {
    RUNTIME_GROUP@
}

/// The characters of [`DEVELOPMENT_GROUP`].
pub open spec fn development_group() -> Seq<char> {
    DEVELOPMENT_GROUP@
}

/// The characters of [`OPTIONAL_GROUP`].
pub open spec fn optional_group() -> Seq<char> {
    OPTIONAL_GROUP@
}

/// The characters of [`PEER_GROUP`].
pub open spec fn peer_group() -> Seq<char> {
    PEER_GROUP@
}

/// The value that the first of the two holds, else what the second is.
pub open spec fn first_of(first: Option<Value>, second: Option<Value>) -> Option<Value> {
    if first is Some {
        first
    } else {
        second
    }
}

/// `yielded` hands out the entries `declared`, one for one and in their order:
/// each name as a package name, each version as it stands in the manifest.
pub open spec fn yields_entries(
    yielded: Seq<(PackageName, &Value)>,
    declared: Seq<(Seq<char>, Value)>,
) -> bool {
    &&& yielded.len() == declared.len()
    &&& forall|i: int|
        0 <= i < yielded.len() ==> (#[trigger] yielded[i]).0@ == declared[i].0 && *yielded[i].1
            == declared[i].1
}

/// The contents of a package manifest: its name, its version, and every other
/// top-level field as it was read.
#[derive(Clone, Debug)]
pub struct PackageManifestFile {
    pub name: PackageName,
    pub version: String,
    pub extra_fields: serde_json::Map<String, Value>,
}

impl PackageManifestFile {
    /// The declarations of one dependency group, in the order of the group's
    /// object: none where the manifest has no field of that name, or where the
    /// field is no object.
    pub open spec fn group_entries(&self, group: Seq<char>) -> Seq<(Seq<char>, Value)> {
        match entries_lookup(object_entries(self.extra_fields), group) {
            Some(field) => match object_of(field) {
                Some(object) => object_entries(object),
                None => Seq::empty(),
            },
            None => Seq::empty(),
        }
    }

    /// Every dependency declaration of the manifest: the four groups in their
    /// fixed order, each in the order of its object.
    pub open spec fn dependency_entries(&self) -> Seq<(Seq<char>, Value)> {
        self.group_entries(runtime_group()) + self.group_entries(development_group())
            + self.group_entries(optional_group()) + self.group_entries(peer_group())
    }

    /// What one dependency group declares for `dependency`, if anything.
    pub open spec fn declared_in_group(&self, group: Seq<char>, dependency: Seq<char>) -> Option<Value> {
        entries_lookup(self.group_entries(group), dependency)
    }

    /// What the manifest declares for `dependency`: the declaration of the
    /// first group, in the fixed order, that has one.
    pub open spec fn declared(&self, dependency: Seq<char>) -> Option<Value> {
        first_of(
            self.declared_in_group(runtime_group(), dependency),
            first_of(
                self.declared_in_group(development_group(), dependency),
                first_of(
                    self.declared_in_group(optional_group(), dependency),
                    self.declared_in_group(peer_group(), dependency),
                ),
            ),
        )
    }

    /// The version that the manifest declares for `dependency`: the text of
    /// its first declaration, where that declaration is a string.
    pub open spec fn dependency_version(&self, dependency: Seq<char>) -> Option<Seq<char>> {
        match self.declared(dependency) {
            Some(version) => string_of(version),
            None => None,
        }
    }

    /// The name of the archive that `npm pack` makes of the package.
    pub open spec fn pack_file_basename(&self) -> Seq<char> {
        replace_char(strip_leading(self.name@, '@'), '/', '-') + seq!['-'] + self.version@
            + seq!['.', 't', 'g', 'z']
    }

    /// The object of one dependency group, where the manifest has one.
    fn group_object<'a>(&'a self, group: &str) -> (object: Option<&'a serde_json::Map<String, Value>>)
        ensures
            match object {
                Some(map) => self.group_entries(group@) == object_entries(*map),
                None => self.group_entries(group@) == Seq::<(Seq<char>, Value)>::empty(),
            },
    {
        match object_get(&self.extra_fields, group) {
            Some(field) => value_as_object(field),
            None => None,
        }
    }

    /// What one dependency group declares for `dependency`, if anything.
    fn find_in_group<'a>(&'a self, group: &str, dependency: &str) -> (found: Option<&'a Value>)
        ensures
            match found {
                Some(version) => self.declared_in_group(group@, dependency@) == Some(*version),
                None => self.declared_in_group(group@, dependency@) is None,
            },
    {
        match self.group_object(group) {
            Some(object) => object_get(object, dependency),
            None => None,
        }
    }

    /// Appends the declarations of one dependency group to `out`.
    fn push_group_entries<'a>(&'a self, group: &str, out: &mut Vec<(PackageName, &'a Value)>, Ghost(before): Ghost<Seq<(Seq<char>, Value)>>)
        requires
            yields_entries(old(out)@, before),
        ensures
            yields_entries(final(out)@, before + self.group_entries(group@)),
    {
        match self.group_object(group) {
            Some(object) => {
                let entries = object_iter(object);
                let mut i: usize = 0;
                while i < entries.len()
                    invariant
                        i <= entries.len(),
                        entries@.len() == object_entries(*object).len(),
                        forall|k: int|
                            0 <= k < entries@.len() ==> (#[trigger] entries@[k]).0@
                                == object_entries(*object)[k].0 && *entries@[k].1
                                == object_entries(*object)[k].1,
                        yields_entries(out@, before + object_entries(*object).take(i as int)),
                    decreases entries.len() - i,
                {
                    let name = PackageName::from(&entries[i].0);
                    let version: &'a Value = entries[i].1;
                    out.push((name, version));
                    i = i + 1;
                    proof {
                        let all = object_entries(*object);
                        assert(all.take(i as int) =~= all.take(i - 1).push(all[i - 1]));
                        assert(before + all.take(i as int) =~= (before + all.take(i - 1)).push(
                            all[i - 1],
                        ));
                    }
                }
                proof {
                    let all = object_entries(*object);
                    assert(all.take(i as int) =~= all);
                }
            },
            None => {
                assert(before + self.group_entries(group@) =~= before);
            },
        }
    }
}

/// The earliest group that declares a dependency decides its version: where a
/// group declares `dependency` and no group before it in the fixed order
/// does, the version is the text of that group's declaration, whatever the
/// later groups hold.
pub proof fn earliest_group_decides(file: PackageManifestFile, dependency: Seq<char>, group: Seq<char>)
    requires
        file.declared_in_group(group, dependency) is Some,
        group == runtime_group() || (file.declared_in_group(runtime_group(), dependency) is None && (
        group == development_group() || (file.declared_in_group(development_group(), dependency)
            is None && (group == optional_group() || (file.declared_in_group(
            optional_group(),
            dependency,
        ) is None && group == peer_group()))))),
    ensures
        file.dependency_version(dependency) == string_of(
            file.declared_in_group(group, dependency)->0,
        ),
{
}

/// A dependency that no group declares has no version.
pub proof fn undeclared_has_no_version(file: PackageManifestFile, dependency: Seq<char>)
    requires
        file.declared_in_group(runtime_group(), dependency) is None,
        file.declared_in_group(development_group(), dependency) is None,
        file.declared_in_group(optional_group(), dependency) is None,
        file.declared_in_group(peer_group(), dependency) is None,
    ensures
        file.dependency_version(dependency) is None,
{
}

/// A dependency whose first declaration is no string has no version, whatever
/// the later groups declare for it.
pub proof fn non_string_has_no_version(file: PackageManifestFile, dependency: Seq<char>)
    requires
        file.declared(dependency) is Some,
        string_of(file.declared(dependency)->0) is None,
    ensures
        file.dependency_version(dependency) is None,
{
}

/// The manifest declares as many dependencies as its four groups hold
/// together: a name that several groups declare counts once for each.
pub proof fn dependency_count_is_sum_of_groups(file: PackageManifestFile)
    ensures
        file.dependency_entries().len() == file.group_entries(runtime_group()).len()
            + file.group_entries(development_group()).len() + file.group_entries(
            optional_group(),
        ).len() + file.group_entries(peer_group()).len(),
{
}

/// One package's manifest, with the directory it was read from.
#[derive(Clone, Debug)]
pub struct PackageManifest {
    relative_directory: Directory,
    pub contents: PackageManifestFile,
}

impl AsRef<PackageManifest> for PackageManifest {
    fn as_ref(&self) -> (manifest: &Self)
        ensures
            *manifest == *self,
    {
        self
    }
}

impl PackageManifest {
    /// The directory the manifest lies in.
    pub closed spec fn spec_directory(&self) -> Directory {
        self.relative_directory
    }

    /// What the manifest holds.
    pub closed spec fn spec_contents(&self) -> PackageManifestFile {
        self.contents
    }

    /// The characters of the package's name.
    pub open spec fn name(&self) -> Seq<char> {
        self.spec_contents().name@
    }

    /// The manifest with the given contents that lies in `relative_directory`.
    pub fn new(relative_directory: Directory, contents: PackageManifestFile) -> (manifest: Self)
        ensures
            manifest.spec_directory() == relative_directory,
            manifest.spec_contents() == contents,
    {
        PackageManifest { relative_directory, contents }
    }

    /// The directory the manifest lies in, relative to the monorepo root.
    pub fn directory(&self) -> (directory: &Directory)
        ensures
            *directory == self.spec_directory(),
    {
        &self.relative_directory
    }

    /// The path of the manifest, relative to the monorepo root.
    pub fn path(&self) -> (path: PathBuf)
        ensures
            path == file_in(self.spec_directory()@, package_manifest_filename()),
    {
        self.relative_directory.file(PACKAGE_MANIFEST_FILENAME)
    }

    /// What the manifest holds.
    pub fn contents(&self) -> (contents: &PackageManifestFile)
        ensures
            *contents == self.spec_contents(),
    {
        &self.contents
    }

    /// The version that the manifest declares for `dependency`. The four
    /// dependency groups are asked in their fixed order and the first that
    /// declares `dependency` decides: its version where that is a string,
    /// nothing where it is of another shape or where no group declares it.
    pub fn get_dependency_version(&self, dependency: &str) -> (version: Option<String>)
        ensures
            match version {
                Some(text) => self.spec_contents().dependency_version(dependency@) == Some(text@),
                None => self.spec_contents().dependency_version(dependency@) is None,
            },
    {
        let mut found = self.contents.find_in_group(RUNTIME_GROUP, dependency);
        if found.is_none() {
            found = self.contents.find_in_group(DEVELOPMENT_GROUP, dependency);
        }
        if found.is_none() {
            found = self.contents.find_in_group(OPTIONAL_GROUP, dependency);
        }
        if found.is_none() {
            found = self.contents.find_in_group(PEER_GROUP, dependency);
        }
        match found {
            Some(declared) => match value_as_str(declared) {
                Some(text) => Some(String::from_str(text)),
                None => None,
            },
            None => None,
        }
    }

    /// Every dependency declaration of the manifest, group by group in the
    /// fixed order of the groups and, within a group, in the order of its
    /// object. A name that several groups declare is handed out once for each.
    pub fn dependencies_iter(&self) -> (dependencies: Vec<(PackageName, &Value)>)
        ensures
            yields_entries(dependencies@, self.spec_contents().dependency_entries()),
            dependencies@.len() == self.spec_contents().group_entries(runtime_group()).len()
                + self.spec_contents().group_entries(development_group()).len() + self.spec_contents().group_entries(
                optional_group(),
            ).len() + self.spec_contents().group_entries(peer_group()).len(),
    {
        let mut out: Vec<(PackageName, &Value)> = Vec::new();
        let ghost none = Seq::<(Seq<char>, Value)>::empty();
        let ghost g0 = self.spec_contents().group_entries(runtime_group());
        let ghost g1 = self.spec_contents().group_entries(development_group());
        let ghost g2 = self.spec_contents().group_entries(optional_group());
        self.contents.push_group_entries(RUNTIME_GROUP, &mut out, Ghost(none));
        assert(none + g0 =~= g0);
        self.contents.push_group_entries(DEVELOPMENT_GROUP, &mut out, Ghost(g0));
        self.contents.push_group_entries(OPTIONAL_GROUP, &mut out, Ghost(g0 + g1));
        self.contents.push_group_entries(PEER_GROUP, &mut out, Ghost(g0 + g1 + g2));
        out
    }

    /// The name of the archive that `npm pack` makes of the package: the name
    /// without its leading `@`, with `-` for every `/`, then `-`, the version
    /// and `.tgz`.
    pub fn npm_pack_file_basename(&self) -> (basename: String)
        ensures
            basename@ == self.spec_contents().pack_file_basename(),
    {
        let mut out = strip_and_replace(self.contents.name.as_str(), '@', '/', '-');
        out.push('-');
        out.append(self.contents.version.as_str());
        out.append(".tgz");
        proof {
            reveal_strlit(".tgz");
            assert(".tgz"@ =~= seq!['.', 't', 'g', 'z']);
        }
        out
    }

    /// The name of the package without its scope: what stands behind the last
    /// `/` of the name, the whole name where it holds no `/`.
    pub fn unscoped_package_name(&self) -> (unscoped: &str)
        ensures
            is_last_segment(self.name(), '/', unscoped@),
            !self.name().contains('/') ==> unscoped@ == self.name(),
    {
        last_segment(self.contents.name.as_str(), '/')
    }
}

} // verus!
