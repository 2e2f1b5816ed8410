//! The packages of a monorepo, found by name.

use crate::package_manifest::PackageManifest;
use vstd::hash_map::StringHashMap;
use vstd::prelude::*;
use vstd::string::StringExecFns;

verus! {

/// Every manifest stands under its own package's name, and the names are
/// finitely many.
pub open spec fn well_keyed(table: Map<Seq<char>, PackageManifest>) -> bool {
    &&& table.dom().finite()
    &&& forall|name: Seq<char>| #[trigger] table.contains_key(name) ==> table[name].name() == name
}

/// The manifests of a monorepo's packages, each under the name of its package.
pub struct PackageTable {
    by_name: StringHashMap<PackageManifest>,
}

impl View for PackageTable {
    type V = Map<Seq<char>, PackageManifest>;

    /// The manifest of each package that the table knows, by the characters of
    /// the package's name.
    closed spec fn view(&self) -> Map<Seq<char>, PackageManifest> {
        self.by_name@
    }
}

impl PackageTable {
    /// The table is well keyed.
    pub open spec fn wf(&self) -> bool {
        well_keyed(self@)
    }

    /// The table that knows no package.
    pub fn new() -> (table: Self)
        ensures
            table@ == Map::<Seq<char>, PackageManifest>::empty(),
            table.wf(),
    {
        PackageTable { by_name: StringHashMap::new() }
    }

    /// Puts `manifest` under the name of its package. A manifest that stood
    /// there before is dropped.
    pub fn insert(&mut self, manifest: PackageManifest)
        requires
            old(self).wf(),
        ensures
            final(self).wf(),
            final(self)@ == old(self)@.insert(manifest.name(), manifest),
    {
        let key = String::from_str(manifest.contents().name.as_str());
        self.by_name.insert(key, manifest);
    }

    /// The manifest of the package called `name`, where the table knows it.
    pub fn get(&self, name: &str) -> (manifest: Option<&PackageManifest>)
        ensures
            match manifest {
                Some(found) => self@.contains_key(name@) && *found == self@[name@],
                None => !self@.contains_key(name@),
            },
    {
        self.by_name.get(name)
    }

    /// Whether the table knows a package called `name`.
    pub fn contains(&self, name: &str) -> (known: bool)
        ensures
            known == self@.contains_key(name@),
    {
        self.by_name.contains_key(name)
    }
}

} // verus!
