//! Which packages of the monorepo a package depends on, directly and through
//! other packages.

use crate::package_manifest::PackageManifest;
use crate::package_table::{well_keyed, PackageTable};
use serde_json::Value;
use vstd::hash_map::StringHashMap;
use vstd::prelude::*;
use vstd::set_lib::lemma_len_subset;
use vstd::string::StringExecFns;

verus! {

/// Some entry of `entries` declares `name`.
pub open spec fn declares(entries: Seq<(Seq<char>, Value)>, name: Seq<char>) -> bool {
    exists|i: int| 0 <= i < entries.len() && (#[trigger] entries[i]).0 == name
}

/// The manifests that the names of `entries` have in `table`, in the order of
/// the entries. An entry whose name the table does not know gives none.
pub open spec fn resolve_entries(
    entries: Seq<(Seq<char>, Value)>,
    table: Map<Seq<char>, PackageManifest>,
) -> Seq<PackageManifest>
    decreases entries.len(),
{
    if entries.len() == 0 {
        Seq::empty()
    } else {
        let before = resolve_entries(entries.drop_last(), table);
        if table.contains_key(entries.last().0) {
            before.push(table[entries.last().0])
        } else {
            before
        }
    }
}

/// `refs` borrows the manifests `manifests`, one for one and in their order.
pub open spec fn borrows_all(refs: Seq<&PackageManifest>, manifests: Seq<PackageManifest>) -> bool {
    &&& refs.len() == manifests.len()
    &&& forall|i: int| 0 <= i < refs.len() ==> *(#[trigger] refs[i]) == manifests[i]
}

/// `manifest` declares a dependency on the package `name`, and `table` knows
/// that package.
pub open spec fn depends_on(
    manifest: PackageManifest,
    table: Map<Seq<char>, PackageManifest>,
    name: Seq<char>,
) -> bool {
    table.contains_key(name) && declares(manifest.spec_contents().dependency_entries(), name)
}

/// `chain` leads from `start` to its last name: `start` depends on the first
/// package of the chain, and each package of the chain on the next. No package
/// of the chain carries the name of `start`.
pub open spec fn is_chain(
    start: PackageManifest,
    table: Map<Seq<char>, PackageManifest>,
    chain: Seq<Seq<char>>,
) -> bool {
    &&& chain.len() > 0
    &&& depends_on(start, table, chain[0])
    &&& forall|i: int|
        0 <= i < chain.len() - 1 ==> depends_on(table[#[trigger] chain[i]], table, chain[i + 1])
    &&& forall|i: int| 0 <= i < chain.len() ==> #[trigger] chain[i] != start.name()
}

/// `path` leads from `start` to its last name through packages of any name:
/// `start` depends on the first package of the path, and each package of the
/// path on the next.
pub open spec fn is_path(
    start: PackageManifest,
    table: Map<Seq<char>, PackageManifest>,
    path: Seq<Seq<char>>,
) -> bool {
    &&& path.len() > 0
    &&& depends_on(start, table, path[0])
    &&& forall|i: int|
        0 <= i < path.len() - 1 ==> depends_on(table[#[trigger] path[i]], table, path[i + 1])
}

/// Some path leads from `start` to the package `name`.
pub open spec fn leads_to(
    start: PackageManifest,
    table: Map<Seq<char>, PackageManifest>,
    name: Seq<char>,
) -> bool {
    exists|path: Seq<Seq<char>>| #[trigger] is_path(start, table, path) && path.last() == name
}

/// The package `name` is an internal dependency of `start`, direct or
/// transitive, other than `start` itself.
pub open spec fn reaches(
    start: PackageManifest,
    table: Map<Seq<char>, PackageManifest>,
    name: Seq<char>,
) -> bool {
    exists|chain: Seq<Seq<char>>| #[trigger] is_chain(start, table, chain) && chain.last() == name
}

/// One of `found` is the manifest of the package `name`.
pub open spec fn has_name(found: Seq<&PackageManifest>, name: Seq<char>) -> bool {
    exists|i: int| 0 <= i < found.len() && (#[trigger] found[i]).name() == name
}

/// `closure` holds the internal dependencies of `start`, direct and
/// transitive, without `start` itself: each as the table has it, each once,
/// and none missing.
pub open spec fn is_exclusive_closure(
    start: PackageManifest,
    table: Map<Seq<char>, PackageManifest>,
    closure: Seq<&PackageManifest>,
) -> bool {
    &&& forall|i: int|
        0 <= i < closure.len() ==> table.contains_key((#[trigger] closure[i]).name())
            && table[closure[i].name()] == *closure[i]
    &&& forall|i: int, j: int|
        0 <= i < j < closure.len() ==> (#[trigger] closure[i]).name() != (#[trigger] closure[j]).name()
    &&& forall|name: Seq<char>| has_name(closure, name) <==> reaches(start, table, name)
}

/// The closure of a package never holds a package of that package's own name,
/// not even where a chain of dependencies leads back to it.
pub proof fn closure_excludes_start(
    start: PackageManifest,
    table: Map<Seq<char>, PackageManifest>,
    closure: Seq<&PackageManifest>,
)
    requires
        is_exclusive_closure(start, table, closure),
    ensures
        !has_name(closure, start.name()),
{
    if has_name(closure, start.name()) {
        assert(reaches(start, table, start.name()));
        let chain = choose|chain: Seq<Seq<char>>| #[trigger]
            is_chain(start, table, chain) && chain.last() == start.name();
        assert(chain[chain.len() - 1] != start.name());
    }
}

/// Two closures of one package over one table hold the same packages, and as
/// many of them: only the order may differ.
pub proof fn closure_is_determined(
    start: PackageManifest,
    table: Map<Seq<char>, PackageManifest>,
    a: Seq<&PackageManifest>,
    b: Seq<&PackageManifest>,
)
    requires
        is_exclusive_closure(start, table, a),
        is_exclusive_closure(start, table, b),
    ensures
        forall|name: Seq<char>| has_name(a, name) <==> has_name(b, name),
{
}

/// A path that ends at another package than `start` can be cut down to a
/// chain, where the table holds `start` under its name or nothing under it.
proof fn lemma_path_gives_chain(
    start: PackageManifest,
    table: Map<Seq<char>, PackageManifest>,
    path: Seq<Seq<char>>,
)
    requires
        table.contains_key(start.name()) ==> table[start.name()] == start,
        is_path(start, table, path),
        path.last() != start.name(),
    ensures
        reaches(start, table, path.last()),
    decreases path.len(),
{
    if forall|i: int| 0 <= i < path.len() ==> #[trigger] path[i] != start.name() {
        assert(is_chain(start, table, path) && path.last() == path.last());
    } else {
        let k = choose|k: int| 0 <= k < path.len() && #[trigger] path[k] == start.name();
        let rest = path.subrange(k + 1, path.len() as int);
        if k == 0 {
            assert(depends_on(start, table, path[0]));
        } else {
            assert(depends_on(table[path[k - 1]], table, path[k - 1 + 1]));
        }
        assert(table[path[k]] == start);
        assert(depends_on(table[path[k]], table, path[k + 1]));
        assert(rest[0] == path[k + 1]);
        assert forall|i: int| 0 <= i < rest.len() - 1 implies depends_on(
            table[#[trigger] rest[i]],
            table,
            rest[i + 1],
        ) by {
            assert(rest[i] == path[k + 1 + i]);
            assert(rest[i + 1] == path[k + 1 + i + 1]);
            assert(depends_on(table[path[k + 1 + i]], table, path[k + 1 + i + 1]));
        }
        assert(rest.last() == path.last());
        lemma_path_gives_chain(start, table, rest);
    }
}

/// Where the table holds `start` under its own name, or no package of that
/// name, the closure of `start` is what any path of dependencies leads to
/// from `start`, without `start` itself.
pub proof fn closure_is_what_paths_lead_to(
    start: PackageManifest,
    table: Map<Seq<char>, PackageManifest>,
    closure: Seq<&PackageManifest>,
)
    requires
        is_exclusive_closure(start, table, closure),
        table.contains_key(start.name()) ==> table[start.name()] == start,
    ensures
        forall|name: Seq<char>|
            has_name(closure, name) <==> (name != start.name() && leads_to(start, table, name)),
{
    closure_excludes_start(start, table, closure);
    assert forall|name: Seq<char>|
        has_name(closure, name) <==> (name != start.name() && leads_to(start, table, name)) by {
        if has_name(closure, name) {
            assert(reaches(start, table, name));
            let chain = choose|chain: Seq<Seq<char>>| #[trigger]
                is_chain(start, table, chain) && chain.last() == name;
            assert(is_path(start, table, chain) && chain.last() == name);
        }
        if name != start.name() && leads_to(start, table, name) {
            let path = choose|path: Seq<Seq<char>>| #[trigger]
                is_path(start, table, path) && path.last() == name;
            lemma_path_gives_chain(start, table, path);
        }
    }
}

/// Every direct internal dependency of a package, other than a package of its
/// own name, is in its closure.
pub proof fn closure_holds_direct_dependencies(
    start: PackageManifest,
    table: Map<Seq<char>, PackageManifest>,
    closure: Seq<&PackageManifest>,
    name: Seq<char>,
)
    requires
        is_exclusive_closure(start, table, closure),
        depends_on(start, table, name),
        name != start.name(),
    ensures
        has_name(closure, name),
{
    let chain = seq![name];
    assert(is_chain(start, table, chain) && chain.last() == name);
}

/// `manifest` is a package that the traversal from `start` may hold: not
/// `start` by name, the table's own manifest of its name, and reached.
spec fn listed(
    start: PackageManifest,
    table: Map<Seq<char>, PackageManifest>,
    manifest: PackageManifest,
) -> bool {
    &&& manifest.name() != start.name()
    &&& table.contains_key(manifest.name())
    &&& table[manifest.name()] == manifest
    &&& reaches(start, table, manifest.name())
}

/// What holds of the packages found so far and of the names seen so far.
spec fn traversal_state(
    start: PackageManifest,
    table: Map<Seq<char>, PackageManifest>,
    found: Seq<&PackageManifest>,
    seen: Set<Seq<char>>,
) -> bool {
    &&& forall|name: Seq<char>|
        seen.contains(name) <==> (name == start.name() || has_name(found, name))
    &&& forall|i: int| 0 <= i < found.len() ==> listed(start, table, *(#[trigger] found[i]))
    &&& forall|i: int, j: int|
        0 <= i < j < found.len() ==> (#[trigger] found[i]).name() != (#[trigger] found[j]).name()
}

/// Every package that `manifest` depends on, but `start`, is among `found`.
spec fn covered(
    start: PackageManifest,
    table: Map<Seq<char>, PackageManifest>,
    manifest: PackageManifest,
    found: Seq<&PackageManifest>,
) -> bool {
    forall|name: Seq<char>|
        #[trigger] depends_on(manifest, table, name) && name != start.name() ==> has_name(found, name)
}

/// `longer` starts with `shorter`.
spec fn extends(longer: Seq<&PackageManifest>, shorter: Seq<&PackageManifest>) -> bool {
    &&& shorter.len() <= longer.len()
    &&& forall|i: int| 0 <= i < shorter.len() ==> longer[i] == shorter[i]
}

proof fn lemma_has_name_extends(longer: Seq<&PackageManifest>, shorter: Seq<&PackageManifest>, name: Seq<char>)
    requires
        extends(longer, shorter),
        has_name(shorter, name),
    ensures
        has_name(longer, name),
{
    let i = choose|i: int| 0 <= i < shorter.len() && (#[trigger] shorter[i]).name() == name;
    assert(longer[i].name() == name);
}

proof fn lemma_covered_extends(
    start: PackageManifest,
    table: Map<Seq<char>, PackageManifest>,
    manifest: PackageManifest,
    longer: Seq<&PackageManifest>,
    shorter: Seq<&PackageManifest>,
)
    requires
        extends(longer, shorter),
        covered(start, table, manifest, shorter),
    ensures
        covered(start, table, manifest, longer),
{
    assert forall|name: Seq<char>|
        #[trigger] depends_on(manifest, table, name) && name != start.name() implies has_name(
        longer,
        name,
    ) by {
        lemma_has_name_extends(longer, shorter, name);
    }
}

/// Every resolved manifest is the table's manifest of a declared name.
proof fn lemma_resolved_is_declared(
    entries: Seq<(Seq<char>, Value)>,
    table: Map<Seq<char>, PackageManifest>,
    k: int,
)
    requires
        0 <= k < resolve_entries(entries, table).len(),
    ensures
        exists|name: Seq<char>|
            #[trigger] table.contains_key(name) && declares(entries, name) && resolve_entries(
                entries,
                table,
            )[k] == table[name],
    decreases entries.len(),
{
    let before = resolve_entries(entries.drop_last(), table);
    let last = entries.last().0;
    if k < before.len() {
        lemma_resolved_is_declared(entries.drop_last(), table, k);
        let name = choose|name: Seq<char>|
            #[trigger] table.contains_key(name) && declares(entries.drop_last(), name)
                && before[k] == table[name];
        let i = choose|i: int|
            0 <= i < entries.drop_last().len() && (#[trigger] entries.drop_last()[i]).0 == name;
        assert(entries[i].0 == name);
        assert(table.contains_key(name) && declares(entries, name) && resolve_entries(
            entries,
            table,
        )[k] == table[name]);
    } else {
        assert(entries[entries.len() - 1].0 == last);
        assert(table.contains_key(last) && declares(entries, last) && resolve_entries(
            entries,
            table,
        )[k] == table[last]);
    }
}

/// The table's manifest of every declared name that it knows is resolved.
proof fn lemma_declared_is_resolved(
    entries: Seq<(Seq<char>, Value)>,
    table: Map<Seq<char>, PackageManifest>,
    i: int,
)
    requires
        0 <= i < entries.len(),
        table.contains_key(entries[i].0),
    ensures
        exists|k: int|
            0 <= k < resolve_entries(entries, table).len() && #[trigger] resolve_entries(
                entries,
                table,
            )[k] == table[entries[i].0],
    decreases entries.len(),
{
    let before = resolve_entries(entries.drop_last(), table);
    let all = resolve_entries(entries, table);
    if i < entries.len() - 1 {
        lemma_declared_is_resolved(entries.drop_last(), table, i);
        let k = choose|k: int| 0 <= k < before.len() && #[trigger] before[k] == table[entries[i].0];
        assert(all[k] == table[entries[i].0]);
    } else {
        assert(all[all.len() - 1] == table[entries[i].0]);
    }
}

/// A package that a held package depends on is reached too.
proof fn lemma_reach_further(
    start: PackageManifest,
    table: Map<Seq<char>, PackageManifest>,
    current: PackageManifest,
    name: Seq<char>,
)
    requires
        current == start || listed(start, table, current),
        depends_on(current, table, name),
        name != start.name(),
    ensures
        reaches(start, table, name),
{
    if current == start {
        let chain = seq![name];
        assert(is_chain(start, table, chain) && chain.last() == name);
    } else {
        let so_far = choose|chain: Seq<Seq<char>>| #[trigger]
            is_chain(start, table, chain) && chain.last() == current.name();
        let chain = so_far.push(name);
        assert forall|i: int| 0 <= i < chain.len() - 1 implies depends_on(
            table[#[trigger] chain[i]],
            table,
            chain[i + 1],
        ) by {
            if i < so_far.len() - 1 {
                assert(chain[i] == so_far[i]);
                assert(chain[i + 1] == so_far[i + 1]);
            }
        }
        assert(is_chain(start, table, chain) && chain.last() == name);
    }
}

/// Where `found` covers `start` and each of its own packages, the last name
/// of every chain from `start` is among `found`.
proof fn lemma_chain_ends_in_found(
    start: PackageManifest,
    table: Map<Seq<char>, PackageManifest>,
    found: Seq<&PackageManifest>,
    chain: Seq<Seq<char>>,
)
    requires
        is_chain(start, table, chain),
        covered(start, table, start, found),
        forall|i: int| 0 <= i < found.len() ==> covered(start, table, *(#[trigger] found[i]), found),
        forall|i: int|
            0 <= i < found.len() ==> table[(#[trigger] found[i]).name()] == *found[i],
    ensures
        has_name(found, chain.last()),
    decreases chain.len(),
{
    if chain.len() == 1 {
        assert(depends_on(start, table, chain[0]));
    } else {
        let shorter = chain.drop_last();
        assert forall|i: int| 0 <= i < shorter.len() - 1 implies depends_on(
            table[#[trigger] shorter[i]],
            table,
            shorter[i + 1],
        ) by {
            assert(shorter[i] == chain[i]);
            assert(shorter[i + 1] == chain[i + 1]);
        }
        assert(is_chain(start, table, shorter));
        lemma_chain_ends_in_found(start, table, found, shorter);
        let k = choose|k: int| 0 <= k < found.len() && (#[trigger] found[k]).name() == shorter.last();
        let n = chain.len() - 2;
        assert(chain[n] == shorter.last());
        assert(depends_on(table[chain[n]], table, chain[n + 1]));
        assert(covered(start, table, *found[k], found));
        assert(depends_on(*found[k], table, chain.last()));
    }
}

/// No more packages are found than the table knows.
proof fn lemma_found_is_bounded(
    start: PackageManifest,
    table: Map<Seq<char>, PackageManifest>,
    found: Seq<&PackageManifest>,
    seen: Set<Seq<char>>,
)
    requires
        well_keyed(table),
        traversal_state(start, table, found, seen),
    ensures
        found.len() <= table.dom().len(),
{
    let names = Seq::new(found.len(), |i: int| found[i].name());
    assert forall|i: int, j: int| 0 <= i < names.len() && 0 <= j < names.len() && i != j implies names[i]
        != names[j] by {
        if i < j {
            assert(found[i].name() != found[j].name());
        } else {
            assert(found[j].name() != found[i].name());
        }
    }
    names.unique_seq_to_set();
    assert forall|name: Seq<char>| names.to_set().contains(name) implies table.dom().contains(
        name,
    ) by {
        let i = choose|i: int| 0 <= i < names.len() && names[i] == name;
        assert(listed(start, table, *found[i]));
    }
    lemma_len_subset(names.to_set(), table.dom());
}

/// Adds to `found` every package that `current` depends on and that was not
/// seen before.
fn visit_dependencies<'a>(
    start: &PackageManifest,
    current: &PackageManifest,
    table: &'a PackageTable,
    found: &mut Vec<&'a PackageManifest>,
    seen: &mut StringHashMap<bool>,
)
    requires
        table.wf(),
        traversal_state(*start, table@, old(found)@, old(seen)@.dom()),
        *current == *start || listed(*start, table@, *current),
    ensures
        traversal_state(*start, table@, final(found)@, final(seen)@.dom()),
        extends(final(found)@, old(found)@),
        covered(*start, table@, *current, final(found)@),
{
    let dependencies = current.internal_dependencies_iter(table);
    let ghost entries = current.spec_contents().dependency_entries();
    let ghost resolved = resolve_entries(entries, table@);
    let mut k: usize = 0;
    while k < dependencies.len()
        invariant
            k <= dependencies.len(),
            table.wf(),
            borrows_all(dependencies@, resolved),
            resolved == resolve_entries(entries, table@),
            entries == current.spec_contents().dependency_entries(),
            *current == *start || listed(*start, table@, *current),
            traversal_state(*start, table@, found@, seen@.dom()),
            extends(found@, old(found)@),
            forall|j: int| 0 <= j < k ==> seen@.dom().contains((#[trigger] dependencies@[j]).name()),
        decreases dependencies.len() - k,
    {
        let dependency: &'a PackageManifest = dependencies[k];
        let name = dependency.contents().name.as_str();
        proof {
            lemma_resolved_is_declared(entries, table@, k as int);
        }
        if !seen.contains_key(name) {
            let ghost before = found@;
            let ghost seen_before = seen@.dom();
            proof {
                lemma_reach_further(*start, table@, *current, dependency.name());
            }
            seen.insert(String::from_str(name), true);
            found.push(dependency);
            proof {
                let last = before.len() as int;
                assert(found@[last].name() == dependency.name());
                assert forall|other: Seq<char>|
                    seen@.dom().contains(other) <==> (other == start.name() || has_name(
                        found@,
                        other,
                    )) by {
                    if has_name(before, other) {
                        lemma_has_name_extends(found@, before, other);
                    }
                    if has_name(found@, other) {
                        let i = choose|i: int|
                            0 <= i < found@.len() && (#[trigger] found@[i]).name() == other;
                        if i < last {
                            assert(before[i].name() == other);
                        }
                    }
                }
                assert forall|i: int, j: int| 0 <= i < j < found@.len() implies (#[trigger] found@[i]).name()
                    != (#[trigger] found@[j]).name() by {
                    if j == last {
                        assert(before[i].name() == found@[i].name());
                        assert(!has_name(before, dependency.name()));
                    } else {
                        assert(before[i].name() != before[j].name());
                    }
                }
                assert forall|i: int| 0 <= i < found@.len() implies listed(
                    *start,
                    table@,
                    *(#[trigger] found@[i]),
                ) by {
                    if i < last {
                        assert(found@[i] == before[i]);
                    }
                }
            }
        }
        k = k + 1;
    }
    proof {
        assert forall|name: Seq<char>|
            #[trigger] depends_on(*current, table@, name) && name != start.name() implies has_name(
            found@,
            name,
        ) by {
            let i = choose|i: int| 0 <= i < entries.len() && (#[trigger] entries[i]).0 == name;
            lemma_declared_is_resolved(entries, table@, i);
            let j = choose|j: int| 0 <= j < resolved.len() && #[trigger] resolved[j] == table@[name];
            assert(dependencies@[j].name() == name);
        }
    }
}

impl PackageManifest {
    /// The manifests of the packages of `table` that this manifest declares a
    /// dependency on, one for each declaration and in the order of the
    /// declarations. A declared name that the table does not know is passed
    /// over.
    pub fn internal_dependencies_iter<'a>(&self, table: &'a PackageTable) -> (dependencies: Vec<
        &'a PackageManifest,
    >)
        ensures
            borrows_all(
                dependencies@,
                resolve_entries(self.spec_contents().dependency_entries(), table@),
            ),
    {
        let declared = self.dependencies_iter();
        let ghost entries = self.spec_contents().dependency_entries();
        let mut out: Vec<&'a PackageManifest> = Vec::new();
        let mut i: usize = 0;
        while i < declared.len()
            invariant
                i <= declared.len(),
                declared@.len() == entries.len(),
                forall|k: int|
                    0 <= k < declared@.len() ==> (#[trigger] declared@[k]).0@ == entries[k].0,
                borrows_all(out@, resolve_entries(entries.take(i as int), table@)),
            decreases declared.len() - i,
        {
            let found = table.get(declared[i].0.as_str());
            proof {
                assert(entries.take(i + 1).drop_last() =~= entries.take(i as int));
                assert(entries.take(i + 1).last() == entries[i as int]);
            }
            match found {
                Some(manifest) => {
                    out.push(manifest);
                },
                None => {},
            }
            i = i + 1;
        }
        proof {
            assert(entries.take(i as int) =~= entries);
        }
        out
    }

    /// The internal dependencies of this package, direct and transitive,
    /// without the package itself: the manifest of each package of `table`
    /// that a chain of declared dependencies leads to from this one, each
    /// once, in the order in which a breadth-first walk meets them. A package
    /// that depends on itself through others is safe: no name is expanded
    /// twice.
    pub fn transitive_internal_dependency_package_names_exclusive<'a>(
        &self,
        table: &'a PackageTable,
    ) -> (closure: Vec<&'a PackageManifest>)
        requires
            table.wf(),
        ensures
            is_exclusive_closure(*self, table@, closure@),
    {
        let mut found: Vec<&'a PackageManifest> = Vec::new();
        let mut seen: StringHashMap<bool> = StringHashMap::new();
        seen.insert(String::from_str(self.contents().name.as_str()), true);
        assert(traversal_state(*self, table@, found@, seen@.dom()));
        visit_dependencies(self, self, table, &mut found, &mut seen);
        let mut next: usize = 0;
        while next < found.len()
            invariant
                next <= found.len(),
                table.wf(),
                traversal_state(*self, table@, found@, seen@.dom()),
                covered(*self, table@, *self, found@),
                forall|i: int|
                    0 <= i < next ==> covered(*self, table@, *(#[trigger] found@[i]), found@),
            decreases table@.dom().len() - next,
        {
            let ghost before = found@;
            let current: &'a PackageManifest = found[next];
            proof {
                lemma_found_is_bounded(*self, table@, found@, seen@.dom());
                assert(listed(*self, table@, *found@[next as int]));
            }
            visit_dependencies(self, current, table, &mut found, &mut seen);
            proof {
                lemma_covered_extends(*self, table@, *self, found@, before);
                assert forall|i: int| 0 <= i < next + 1 implies covered(
                    *self,
                    table@,
                    *(#[trigger] found@[i]),
                    found@,
                ) by {
                    assert(found@[i] == before[i]);
                    if i < next {
                        lemma_covered_extends(*self, table@, *before[i], found@, before);
                    }
                }
            }
            next = next + 1;
        }
        proof {
            assert forall|name: Seq<char>| has_name(found@, name) <==> reaches(
                *self,
                table@,
                name,
            ) by {
                if has_name(found@, name) {
                    let i = choose|i: int|
                        0 <= i < found@.len() && (#[trigger] found@[i]).name() == name;
                    assert(listed(*self, table@, *found@[i]));
                }
                if reaches(*self, table@, name) {
                    let chain = choose|chain: Seq<Seq<char>>| #[trigger]
                        is_chain(*self, table@, chain) && chain.last() == name;
                    assert forall|i: int| 0 <= i < found@.len() implies table@[(
                    #[trigger] found@[i]).name()] == *found@[i] by {
                        assert(listed(*self, table@, *found@[i]));
                    }
                    lemma_chain_ends_in_found(*self, table@, found@, chain);
                }
            }
            assert forall|i: int| 0 <= i < found@.len() implies table@.contains_key(
                (#[trigger] found@[i]).name(),
            ) && table@[found@[i].name()] == *found@[i] by {
                assert(listed(*self, table@, *found@[i]));
            }
        }
        found
    }
}

} // verus!
