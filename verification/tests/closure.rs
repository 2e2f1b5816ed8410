use std::path::PathBuf;

use serde_json::Value;
use typescript_tools::{Directory, PackageManifest, PackageManifestFile, PackageName, PackageTable};

fn package(name: &str, extra: &str) -> PackageManifest {
    let value: Value = serde_json::from_str(extra).unwrap();
    PackageManifest::new(
        Directory::unchecked_from_path(PathBuf::from(name)),
        PackageManifestFile {
            name: PackageName::from(name),
            version: "1.0.0".to_owned(),
            extra_fields: value.as_object().unwrap().clone(),
        },
    )
}

fn table_of(packages: Vec<PackageManifest>) -> PackageTable {
    let mut table = PackageTable::new();
    for package in packages {
        table.insert(package);
    }
    table
}

fn names(manifests: &[&PackageManifest]) -> Vec<String> {
    manifests.iter().map(|m| m.contents.name.as_str().to_owned()).collect()
}

fn sorted(mut names: Vec<String>) -> Vec<String> {
    names.sort();
    names
}

#[test]
fn table_finds_packages_by_name() {
    let table = table_of(vec![package("a", "{}"), package("@s/b", "{}")]);
    assert!(table.contains("a"));
    assert!(table.contains("@s/b"));
    assert!(!table.contains("b"));
    assert_eq!(table.get("@s/b").unwrap().contents.name.as_str(), "@s/b");
    assert!(table.get("c").is_none());
    assert!(!PackageTable::new().contains("a"));
}

#[test]
fn table_keeps_the_manifest_inserted_last() {
    let mut table = PackageTable::new();
    table.insert(package("a", r#"{"dependencies": {"x": "1"}}"#));
    table.insert(package("a", r#"{"dependencies": {"x": "2"}}"#));
    assert_eq!(table.get("a").unwrap().get_dependency_version("x"), Some("2".to_owned()));
}

#[test]
fn internal_dependencies_drop_external_names() {
    let a = package(
        "a",
        r#"{"dependencies": {"b": "1", "left-pad": "1"}, "devDependencies": {"c": "1", "jest": "1"}}"#,
    );
    let table = table_of(vec![a.clone(), package("b", "{}"), package("c", "{}")]);
    assert_eq!(names(&a.internal_dependencies_iter(&table)), vec!["b", "c"]);
}

#[test]
fn internal_dependencies_repeat_a_name_declared_twice() {
    let a = package("a", r#"{"dependencies": {"b": "1"}, "peerDependencies": {"b": "1"}}"#);
    let table = table_of(vec![a.clone(), package("b", "{}")]);
    assert_eq!(names(&a.internal_dependencies_iter(&table)), vec!["b", "b"]);
}

#[test]
fn internal_dependencies_of_a_package_without_any() {
    let a = package("a", r#"{"dependencies": {"left-pad": "1"}}"#);
    let table = table_of(vec![a.clone()]);
    assert!(a.internal_dependencies_iter(&table).is_empty());
    assert!(a.internal_dependencies_iter(&PackageTable::new()).is_empty());
}

#[test]
fn closure_of_a_cycle_excludes_the_start() {
    let a = package("a", r#"{"dependencies": {"b": "1"}}"#);
    let b = package("b", r#"{"dependencies": {"a": "1"}}"#);
    let table = table_of(vec![a.clone(), b]);
    let closure = a.transitive_internal_dependency_package_names_exclusive(&table);
    assert_eq!(names(&closure), vec!["b"]);
}

#[test]
fn closure_of_a_diamond_holds_each_package_once() {
    let a = package("a", r#"{"dependencies": {"b": "1", "c": "1"}}"#);
    let b = package("b", r#"{"dependencies": {"d": "1"}}"#);
    let c = package("c", r#"{"devDependencies": {"d": "1"}}"#);
    let d = package("d", "{}");
    let table = table_of(vec![a.clone(), b, c, d]);
    let closure = a.transitive_internal_dependency_package_names_exclusive(&table);
    assert_eq!(closure.len(), 3);
    assert_eq!(sorted(names(&closure)), vec!["b", "c", "d"]);
}

#[test]
fn closure_follows_chains_and_passes_over_external_names() {
    let a = package("a", r#"{"dependencies": {"b": "1", "lodash": "4"}}"#);
    let b = package("b", r#"{"peerDependencies": {"c": "1", "react": "18"}}"#);
    let c = package("c", r#"{"optionalDependencies": {"d": "1"}}"#);
    let d = package("d", r#"{"dependencies": {"b": "1"}}"#);
    let e = package("e", r#"{"dependencies": {"a": "1"}}"#);
    let table = table_of(vec![a.clone(), b, c, d, e.clone()]);
    let of_a = a.transitive_internal_dependency_package_names_exclusive(&table);
    assert_eq!(names(&of_a), vec!["b", "c", "d"]);
    let of_e = e.transitive_internal_dependency_package_names_exclusive(&table);
    assert_eq!(sorted(names(&of_e)), vec!["a", "b", "c", "d"]);
}

#[test]
fn closure_of_a_package_that_depends_on_itself_is_empty() {
    let a = package("a", r#"{"dependencies": {"a": "1"}}"#);
    let table = table_of(vec![a.clone()]);
    assert!(a.transitive_internal_dependency_package_names_exclusive(&table).is_empty());
}

#[test]
fn closure_of_a_package_without_internal_dependencies_is_empty() {
    let a = package("a", r#"{"dependencies": {"left-pad": "1"}}"#);
    let table = table_of(vec![a.clone(), package("b", "{}")]);
    assert!(a.transitive_internal_dependency_package_names_exclusive(&table).is_empty());
    assert!(a.transitive_internal_dependency_package_names_exclusive(&PackageTable::new()).is_empty());
}

#[test]
fn closure_hands_out_the_manifests_of_the_table() {
    let a = package("a", r#"{"dependencies": {"b": "1"}}"#);
    let b = package("b", r#"{"dependencies": {"x": "7"}}"#);
    let table = table_of(vec![a.clone(), b]);
    let closure = a.transitive_internal_dependency_package_names_exclusive(&table);
    assert_eq!(closure.len(), 1);
    assert_eq!(closure[0].get_dependency_version("x"), Some("7".to_owned()));
    assert_eq!(closure[0].directory().as_path_buf(), &PathBuf::from("b"));
}
