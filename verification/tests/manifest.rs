use std::path::PathBuf;

use serde_json::Value;
use typescript_tools::{Directory, PackageManifest, PackageManifestFile, PackageName};

fn fields(text: &str) -> serde_json::Map<String, Value> {
    let value: Value = serde_json::from_str(text).unwrap();
    value.as_object().unwrap().clone()
}

fn manifest(name: &str, version: &str, extra: &str) -> PackageManifest {
    PackageManifest::new(
        Directory::unchecked_from_path(PathBuf::from("packages").join(name)),
        PackageManifestFile {
            name: PackageName::from(name),
            version: version.to_owned(),
            extra_fields: fields(extra),
        },
    )
}

fn declared(manifest: &PackageManifest) -> Vec<(String, Value)> {
    manifest
        .dependencies_iter()
        .into_iter()
        .map(|(name, version)| (name.as_str().to_owned(), version.clone()))
        .collect()
}

#[test]
fn unscoped_name_of_a_scoped_package() {
    assert_eq!(manifest("@scope/pkg", "1.0.0", "{}").unscoped_package_name(), "pkg");
}

#[test]
fn unscoped_name_of_an_unscoped_package() {
    assert_eq!(manifest("pkg", "1.0.0", "{}").unscoped_package_name(), "pkg");
}

#[test]
fn unscoped_name_follows_the_last_slash() {
    assert_eq!(manifest("a/b/c", "1.0.0", "{}").unscoped_package_name(), "c");
    assert_eq!(manifest("@scope/", "1.0.0", "{}").unscoped_package_name(), "");
    assert_eq!(manifest("", "1.0.0", "{}").unscoped_package_name(), "");
    assert_eq!(manifest("/", "1.0.0", "{}").unscoped_package_name(), "");
}

#[test]
fn unscoped_name_counts_characters_not_bytes() {
    assert_eq!(manifest("@größe/süß", "1.0.0", "{}").unscoped_package_name(), "süß");
}

#[test]
fn pack_file_basename_of_a_scoped_package() {
    assert_eq!(
        manifest("@scope/my-lib", "1.2.3", "{}").npm_pack_file_basename(),
        "scope-my-lib-1.2.3.tgz"
    );
}

#[test]
fn pack_file_basename_of_an_unscoped_package() {
    assert_eq!(manifest("pkg", "0.0.1", "{}").npm_pack_file_basename(), "pkg-0.0.1.tgz");
}

#[test]
fn pack_file_basename_strips_every_leading_marker_and_replaces_every_slash() {
    assert_eq!(
        manifest("@@a/b/c@d", "2.0.0-beta", "{}").npm_pack_file_basename(),
        "a-b-c@d-2.0.0-beta.tgz"
    );
    assert_eq!(manifest("", "", "{}").npm_pack_file_basename(), "-.tgz");
}

#[test]
fn dependency_version_prefers_the_earlier_group() {
    let m = manifest(
        "pkg",
        "1.0.0",
        r#"{"dependencies": {"a": "1.0.0"}, "devDependencies": {"a": "2.0.0"}}"#,
    );
    assert_eq!(m.get_dependency_version("a"), Some("1.0.0".to_owned()));
}

#[test]
fn dependency_version_is_found_in_each_group() {
    let m = manifest(
        "pkg",
        "1.0.0",
        r#"{
            "dependencies": {"a": "1"},
            "devDependencies": {"b": "2"},
            "optionalDependencies": {"c": "3"},
            "peerDependencies": {"d": "4"}
        }"#,
    );
    assert_eq!(m.get_dependency_version("a"), Some("1".to_owned()));
    assert_eq!(m.get_dependency_version("b"), Some("2".to_owned()));
    assert_eq!(m.get_dependency_version("c"), Some("3".to_owned()));
    assert_eq!(m.get_dependency_version("d"), Some("4".to_owned()));
}

#[test]
fn dependency_version_order_is_runtime_development_optional_peer() {
    let m = manifest(
        "pkg",
        "1.0.0",
        r#"{
            "peerDependencies": {"a": "4", "b": "4", "c": "4"},
            "optionalDependencies": {"a": "3", "b": "3"},
            "devDependencies": {"a": "2"}
        }"#,
    );
    assert_eq!(m.get_dependency_version("a"), Some("2".to_owned()));
    assert_eq!(m.get_dependency_version("b"), Some("3".to_owned()));
    assert_eq!(m.get_dependency_version("c"), Some("4".to_owned()));
}

#[test]
fn dependency_version_of_an_undeclared_name_is_none() {
    let m = manifest("pkg", "1.0.0", r#"{"dependencies": {"a": "1.0.0"}, "scripts": {"b": "x"}}"#);
    assert_eq!(m.get_dependency_version("b"), None);
    assert_eq!(manifest("pkg", "1.0.0", "{}").get_dependency_version("a"), None);
}

#[test]
fn dependency_version_that_is_no_string_is_none() {
    let m = manifest("pkg", "1.0.0", r#"{"dependencies": {"a": {"version": "1.0.0"}, "b": 3}}"#);
    assert_eq!(m.get_dependency_version("a"), None);
    assert_eq!(m.get_dependency_version("b"), None);
}

#[test]
fn dependency_version_is_decided_by_the_first_group_that_declares_it() {
    let m = manifest(
        "pkg",
        "1.0.0",
        r#"{"dependencies": {"a": null}, "devDependencies": {"a": "2.0.0"}}"#,
    );
    assert_eq!(m.get_dependency_version("a"), None);
}

#[test]
fn dependency_group_that_is_no_object_is_passed_over() {
    let m = manifest(
        "pkg",
        "1.0.0",
        r#"{"dependencies": "a", "devDependencies": ["a"], "peerDependencies": {"a": "4.0.0"}}"#,
    );
    assert_eq!(m.get_dependency_version("a"), Some("4.0.0".to_owned()));
    assert_eq!(declared(&m), vec![("a".to_owned(), Value::String("4.0.0".to_owned()))]);
}

#[test]
fn dependencies_are_yielded_group_by_group() {
    let m = manifest(
        "pkg",
        "1.0.0",
        r#"{
            "peerDependencies": {"p": "4"},
            "dependencies": {"a": "1", "b": "1"},
            "optionalDependencies": {"o": {"x": 1}},
            "devDependencies": {"a": "2", "d": "2"},
            "scripts": {"build": "tsc"}
        }"#,
    );
    let got = declared(&m);
    let one: Value = serde_json::from_str(r#"{"x": 1}"#).unwrap();
    assert_eq!(
        got,
        vec![
            ("a".to_owned(), Value::String("1".to_owned())),
            ("b".to_owned(), Value::String("1".to_owned())),
            ("a".to_owned(), Value::String("2".to_owned())),
            ("d".to_owned(), Value::String("2".to_owned())),
            ("o".to_owned(), one),
            ("p".to_owned(), Value::String("4".to_owned())),
        ]
    );
}

#[test]
fn dependencies_count_is_the_sum_of_the_groups() {
    let m = manifest(
        "pkg",
        "1.0.0",
        r#"{
            "dependencies": {"a": "1", "b": "1", "c": "1"},
            "devDependencies": {"a": "2"},
            "optionalDependencies": {},
            "peerDependencies": {"a": "4", "b": "4"}
        }"#,
    );
    assert_eq!(m.dependencies_iter().len(), 3 + 1 + 0 + 2);
    assert_eq!(manifest("pkg", "1.0.0", "{}").dependencies_iter().len(), 0);
}

#[test]
fn manifest_accessors_hand_back_what_it_was_made_of() {
    let m = manifest("@scope/pkg", "1.2.3", r#"{"private": true}"#);
    assert_eq!(m.directory().as_path_buf(), &PathBuf::from("packages/@scope/pkg"));
    assert_eq!(m.path(), PathBuf::from("packages/@scope/pkg/package.json"));
    assert_eq!(m.contents().name.as_str(), "@scope/pkg");
    assert_eq!(m.contents().version, "1.2.3");
    assert_eq!(m.contents().extra_fields.get("private"), Some(&Value::Bool(true)));
    assert_eq!(m.contents.extra_fields.len(), 1);
}

#[test]
fn manifest_lends_itself() {
    let m = manifest("pkg", "1.0.0", "{}");
    let lent: &PackageManifest = m.as_ref();
    assert_eq!(lent.contents.name.as_str(), "pkg");
    assert_eq!(lent.npm_pack_file_basename(), "pkg-1.0.0.tgz");
}

#[test]
fn package_name_conversions_keep_the_text() {
    let owned = String::from("@scope/pkg");
    assert_eq!(PackageName::from("@scope/pkg").as_str(), "@scope/pkg");
    assert_eq!(PackageName::from(&owned).as_str(), "@scope/pkg");
    assert_eq!(PackageName::from(owned.clone()).as_str(), "@scope/pkg");
    assert_eq!(PackageName::from("a"), PackageName::from(String::from("a")));
    assert!(PackageName::from("a") < PackageName::from("b"));
}
