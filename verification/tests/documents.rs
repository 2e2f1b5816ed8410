use std::path::{Path, PathBuf};

use serde_json::Value;
use typescript_tools::directory::configuration_file_path;
use typescript_tools::{
    Directory, TypescriptConfig, TypescriptParentProjectReference,
    TypescriptParentProjectReferenceFile, TypescriptProjectReference,
};

#[test]
fn directory_keeps_its_path() {
    let directory = Directory::unchecked_from_path(PathBuf::from("packages/a"));
    assert_eq!(directory.as_path_buf(), &PathBuf::from("packages/a"));
    assert_eq!(directory.clone(), directory);
}

#[test]
fn directory_lends_its_path() {
    let directory = Directory::unchecked_from_path(PathBuf::from("packages/a"));
    let borrowed: &Path = directory.as_ref();
    assert_eq!(borrowed, Path::new("packages/a"));
    assert_eq!(directory.to_path_buf(), PathBuf::from("packages/a"));
    assert!(directory.is_relative());
    assert!(directory.ends_with("a"));
}

#[test]
fn directory_joins_directories_and_file_names() {
    let root = Directory::unchecked_from_path(PathBuf::from("/repo"));
    let relative = Directory::unchecked_from_path(PathBuf::from("packages/a"));
    assert_eq!(root.join(&relative), PathBuf::from("/repo/packages/a"));
    assert_eq!(relative.file("tsconfig.json"), PathBuf::from("packages/a/tsconfig.json"));
    assert_eq!(
        configuration_file_path(&root, &relative, "package.json"),
        PathBuf::from("/repo/packages/a/package.json")
    );
}

#[test]
fn parent_project_reference_hands_back_what_it_was_made_of() {
    let contents = TypescriptParentProjectReferenceFile {
        files: vec![],
        references: vec![
            TypescriptProjectReference { path: "./a".to_owned() },
            TypescriptProjectReference { path: "./b".to_owned() },
        ],
    };
    let file = TypescriptParentProjectReference::new(
        Directory::unchecked_from_path(PathBuf::from("packages")),
        contents,
    );
    assert_eq!(file.directory().as_path_buf(), &PathBuf::from("packages"));
    assert_eq!(file.path(), PathBuf::from("packages/tsconfig.json"));
    assert!(file.contents().files.is_empty());
    assert_eq!(file.contents().references.len(), 2);
    assert_eq!(file.contents().references[1], TypescriptProjectReference { path: "./b".to_owned() });
    assert_eq!(file.contents.references[0].path, "./a");
}

#[test]
fn typescript_config_hands_back_what_it_was_made_of() {
    let value: Value = serde_json::from_str(r#"{"compilerOptions": {"strict": true}}"#).unwrap();
    let config = TypescriptConfig::new(
        Directory::unchecked_from_path(PathBuf::from("packages/a")),
        value.as_object().unwrap().clone(),
    );
    assert_eq!(config.directory().as_path_buf(), &PathBuf::from("packages/a"));
    assert_eq!(config.path(), PathBuf::from("packages/a/tsconfig.json"));
    assert_eq!(config.contents(), value.as_object().unwrap());
    assert_eq!(config.contents.len(), 1);
}
