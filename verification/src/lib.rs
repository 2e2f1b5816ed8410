//! A model of the internal package dependency graph of a monorepo: package
//! manifests, the dependencies they declare, and the packages of the same
//! monorepo that those dependencies reach.

pub mod closure;
pub mod directory;
pub mod json;
pub mod package_manifest;
pub mod package_name;
pub mod package_table;
pub mod text;
pub mod typescript_config;

pub use directory::Directory;
pub use package_manifest::{PackageManifest, PackageManifestFile};
pub use package_name::PackageName;
pub use package_table::PackageTable;
pub use typescript_config::{
    TypescriptConfig, TypescriptParentProjectReference, TypescriptParentProjectReferenceFile,
    TypescriptProjectReference,
};
