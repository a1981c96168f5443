//! Compact identifiers: one text buffer, delimited by `-`, plus the byte
//! offsets at which its fields start.
pub mod package;
pub mod theorems;
pub mod version;

pub use package::{IntoPackageIdent, PackageIdent, PackageIdentPath};
pub use version::{IntoVersionIdent, VersionIdPath, VersionIdent};
