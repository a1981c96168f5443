//! Typed identifiers for packages and package versions of a package-hosting
//! service, stored as one delimited text buffer plus byte offsets, and the
//! parts of its API client that decide without the network: splitting
//! streamed listings into records, the profile payload format, upload part
//! bounds, response classification and submission metadata.
mod error;
pub mod id;
pub mod ident;
pub mod lines;
pub mod metadata;
pub mod profile;
pub mod records;
pub mod semantic;
pub mod text;
pub mod transfer;

pub use error::{Error, Result};
pub use id::{IntoPackageId, IntoVersionId, PackageId, VersionId};
pub use ident::{
    IntoPackageIdent, IntoVersionIdent, PackageIdent, PackageIdentPath, VersionIdPath, VersionIdent,
};
