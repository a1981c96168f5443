//! Semantic versions, as the `semver` crate reads them.
use vstd::prelude::*;

verus! {

/// A semantic version: `major.minor.patch`, then an optional pre-release
/// after `-` and optional build metadata after `+` (empty when absent).
#[derive(Debug, Clone)]
pub struct SemanticVersion {
    pub major: u64,
    pub minor: u64,
    pub patch: u64,
    pub pre: String,
    pub build: String,
}

/// What `semver::Version::parse` reads from `text`: major, minor, patch,
/// pre-release and build metadata, or `None` when it refuses the text.
pub uninterp spec fn semver_parts(text: Seq<char>) -> Option<(u64, u64, u64, Seq<char>, Seq<char>)>;

/// Relies on `semver::Version::parse`: its parts depend on the text alone,
/// and it refuses the empty text. The parts are moved into a
/// [`SemanticVersion`], with the pre-release and build metadata as text.
#[verifier::external_body]
pub(crate) fn parse_semver(text: &str) -> (r: Option<SemanticVersion>)
    ensures
        match r {
            Some(v) => semver_parts(text@) == Some((v.major, v.minor, v.patch, v.pre@, v.build@)),
            None => semver_parts(text@) is None,
        },
        text@.len() == 0 ==> r is None,
{
    semver::Version::parse(text).ok().map(
        |v| SemanticVersion {
            major: v.major,
            minor: v.minor,
            patch: v.patch,
            pre: v.pre.as_str().to_string(),
            build: v.build.as_str().to_string(),
        },
    )
}

} // verus!
