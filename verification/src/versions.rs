//! Semantic versions and requirements on them, as text.

use semver::{Version, VersionReq};
use vstd::prelude::*;

verus! {

/// Whether `semver::Version::parse` accepts a text.
pub uninterp spec fn version_valid(version: Seq<char>) -> bool;

/// Whether `semver::VersionReq::parse` accepts a text.
pub uninterp spec fn requirement_valid(requirement: Seq<char>) -> bool;

/// Whether `semver::VersionReq::matches` holds of what the two texts parse
/// to.
pub uninterp spec fn requirement_met(requirement: Seq<char>, version: Seq<char>) -> bool;

/// Whether the first version comes no earlier than the second in the order
/// of `semver::Version`.
pub uninterp spec fn version_reaches(version: Seq<char>, minimum: Seq<char>) -> bool;

/// Calls `semver::Version::parse` and says whether it succeeds. Which texts
/// it accepts is not said further.
#[verifier::external_body]
pub(crate) fn is_version(version: &str) -> (r: bool)
    ensures
        r == version_valid(version@),
{
    Version::parse(version).is_ok()
}

/// Calls `semver::VersionReq::matches` on what the two texts parse to;
/// `None` where one of them does not parse. Which versions meet which
/// requirements is not said further.
#[verifier::external_body]
pub(crate) fn meets_requirement(requirement: &str, version: &str) -> (r: Option<bool>)
    ensures
        r == (if requirement_valid(requirement@) && version_valid(version@) {
            Some(requirement_met(requirement@, version@))
        } else {
            None
        }),
{
    let requirement = VersionReq::parse(requirement).ok()?;
    let version = Version::parse(version).ok()?;
    Some(requirement.matches(&version))
}

/// Compares what two texts parse to by the order of `semver::Version`;
/// `None` where one of them does not parse. The order is not said further.
#[verifier::external_body]
pub(crate) fn at_least(version: &str, minimum: &str) -> (r: Option<bool>)
    ensures
        r == (if version_valid(version@) && version_valid(minimum@) {
            Some(version_reaches(version@, minimum@))
        } else {
            None
        }),
{
    let version = Version::parse(version).ok()?;
    let minimum = Version::parse(minimum).ok()?;
    Some(version >= minimum)
}

} // verus!
