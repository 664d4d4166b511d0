//! The servers, and whether the running version is behind the latest
//! release.

use vstd::prelude::*;

use crate::text::joined;

verus! {

pub const DOFUSDB_API: &'static str = "https://api.dofusdb.fr";

pub const GANYMEDE_API: &'static str = "https://ganymede-app.com/api";

pub const API_KEY_HEADER: &'static str = "X-API-KEY";

#[derive(Debug)]
pub enum Error {
    BuildClientBuilder(String),
}

#[derive(Debug)]
pub enum AppVersionError {
    GitHub(String),
    JsonMalformed(String),
    SemverParse(String),
}

/// The latest release, as the server names it.
#[derive(Debug, Clone)]
pub struct AppRelease {
    pub tag_name: String,
}

/// Whether the running version `from` is older than the release `to`.
#[derive(Debug, Clone)]
pub struct IsOld {
    pub from: String,
    pub to: String,
    pub is_old: bool,
}

/// A version as `semver` prints it, and whether it meets a requirement.
#[derive(Debug, Clone)]
pub struct Matched {
    pub version: String,
    pub matches: bool,
}

pub struct MatchedView {
    pub version: Seq<char>,
    pub matches: bool,
}

pub open spec fn comparison_view(outcome: Result<Option<Matched>, String>) -> Result<
    Option<MatchedView>,
    Seq<char>,
> {
    match outcome {
        Ok(Some(m)) => Ok(Some(MatchedView { version: m.version@, matches: m.matches })),
        Ok(None) => Ok(None),
        Err(why) => Err(why@),
    }
}

/// What `semver` makes of a requirement and a version: why the requirement
/// is refused; else nothing where the version is none; else the version as
/// `semver` prints it, and whether it meets the requirement.
pub uninterp spec fn semver_comparison(requirement: Seq<char>, version: Seq<char>) -> Result<
    Option<MatchedView>,
    Seq<char>,
>;

/// Reads `requirement` with `semver::VersionReq::parse` and `version` with
/// `semver::Version::parse`. A requirement that is refused gives the
/// error's text; a version that is refused gives nothing; else the result
/// holds the version as its `Display` impl prints it and what
/// `VersionReq::matches` says of it. The contract names the result: the
/// same two texts give the same result.
#[verifier::external_body]
pub(crate) fn compare_versions(requirement: &str, version: &str) -> (outcome: Result<
    Option<Matched>,
    String,
>)
    ensures
        comparison_view(outcome) == semver_comparison(requirement@, version@),
{
    match semver::VersionReq::parse(requirement) {
        Ok(wanted) => Ok(
            semver::Version::parse(version).ok().map(
                |found| Matched { matches: wanted.matches(&found), version: found.to_string() },
            ),
        ),
        Err(error) => Err(error.to_string()),
    }
}

/// Whether `result` is the verdict on the release `tag`, `outcome` being
/// what the comparison gave.
pub open spec fn is_verdict_of(
    result: Result<Option<IsOld>, AppVersionError>,
    tag: Seq<char>,
    outcome: Result<Option<MatchedView>, Seq<char>>,
) -> bool {
    match outcome {
        Err(why) => result matches Err(AppVersionError::SemverParse(text)) && text@ == why,
        Ok(None) => result matches Ok(None),
        Ok(Some(m)) => result matches Ok(Some(verdict)) && verdict.from@ == m.version
            && verdict.to@ == tag && verdict.is_old == m.matches,
    }
}

/// The verdict on the release `tag_name` from what the comparison gave:
/// nothing where the running version is no version.
pub fn verdict_from(tag_name: String, outcome: Result<Option<Matched>, String>) -> (result: Result<
    Option<IsOld>,
    AppVersionError,
>)
    ensures
        is_verdict_of(result, tag_name@, comparison_view(outcome)),
{
    match outcome {
        Err(why) => Err(AppVersionError::SemverParse(why)),
        Ok(None) => Ok(None),
        Ok(Some(m)) => Ok(Some(IsOld { from: m.version, to: tag_name, is_old: m.matches })),
    }
}

#[derive(Debug, Clone, Copy)]
pub struct ApiImpl;

impl ApiImpl {
    /// Whether the running version `version` is older than the release
    /// `release`: whether it meets the requirement "less than the
    /// release". Gives nothing where `version` is no version.
    pub fn is_app_version_old(self, version: &str, release: AppRelease) -> (result: Result<
        Option<IsOld>,
        AppVersionError,
    >)
        ensures
            is_verdict_of(
                result,
                release.tag_name@,
                semver_comparison("<"@ + release.tag_name@, version@),
            ),
    {
        let requirement = joined("<", release.tag_name.as_str());
        let outcome = compare_versions(requirement.as_str(), version);
        verdict_from(release.tag_name, outcome)
    }
}

} // verus!
