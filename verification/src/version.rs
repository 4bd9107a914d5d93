//! Semantic versions, parsed and compared by the `semver` crate.
use vstd::prelude::*;

verus! {

#[verifier::external_type_specification]
#[verifier::external_body]
pub struct ExSemverVersion(semver::Version);

/// The `semver` value a [`SemVer`] was read from; only `parse_version`
/// makes one.
pub struct ParsedVersion {
    value: semver::Version,
}

/// A parsed semantic version: its numeric parts and its pre-release and
/// build texts, beside the `semver` value they were read from. Only
/// `parse_version` makes one, so the parts always are those of that value;
/// the getters hand them out.
pub struct SemVer {
    major: u64,
    minor: u64,
    patch: u64,
    pre: String,
    build: String,
    parsed: ParsedVersion,
}

/// The parts of a semantic version.
pub struct SemVerView {
    pub major: u64,
    pub minor: u64,
    pub patch: u64,
    pub pre: Seq<char>,
    pub build: Seq<char>,
}

impl View for SemVer {
    type V = SemVerView;

    closed spec fn view(&self) -> SemVerView {
        SemVerView {
            major: self.major,
            minor: self.minor,
            patch: self.patch,
            pre: self.pre@,
            build: self.build@,
        }
    }
}

impl SemVer {
    /// The major version.
    pub fn major(&self) -> (r: u64)
        ensures
            r == self@.major,
    {
        self.major
    }

    /// The minor version.
    pub fn minor(&self) -> (r: u64)
        ensures
            r == self@.minor,
    {
        self.minor
    }

    /// The patch version.
    pub fn patch(&self) -> (r: u64)
        ensures
            r == self@.patch,
    {
        self.patch
    }

    /// The pre-release text, empty for a release.
    pub fn pre(&self) -> (r: &str)
        ensures
            r@ == self@.pre,
    {
        self.pre.as_str()
    }

    /// The build metadata text.
    pub fn build(&self) -> (r: &str)
        ensures
            r@ == self@.build,
    {
        self.build.as_str()
    }
}

/// What `semver::Version::parse` makes of `text`: the version's parts, or
/// the message of the parse error.
pub uninterp spec fn semver_parse(text: Seq<char>) -> Result<SemVerView, Seq<char>>;

/// `a` has higher precedence than `b` in `semver::Version`'s order.
pub uninterp spec fn semver_gt(a: SemVerView, b: SemVerView) -> bool;

/// `semver::Version::parse`, with the version taken apart into its fields
/// (`pre` and `build` by `as_str`) and an error handed back as its message.
/// The contract names the result; the SemVer grammar is not restated.
#[verifier::external_body]
pub(crate) fn parse_version(text: &str) -> (r: Result<SemVer, String>)
    ensures
        match r {
            Ok(v) => semver_parse(text@) == Ok::<SemVerView, Seq<char>>(v@),
            Err(m) => semver_parse(text@) == Err::<SemVerView, Seq<char>>(m@),
        },
{
    match semver::Version::parse(text) {
        Ok(v) => Ok(SemVer {
            major: v.major,
            minor: v.minor,
            patch: v.patch,
            pre: v.pre.as_str().to_string(),
            build: v.build.as_str().to_string(),
            parsed: ParsedVersion { value: v },
        }),
        Err(error) => Err(error.to_string()),
    }
}

/// `a > b` in `semver::Version`'s (derived, total) order. The contract names
/// the result and states that a version is never greater than an equal one
/// and that the order is asymmetric. Both hold because the parts a `SemVer`
/// shows are those of the `semver` value compared: only `parse_version`
/// makes one, and its fields are private.
#[verifier::external_body]
pub(crate) fn version_greater(a: &SemVer, b: &SemVer) -> (r: bool)
    ensures
        r == semver_gt(a@, b@),
        a@ == b@ ==> !r,
        r ==> !semver_gt(b@, a@),
{
    a.parsed.value > b.parsed.value
}

} // verus!
