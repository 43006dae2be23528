//! Semantic versions: the triple of a package version with its optional
//! pre-release and build metadata.

use crate::text::{decimal, numeral};
use vstd::prelude::*;
use vstd::string::*;

verus! {

/// A semantic version. `pre` and `build` are empty where the version has no
/// pre-release or no build metadata.
#[derive(Debug, Clone, PartialEq, Eq)]
pub struct Version {
    pub major: u64,
    pub minor: u64,
    pub patch: u64,
    pub pre: String,
    pub build: String,
}

/// The mathematical value of a [`Version`].
pub struct VersionView {
    pub major: nat,
    pub minor: nat,
    pub patch: nat,
    pub pre: Seq<char>,
    pub build: Seq<char>,
}

impl VersionView {
    /// The version as it is written: `major.minor.patch`, then `-` and the
    /// pre-release if there is one, then `+` and the build metadata if there is
    /// any.
    pub open spec fn text(self) -> Seq<char> {
        decimal(self.major) + seq!['.'] + decimal(self.minor) + seq!['.'] + decimal(self.patch)
            + (if self.pre.len() > 0 {
            seq!['-'] + self.pre
        } else {
            Seq::empty()
        }) + (if self.build.len() > 0 {
            seq!['+'] + self.build
        } else {
            Seq::empty()
        })
    }
}

impl View for Version {
    type V = VersionView;

    open spec fn view(&self) -> VersionView {
        VersionView {
            major: self.major as nat,
            minor: self.minor as nat,
            patch: self.patch as nat,
            pre: self.pre@,
            build: self.build@,
        }
    }
}

/// The version that `text` denotes under the strict grammar of semantic
/// versioning, as `semver::Version::parse` reads it; `None` where the text is
/// no version.
pub uninterp spec fn semver_version(text: Seq<char>) -> Option<VersionView>;

/// Calls `semver::Version::parse` and copies the five fields of its result.
/// The contract names the result: the same text always denotes the same
/// version, or none.
#[verifier::external_body]
fn parse_semver(text: &str) -> (parsed: Option<Version>)
    ensures
        parsed matches Some(v) ==> semver_version(text@) == Some(v@),
        parsed is None ==> semver_version(text@) is None,
{
    match semver::Version::parse(text) {
        Ok(v) => Some(
            Version {
                major: v.major,
                minor: v.minor,
                patch: v.patch,
                pre: v.pre.as_str().to_owned(),
                build: v.build.as_str().to_owned(),
            },
        ),
        Err(_) => None,
    }
}

impl Version {
    /// A release version: no pre-release, no build metadata.
    pub fn new(major: u64, minor: u64, patch: u64) -> (v: Version)
        ensures
            v@ == (VersionView {
                major: major as nat,
                minor: minor as nat,
                patch: patch as nat,
                pre: Seq::empty(),
                build: Seq::empty(),
            }),
    {
        Version { major, minor, patch, pre: String::new(), build: String::new() }
    }

    /// Reads a version from its text. Returns `None` exactly where the text is
    /// not a semantic version.
    pub fn parse(text: &str) -> (parsed: Option<Version>)
        ensures
            parsed matches Some(v) ==> semver_version(text@) == Some(v@),
            parsed is None ==> semver_version(text@) is None,
    {
        parse_semver(text)
    }

    /// Writes the version as text.
    pub fn to_text(&self) -> (text: String)
        ensures
            text@ == self@.text(),
    {
        proof {
            reveal_strlit(".");
            reveal_strlit("-");
            reveal_strlit("+");
        }
        let mut text = numeral(self.major);
        text.append(".");
        text.append(numeral(self.minor).as_str());
        text.append(".");
        text.append(numeral(self.patch).as_str());
        if self.pre.as_str().unicode_len() > 0 {
            text.append("-");
            text.append(self.pre.as_str());
        }
        if self.build.as_str().unicode_len() > 0 {
            text.append("+");
            text.append(self.build.as_str());
        }
        assert(text@ =~= self@.text());
        text
    }

    /// Tells whether two versions are the same in every part.
    pub fn same(&self, other: &Version) -> (same: bool)
        ensures
            same == (self@ == other@),
    {
        self.major == other.major && self.minor == other.minor && self.patch == other.patch
            && self.pre == other.pre && self.build == other.build
    }

    /// A copy of this version.
    pub fn duplicate(&self) -> (copy: Version)
        ensures
            copy@ == self@,
    {
        Version {
            major: self.major,
            minor: self.minor,
            patch: self.patch,
            pre: self.pre.clone(),
            build: self.build.clone(),
        }
    }
}

} // verus!
