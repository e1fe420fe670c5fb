//! Versions and version requirements, held as the text they were written in
//! and judged by the `semver` crate.

use vstd::prelude::*;
use vstd::string::*;
use crate::error::Error;

verus! {

/// Whether `semver::VersionReq::parse` accepts this text.
pub uninterp spec fn requirement_syntax(text: Seq<char>) -> bool;

/// Whether `semver::Version::parse` accepts this text.
pub uninterp spec fn version_syntax(text: Seq<char>) -> bool;

/// Whether the requirement written as the first text admits the version
/// written as the second, as `semver::VersionReq::matches` decides it.
pub uninterp spec fn satisfies(requirement: Seq<char>, version: Seq<char>) -> bool;

/// `semver::VersionReq::parse`, keeping only whether it succeeded: `Ok`
/// exactly on the texts that are requirements, else the parser's error as
/// it prints itself.
#[verifier::external_body]
fn check_requirement(text: &str) -> (r: Result<(), String>)
    ensures
        r.is_ok() == requirement_syntax(text@),
{
    match semver::VersionReq::parse(text) {
        Ok(_) => Ok(()),
        Err(error) => Err(error.to_string()),
    }
}

/// `semver::Version::parse`, keeping only whether it succeeded: `Ok` exactly
/// on the texts that are versions, else the parser's error as it prints
/// itself.
#[verifier::external_body]
fn check_version(text: &str) -> (r: Result<(), String>)
    ensures
        r.is_ok() == version_syntax(text@),
{
    match semver::Version::parse(text) {
        Ok(_) => Ok(()),
        Err(error) => Err(error.to_string()),
    }
}

/// `semver::VersionReq::matches` on the two texts once parsed: `None` where
/// either text does not parse, else what `matches` answers.
#[verifier::external_body]
fn requirement_admits(requirement: &str, version: &str) -> (r: Option<bool>)
    ensures
        r == (if requirement_syntax(requirement@) && version_syntax(version@) {
            Some(satisfies(requirement@, version@))
        } else {
            None
        }),
{
    match (semver::VersionReq::parse(requirement), semver::Version::parse(version)) {
        (Ok(req), Ok(vers)) => Some(req.matches(&vers)),
        _ => None,
    }
}

/// A semantic version, such as `0.1.12`.
#[derive(Debug, PartialEq, Eq)]
pub struct Version {
    text: String,
}

impl View for Version {
    type V = Seq<char>;

    closed spec fn view(&self) -> Seq<char> {
        self.text@
    }
}

impl Clone for Version {
    fn clone(&self) -> (copy: Self)
        ensures
            copy@ == self@,
    {
        proof {
            use_type_invariant(self);
        }
        Version { text: self.text.clone() }
    }
}

impl Version {
    #[verifier::type_invariant]
    spec fn well_formed(self) -> bool {
        version_syntax(self.text@)
    }

    /// Read a version. Succeeds exactly on the texts that are versions and
    /// keeps the text as written.
    pub fn parse(text: &str) -> (r: Result<Version, Error>)
        ensures
            r is Ok <==> version_syntax(text@),
            r matches Ok(version) ==> version@ == text@,
            r matches Err(error) ==> error is InvalidVersion,
    {
        match check_version(text) {
            Ok(_) => Ok(Version { text: text.to_owned() }),
            Err(error) => Err(Error::InvalidVersion(error)),
        }
    }

    /// The version as it was written.
    pub fn as_str(&self) -> (text: &str)
        ensures
            text@ == self@,
    {
        self.text.as_str()
    }
}

/// A requirement on versions, such as `^0.1.0` or `=0.1.11`.
#[derive(Debug, PartialEq, Eq)]
pub struct VersionReq {
    text: String,
}

impl View for VersionReq {
    type V = Seq<char>;

    closed spec fn view(&self) -> Seq<char> {
        self.text@
    }
}

impl Clone for VersionReq {
    fn clone(&self) -> (copy: Self)
        ensures
            copy@ == self@,
    {
        proof {
            use_type_invariant(self);
        }
        VersionReq { text: self.text.clone() }
    }
}

impl VersionReq {
    #[verifier::type_invariant]
    spec fn well_formed(self) -> bool {
        requirement_syntax(self.text@)
    }

    /// Read a requirement. Succeeds exactly on the texts that are
    /// requirements and keeps the text as written.
    pub fn parse(text: &str) -> (r: Result<VersionReq, Error>)
        ensures
            r is Ok <==> requirement_syntax(text@),
            r matches Ok(requirement) ==> requirement@ == text@,
            r matches Err(error) ==> error is InvalidVersion,
    {
        match check_requirement(text) {
            Ok(_) => Ok(VersionReq { text: text.to_owned() }),
            Err(error) => Err(Error::InvalidVersion(error)),
        }
    }

    /// The requirement as it was written.
    pub fn as_str(&self) -> (text: &str)
        ensures
            text@ == self@,
    {
        self.text.as_str()
    }

    /// Whether this requirement admits the version.
    pub fn matches(&self, version: &Version) -> (admitted: bool)
        ensures
            admitted == satisfies(self@, version@),
    {
        proof {
            use_type_invariant(self);
            use_type_invariant(version);
        }
        match requirement_admits(self.text.as_str(), version.text.as_str()) {
            Some(admitted) => admitted,
            None => false,
        }
    }
}

} // verus!
