//! The ways a lookup can fail.

use vstd::prelude::*;
use vstd::string::*;

verus! {

/// Everything that can go wrong between a query text and a resolved release.
#[derive(Debug)]
pub enum Error {
    /// A version or a version requirement is malformed; the text is the
    /// version parser's own account of what it met.
    InvalidVersion(String),
    /// The transport failed; the text says how.
    Request(String),
    /// The body of a response could not be read.
    Io(String),
    /// A release could not be encoded.
    Serialize(String),
    /// A line of an index file is not a release record.
    Deserialize(String),
    /// An index file held no release at all.
    EmptyIndex,
    /// No release of the named package matches.
    NotFound(String),
}

impl Error {
    /// The fixed opening of this error's message.
    pub open spec fn heading(self) -> Seq<char> {
        match self {
            Error::InvalidVersion(_) => "failed parsing version: "@,
            Error::Request(_) => "request failed: "@,
            Error::Io(_) => "IO error: "@,
            Error::Serialize(_) => "failed to serialize: "@,
            Error::Deserialize(_) => "failed to deserialize: "@,
            Error::EmptyIndex => "failed to populate from index file: "@,
            Error::NotFound(_) => "failed to find a matching release of `"@,
        }
    }

    /// What follows the heading.
    pub open spec fn detail(self) -> Seq<char> {
        match self {
            Error::InvalidVersion(text) => text@,
            Error::Request(text) => text@,
            Error::Io(text) => text@,
            Error::Serialize(text) => text@,
            Error::Deserialize(text) => text@,
            Error::EmptyIndex => "empty"@,
            Error::NotFound(package) => package@ + "`"@,
        }
    }

    /// A line for human readers: the heading, then the detail.
    pub fn message(&self) -> (text: String)
        ensures
            text@ == self.heading() + self.detail(),
    {
        let mut text = String::new();
        match self {
            Error::InvalidVersion(detail) => {
                text.append("failed parsing version: ");
                text.append(detail.as_str());
            },
            Error::Request(detail) => {
                text.append("request failed: ");
                text.append(detail.as_str());
            },
            Error::Io(detail) => {
                text.append("IO error: ");
                text.append(detail.as_str());
            },
            Error::Serialize(detail) => {
                text.append("failed to serialize: ");
                text.append(detail.as_str());
            },
            Error::Deserialize(detail) => {
                text.append("failed to deserialize: ");
                text.append(detail.as_str());
            },
            Error::EmptyIndex => {
                text.append("failed to populate from index file: ");
                text.append("empty");
            },
            Error::NotFound(package) => {
                text.append("failed to find a matching release of `");
                text.append(package.as_str());
                text.append("`");
            },
        }
        assert(text@ =~= self.heading() + self.detail());
        text
    }
}

} // verus!
