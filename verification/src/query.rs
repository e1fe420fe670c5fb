//! A query for a package: its name, an optional version requirement, and
//! the index to ask.

use vstd::prelude::*;
use vstd::string::*;
use crate::error::Error;
use crate::index_path::{get_index_path, index_path_of};
use crate::package::{is_newest_match, no_match, Package};
use crate::release::Release;
use crate::version::{requirement_syntax, VersionReq};

verus! {

/// The default crates.io index URL
pub const CRATES_IO_INDEX_URL: &'static str = "https://index.crates.io";

/// What a `Query` is, for contracts.
pub struct QueryView {
    /// The package's name
    pub name: Seq<char>,
    /// The version requirement as written, if there is one
    pub version_req: Option<Seq<char>>,
    /// The index to ask in place of the default one
    pub custom_index: Option<Seq<char>>,
}

/// Whether `text[at]` is the first `@` of the text.
pub open spec fn is_first_at(text: Seq<char>, at: int) -> bool {
    &&& 0 <= at < text.len()
    &&& text[at] == '@'
    &&& forall|before: int| 0 <= before < at ==> text[before] != '@'
}

/// Whether the text holds an `@` with something behind the first one.
pub open spec fn states_requirement(text: Seq<char>) -> bool {
    exists|at: int| is_first_at(text, at) && at + 1 < text.len()
}

/// Where the first `@` of the text stands, if it has one.
pub open spec fn first_at(text: Seq<char>) -> int {
    choose|at: int| is_first_at(text, at)
}

/// What a query text asks for: `None` where the text after the first `@` is
/// no version requirement.
///
/// Without an `@`, or with nothing behind the first one, the whole text is
/// the name. Otherwise the name stands before the first `@` and the
/// requirement behind it.
pub open spec fn parsed(text: Seq<char>) -> Option<QueryView> {
    if states_requirement(text) {
        let requirement = text.subrange(first_at(text) + 1, text.len() as int);
        if requirement_syntax(requirement) {
            Some(
                QueryView {
                    name: text.subrange(0, first_at(text)),
                    version_req: Some(requirement),
                    custom_index: None,
                },
            )
        } else {
            None
        }
    } else {
        Some(QueryView { name: text, version_req: None, custom_index: None })
    }
}

/// The address of a package's index file: the index, a slash, and the
/// package's index path.
pub open spec fn index_file_url(index: Seq<char>, name: Seq<char>) -> Seq<char> {
    index + seq!['/'] + index_path_of(name)
}

/// A query for a specific package based on the package's name, an optional
/// version requirement, in an optional custom index. By default,
/// [`CRATES_IO_INDEX_URL`] will be used as the index
#[derive(Debug, Clone)]
pub struct Query {
    name: String,
    version_req: Option<VersionReq>,
    custom_index: Option<String>,
}

impl View for Query {
    type V = QueryView;

    closed spec fn view(&self) -> QueryView {
        QueryView {
            name: self.name@,
            version_req: match self.version_req {
                Some(requirement) => Some(requirement@),
                None => None,
            },
            custom_index: match self.custom_index {
                Some(index) => Some(index@),
                None => None,
            },
        }
    }
}

impl core::str::FromStr for Query {
    type Err = Error;

    /// Read a query of the form `name` or `name@requirement`, as the
    /// method of the same name on `Query` does.
    fn from_str(text: &str) -> (r: Result<Self, Self::Err>)
        ensures
            match r {
                Ok(query) => parsed(text@) == Some(query@),
                Err(error) => parsed(text@) is None && error is InvalidVersion,
            },
    {
        Query::from_str(text)
    }
}

impl Query {
    /// Read a query of the form `name` or `name@requirement`.
    ///
    /// The text is cut at its first `@`. Nothing is trimmed. Fails with
    /// `InvalidVersion` exactly where a requirement is written and is
    /// malformed.
    pub fn from_str(text: &str) -> (r: Result<Query, Error>)
        ensures
            match r {
                Ok(query) => parsed(text@) == Some(query@),
                Err(error) => parsed(text@) is None && error is InvalidVersion,
            },
    {
        let n: usize = text.unicode_len();
        let mut at: usize = 0;
        while at < n && text.get_char(at) != '@'
            invariant
                at <= n,
                n == text@.len(),
                forall|before: int| 0 <= before < at ==> text@[before] != '@',
            decreases n - at,
        {
            at += 1;
        }
        if at < n && at + 1 < n {
            assert(is_first_at(text@, at as int));
            assert(first_at(text@) == at);
            let name = text.substring_char(0, at);
            let requirement = text.substring_char(at + 1, n);
            match VersionReq::parse(requirement) {
                Ok(version_req) => Ok(
                    Query { name: name.to_owned(), version_req: Some(version_req), custom_index: None },
                ),
                Err(error) => Err(error),
            }
        } else {
            assert(!states_requirement(text@));
            Ok(Query { name: text.to_owned(), version_req: None, custom_index: None })
        }
    }

    /// Use a custom index for this query
    pub fn with_index(self, custom_index: &str) -> (query: Query)
        ensures
            query@ == (QueryView { custom_index: Some(custom_index@), ..self@ }),
    {
        Query {
            name: self.name,
            version_req: self.version_req,
            custom_index: Some(custom_index.to_owned()),
        }
    }

    /// The name of the package asked for
    pub fn name(&self) -> (name: &str)
        ensures
            name@ == self@.name,
    {
        self.name.as_str()
    }

    /// The version requirement, if one was written
    pub fn version_req(&self) -> (requirement: Option<&VersionReq>)
        ensures
            match requirement {
                Some(requirement) => self@.version_req == Some(requirement@),
                None => self@.version_req is None,
            },
    {
        match &self.version_req {
            Some(requirement) => Some(requirement),
            None => None,
        }
    }

    /// The index that this query asks: the custom one if there is one, else
    /// the default.
    pub open spec fn index_of(query: QueryView) -> Seq<char> {
        match query.custom_index {
            Some(index) => index,
            None => CRATES_IO_INDEX_URL@,
        }
    }

    /// The index that this query asks
    pub fn index(&self) -> (index: &str)
        ensures
            index@ == Self::index_of(self@),
    {
        match &self.custom_index {
            Some(index) => index.as_str(),
            None => CRATES_IO_INDEX_URL,
        }
    }

    /// The address of the index file that answers this query. The name is
    /// lower-cased on the way, so `Serde` and `serde` ask for the same file.
    pub fn url(&self) -> (url: String)
        requires
            self@.name.len() > 0,
        ensures
            url@ == index_file_url(Self::index_of(self@), self@.name),
    {
        let mut url = String::new();
        url.append(self.index());
        proof {
            reveal_strlit("/");
        }
        url.append("/");
        let path = get_index_path(self.name.as_str());
        url.append(path.as_str());
        assert(url@ =~= index_file_url(Self::index_of(self@), self@.name));
        url
    }

    /// Pick the release that this query asks for out of the package found:
    /// with a version requirement the newest release that it admits, without
    /// one the latest release. That no release matches is an answer, not an
    /// error.
    pub fn select(&self, package: Package) -> (found: Option<Release>)
        ensures
            match self@.version_req {
                Some(requirement) => match found {
                    Some(release) => exists|at: int|
                        is_newest_match(package@.releases, requirement, at) && release
                            == package@.releases[at],
                    None => no_match(package@.releases, requirement),
                },
                None => package@.releases.len() > 0 && found == Some(package@.releases.last()),
            },
    {
        match &self.version_req {
            Some(version_req) => package.into_version(version_req),
            None => package.into_latest(),
        }
    }
}

/// A name without `@`, an `@` and a requirement read back as that name and
/// that requirement: the text under which a dependency is looked up asks
/// for exactly the dependency.
pub proof fn lemma_name_at_requirement_reads_back(name: Seq<char>, requirement: Seq<char>)
    requires
        forall|i: int| 0 <= i < name.len() ==> name[i] != '@',
        requirement.len() > 0,
        requirement_syntax(requirement),
    ensures
        parsed(name + seq!['@'] + requirement) == Some(
            QueryView { name, version_req: Some(requirement), custom_index: None },
        ),
{
    let text = name + seq!['@'] + requirement;
    let at = name.len() as int;
    assert(is_first_at(text, at));
    assert(at + 1 < text.len());
    assert(first_at(text) == at);
    assert(text.subrange(0, at) =~= name);
    assert(text.subrange(at + 1, text.len() as int) =~= requirement);
}

/// A text without `@`, and a text that ends in its only `@`, ask for the
/// whole text as the name and state no requirement.
pub proof fn lemma_without_requirement_is_a_name(text: Seq<char>)
    requires
        forall|i: int| 0 <= i < text.len() - 1 ==> text[i] != '@',
    ensures
        parsed(text) == Some(QueryView { name: text, version_req: None, custom_index: None }),
{
    assert(!states_requirement(text));
}

} // verus!
