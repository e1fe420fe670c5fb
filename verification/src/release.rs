//! One line of an index file: a release and what it depends on.

use std::collections::BTreeMap;
use vstd::prelude::*;
use vstd::string::*;
use crate::version::{Version, VersionReq};

verus! {

/// The schema version of a record that does not state one.
pub fn one() -> (v: u32)
    ensures
        v == 1,
{
    1
}

/// A mapping of features' names to the features and dependencies they enable
pub type Features = BTreeMap<String, Vec<String>>;

/// A dependency of a release
#[derive(Debug, Clone)]
pub struct Dependency {
    /// The name of the dependency
    pub name: String,
    /// The requirement on the dependency's version
    pub req: VersionReq,
    /// List of features enabled for this dependency
    pub features: Vec<String>,
    /// Whether this dependency is optional or not
    pub optional: bool,
    /// Whether default features are enabled for this dependency or not
    pub default_features: bool,
    /// Target platform for the dependency
    pub target: Option<String>,
    /// The dependency kind (dev, build, or normal)
    pub kind: Option<String>,
    /// The URL of the index where this dependency is from. Defaults to current registry
    pub registry: Option<String>,
    /// If the dependency is renamed, the name of the package actually depended upon
    pub package: Option<String>,
}

impl Dependency {
    /// The name under which the dependency is looked up: the package it
    /// renames, if it renames one, else its own name.
    pub open spec fn lookup_name(self) -> Seq<char> {
        match self.package {
            Some(package) => package@,
            None => self.name@,
        }
    }

    /// The name under which the dependency is looked up.
    pub fn effective_name(&self) -> (name: &str)
        ensures
            name@ == self.lookup_name(),
    {
        match &self.package {
            Some(package) => package.as_str(),
            None => self.name.as_str(),
        }
    }
}

/// An entry for a given release version of a package
///
/// A package index file contains one line for each release of a package, from oldest to latest.
#[derive(Debug, Clone)]
pub struct Release {
    /// The name of the package
    pub name: String,
    /// The specific version of the release
    pub vers: Version,
    /// List of direct dependencies of this package
    pub deps: Vec<Dependency>,
    /// The SHA256 checksum of the release's .crate
    pub cksum: String,
    /// A mapping of features' names to the features/dependencies they enable
    pub features: Features,
    /// Whether or not this release has been yanked
    pub yanked: bool,
    /// The `links` value from this package's manifest
    pub links: Option<String>,
    /// Value indicating the schema version for this entry
    pub v: u32,
    /// Features with the extended syntax (namespaced features, weak dependencies)
    pub features2: Option<Features>,
    /// The minimum supported rust version requirement without operator
    pub rust_version: Option<VersionReq>,
}

impl Release {
    /// Whether this release carries the given name and a version that the
    /// requirement admits.
    pub open spec fn answers(self, name: Seq<char>, requirement: Seq<char>) -> bool {
        self.name@ == name && crate::version::satisfies(requirement, self.vers@)
    }

    /// Whether this release carries the given name and a version that the
    /// requirement admits.
    pub fn is_answer_to(&self, name: &str, requirement: &VersionReq) -> (yes: bool)
        ensures
            yes == self.answers(name@, requirement@),
    {
        let wanted = name.to_owned();
        self.name == wanted && requirement.matches(&self.vers)
    }
}

} // verus!
