//! What the command line asks for.

use vstd::prelude::*;
use crate::resolver::Depth;

verus! {

/// The commands
#[derive(Debug, Clone)]
pub enum Cli {
    /// Look packages up in a registry index
    Lookup(Options),
}

/// What to print of each package
#[derive(Debug, Clone, Copy, PartialEq, Eq, Structural)]
pub enum Type {
    /// Show dependencies for each package
    Deps,
    /// Show features for each package
    Features,
    /// Print output in JSON format
    Json,
}

/// How to print it
#[derive(Debug, Clone, Copy, PartialEq, Eq, Structural)]
pub enum Format {
    /// Default format type: space separated with package name prefix
    Default,
    /// Pretty print output
    Pretty,
    /// No package name prefix when printing dependencies or features
    NoPrefix,
    /// A format for quickly adding all features to a cargo package:
    /// the features, without prefix, separated by commas
    CargoAddAll,
}

/// The options of a lookup
#[derive(Debug, Clone)]
pub struct Options {
    /// Packages to query
    pub packages: Vec<String>,
    /// Output type
    pub kind: Option<Type>,
    /// Output format
    pub format: Format,
    /// Use a custom index URL
    pub index_url: Option<String>,
    /// Resolve the dependencies of the queried packages too
    pub recursive: bool,
    /// Maximum depth when recursively querying dependencies
    pub max_depth: Option<usize>,
    /// Delimiter when printing features or dependencies
    pub delim: String,
    /// Ignore missing packages
    pub ignore_missing: bool,
}

impl Options {
    /// What is printed of each release: under `CargoAddAll` the features,
    /// whatever else was asked; otherwise what was asked.
    pub open spec fn shown(self) -> Option<Type> {
        if self.format == Format::CargoAddAll {
            Some(Type::Features)
        } else {
            self.kind
        }
    }

    /// What stands between two names of a list: under `CargoAddAll` a comma,
    /// otherwise the delimiter asked for.
    pub open spec fn separator(self) -> Seq<char> {
        if self.format == Format::CargoAddAll {
            seq![',']
        } else {
            self.delim@
        }
    }

    /// The depth at which each root is resolved.
    pub fn depth(&self) -> (depth: Depth)
        ensures
            depth == Depth::under_limit(self.max_depth),
    {
        Depth::limit(self.max_depth)
    }

    /// Whether all releases are printed as one JSON list.
    pub fn prints_json_list(&self) -> (yes: bool)
        ensures
            yes == (self.kind == Some(Type::Json)),
    {
        match self.kind {
            Some(Type::Json) => true,
            _ => false,
        }
    }

    /// Whether each line starts with the package's name: not under
    /// `CargoAddAll` nor `NoPrefix`.
    pub fn uses_prefix(&self) -> (yes: bool)
        ensures
            yes == (self.format != Format::CargoAddAll && self.format != Format::NoPrefix),
    {
        match self.format {
            Format::CargoAddAll => false,
            Format::NoPrefix => false,
            _ => true,
        }
    }

    /// What is printed of each release.
    pub fn listed(&self) -> (kind: Option<Type>)
        ensures
            kind == self.shown(),
    {
        match self.format {
            Format::CargoAddAll => Some(Type::Features),
            _ => self.kind,
        }
    }

    /// What stands between two names of a list.
    pub fn delimiter(&self) -> (delim: &str)
        ensures
            delim@ == self.separator(),
    {
        match self.format {
            Format::CargoAddAll => {
                proof {
                    reveal_strlit(",");
                }
                assert(","@ =~= seq![',']);
                ","
            },
            _ => self.delim.as_str(),
        }
    }
}

} // verus!
