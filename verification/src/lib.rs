//! Lookup of package metadata in a registry index: index paths, index
//! records, version selection and the walk over a release's dependencies.
//!
//! Network transfer and JSON decoding are left to the caller; everything that
//! decides what is fetched and what is kept lives here.

pub mod cli;
pub mod error;
pub mod index_path;
pub mod package;
pub mod query;
pub mod release;
pub mod resolver;
pub mod version;

pub use cli::{Cli, Format, Options, Type};
pub use error::Error;
pub use index_path::get_index_path;
pub use package::{index_lines, Package};
pub use query::{Query, CRATES_IO_INDEX_URL};
pub use release::{one, Dependency, Features, Release};
pub use resolver::{Depth, Lookup, Resolver};
pub use version::{Version, VersionReq};
