//! Resolution of module import specifiers to relative file paths.
//!
//! A [`FileResolver`] holds an ordered list of search paths and an ordered
//! list of file name patterns. From a base location and a requested name it
//! derives the ordered list of files that could satisfy the request; the
//! first of them that is a regular file is the resolution.
//!
//! The library never touches the disk. A [`Search`] names one path at a
//! time, the host reports whether a regular file is there, and the search
//! answers with the next thing to do.

pub mod paths;
pub mod resolver;
pub mod search;
pub mod laws;

pub use resolver::{Config, FileResolver, Platform, ResolveError};
pub use search::{Action, Search, SearchView};
