//! A compilation host for a document-typesetting engine: a virtual file
//! table with lazy text decoding, a package fetcher with retry and atomic
//! unpack, a lazily loaded font catalog, and a bridge from a dynamic host
//! value into the document's closed value algebra.

use vstd::prelude::*;

pub mod files;
pub mod fonts;
pub mod host;
pub mod package;
pub mod text;
pub mod vpath;
pub mod value;

verus! {

/// Why fetching a package failed.
#[derive(Debug, Clone, PartialEq, Eq)]
pub enum PackageFailure {
    /// The download failed after the single built-in retry.
    NetworkFailed(String),
    /// The archive could not be decompressed or unpacked.
    MalformedArchive(String),
}

/// Why resolving a file or its text failed.
#[derive(Debug, Clone, PartialEq, Eq)]
pub enum FileFailure {
    /// The file could not be read at the resolved path.
    NotFound,
    /// The virtual path escapes the permitted root, or the file is otherwise
    /// off limits.
    AccessDenied,
    /// The file's bytes are not valid UTF-8.
    InvalidUtf8,
    /// Reading the file required a package that could not be fetched.
    Package(PackageFailure),
    /// Reading the file failed for another reason, described in the message.
    Other(String),
}

} // verus!
