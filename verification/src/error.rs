//! Error kinds of the catalog and build engine.

use vstd::prelude::*;

verus! {

/// Everything that can go wrong inside the core: entry construction and
/// lookup, build lookup, option parsing, and version extraction.
/// I/O failures and external-tool failures are reported by the callers that
/// perform the I/O, not by this library.
#[derive(Debug, PartialEq)]
pub enum Error {
    /// Entry construction or lookup failed: both or neither of url and path,
    /// or no entry matched the requested name or version requirement.
    InvalidEntry { name: String, message: String },
    /// A named build does not exist on disk.
    InvalidBuild { name: String, message: String },
    /// A generator name that is none of the known generators.
    UnsupportedGenerator { generator: String },
    /// A build-type name that is none of the known build types.
    UnsupportedBuildType { build_type: String },
    /// A shell for which no integration script exists.
    UnsupportedShell { shell: String },
    /// No valid three-component version could be extracted.
    InvalidVersion { version: String },
    /// A tool whose relative path is neither given nor derivable from its name.
    UnknownToolPath { name: String },
}

} // verus!
