//! The library's error type.

use vstd::prelude::*;

use crate::permissions::DifficultyLevel;

verus! {

/// Failures the catalogue reports to its callers.
#[derive(Debug)]
pub enum KissaError {
    /// The repository at `path` could not be opened or read.
    Git { path: String, message: String },
    /// The store failed.
    Index(String),
    /// The configuration is malformed or unreadable.
    Config(String),
    /// A directory could not be read during a scan.
    Scan { path: String, message: String },
    /// No entry matches the given name or path.
    RepoNotFound(String),
    /// The operation needs a higher level than the one in force.
    PermissionDenied { operation: String, required: DifficultyLevel, current: DifficultyLevel },
    /// The path lies outside every scan root.
    OutsideScanRoots(String),
}


impl DifficultyLevel {
    /// The variant name of a level.
    pub open spec fn spec_variant_name(self) -> Seq<char> {
        match self {
            DifficultyLevel::Readonly => "Readonly"@,
            DifficultyLevel::Fetch => "Fetch"@,
            DifficultyLevel::Commit => "Commit"@,
            DifficultyLevel::Force => "Force"@,
            DifficultyLevel::Unsafe => "Unsafe"@,
        }
    }

    /// The level's variant name, as written in error messages.
    pub fn variant_name(&self) -> (r: &'static str)
        ensures
            r@ == self.spec_variant_name(),
    {
        match self {
            DifficultyLevel::Readonly => "Readonly",
            DifficultyLevel::Fetch => "Fetch",
            DifficultyLevel::Commit => "Commit",
            DifficultyLevel::Force => "Force",
            DifficultyLevel::Unsafe => "Unsafe",
        }
    }
}

impl KissaError {
    /// The human-readable message of an error.
    pub open spec fn spec_message(&self) -> Seq<char> {
        match self {
            KissaError::Git { path, message } => "git error at "@ + path@ + ": "@ + message@,
            KissaError::Index(m) => "index error: "@ + m@,
            KissaError::Config(m) => "config error: "@ + m@,
            KissaError::Scan { path, message } => "scan error at "@ + path@ + ": "@ + message@,
            KissaError::RepoNotFound(m) => "repo not found: "@ + m@,
            KissaError::PermissionDenied { operation, required, current } => "operation blocked: "@
                + operation@ + " requires difficulty '"@ + required.spec_variant_name()
                + "', current is '"@ + current.spec_variant_name() + "'"@,
            KissaError::OutsideScanRoots(p) => "path not in scan roots: "@ + p@,
        }
    }

    /// The human-readable message of this error.
    pub fn message(&self) -> (r: String)
        ensures
            r@ == self.spec_message(),
    {
        match self {
            KissaError::Git { path, message } => {
                let mut out = String::from_str("git error at ");
                out.append(path);
                out.append(": ");
                out.append(message);
                out
            },
            KissaError::Index(m) => {
                let mut out = String::from_str("index error: ");
                out.append(m);
                out
            },
            KissaError::Config(m) => {
                let mut out = String::from_str("config error: ");
                out.append(m);
                out
            },
            KissaError::Scan { path, message } => {
                let mut out = String::from_str("scan error at ");
                out.append(path);
                out.append(": ");
                out.append(message);
                out
            },
            KissaError::RepoNotFound(m) => {
                let mut out = String::from_str("repo not found: ");
                out.append(m);
                out
            },
            KissaError::PermissionDenied { operation, required, current } => {
                let mut out = String::from_str("operation blocked: ");
                out.append(operation);
                out.append(" requires difficulty '");
                out.append(required.variant_name());
                out.append("', current is '");
                out.append(current.variant_name());
                out.append("'");
                out
            },
            KissaError::OutsideScanRoots(p) => {
                let mut out = String::from_str("path not in scan roots: ");
                out.append(p);
                out
            },
        }
    }
}

} // verus!
