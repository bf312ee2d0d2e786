use vstd::prelude::*;
use crate::lang::BenchmarkLanguage;

verus! {

/// Why an operation on a benchmark failed.
#[derive(Debug)]
pub enum Error {
    /// A directory could not be listed.
    ReadDir { path: String, reason: String },
    /// A path operation failed: reading an entry, taking an extension as text,
    /// or changing permissions.
    PathAccess { path: String, action: String },
    /// The language was asked for but is not among the benchmark's languages.
    UnknownLanguage { action: String, lang: BenchmarkLanguage },
    /// The compiler exited with a failure; its two output streams, as they were.
    Compile { name: String, lang: BenchmarkLanguage, stdout: String, stderr: String },
    /// The benchmark binary could not be started or exited with a failure.
    Run { name: String, lang: BenchmarkLanguage, reason: String },
    /// Copying or moving a file, or creating a directory, failed.
    FileAccess { path: String, action: String, reason: String },
    /// The timing tool could not be started or exited with a failure.
    Hyperfine { name: String, reason: String },
}

impl Error {
    /// Whether this is a failed path operation on the path `p`.
    pub open spec fn path_access_at(self, p: Seq<char>) -> bool {
        match self {
            Error::PathAccess { path, .. } => path@ == p,
            _ => false,
        }
    }
}

} // verus!
