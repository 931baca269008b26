use vstd::prelude::*;
use vstd::string::StringExecFns;

use crate::errors::RenameError;

verus! {

/// What one run of the renamer is asked to do: the directory to operate on
/// and the separator placed between the ordinal and the original filename.
/// Built once from the command line and immutable afterwards.
pub struct Config {
    /// The path of the directory whose files are renamed.
    pub path: String,
    /// The separator between ordinal and original name; `None` means the
    /// default separator `-`.
    pub prefix: Option<String>,
}

/// The separator a configuration stands for: the given prefix, or `-` when
/// none was given.
pub open spec fn spec_effective_prefix(prefix: Option<String>) -> Seq<char> {
    match prefix {
        Some(p) => p@,
        None => "-"@,
    }
}

impl Config {
    /// The separator to place between the ordinal and the original filename.
    pub fn effective_prefix(&self) -> (r: String)
        ensures
            r@ == spec_effective_prefix(self.prefix),
    {
        match &self.prefix {
            Some(p) => p.clone(),
            None => String::from_str("-"),
        }
    }
}

/// Builds the configuration from the values read off the command line.
/// The path argument is required: without it the run fails with
/// `RenameError::Usage` before any filesystem access; the prefix is
/// optional and kept as given.
pub fn get_args(path: Option<String>, prefix: Option<String>) -> (r: Result<
    Config,
    RenameError,
>)
    ensures
        path is None ==> (r matches Err(e) && e == RenameError::Usage),
        path matches Some(p) ==> (r matches Ok(c) && c.path == p && c.prefix == prefix),
{
    match path {
        None => Err(RenameError::Usage),
        Some(p) => Ok(Config { path: p, prefix }),
    }
}

} // verus!
