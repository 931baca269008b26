use vstd::prelude::*;

verus! {

/// The failures the renamer can report.
///
/// The planning functions produce only `Usage` and `NotADirectory`; `Io`
/// stands for a filesystem operation that failed in the surrounding program,
/// which aborts the batch on the first such error.
#[derive(Clone, Copy, Debug, PartialEq, Eq, Structural)]
pub enum RenameError {
    /// The required directory path argument was absent.
    Usage,
    /// The given path does not name a directory.
    NotADirectory,
    /// A filesystem operation failed.
    Io,
}

} // verus!
