use vstd::prelude::*;

verus! {

/// One entry found directly under the target directory, as the surrounding
/// program reports it: its filename, its last-modified time (nanoseconds
/// since an arbitrary fixed origin; only the order matters here), and
/// whether the entry is a regular file.
pub struct FileEntry {
    /// The filename segment of the entry, without its directory.
    pub name: String,
    /// The last-modified timestamp; greater means modified later.
    pub modified: u64,
    /// Whether the entry is a regular file (not a directory or special file).
    pub is_regular: bool,
}

impl Clone for FileEntry {
    /// Copies the entry unchanged.
    fn clone(&self) -> (res: Self)
        ensures
            res == *self,
    {
        FileEntry {
            name: self.name.clone(),
            modified: self.modified,
            is_regular: self.is_regular,
        }
    }
}

/// The planned renaming of one file: the position it takes in the sorted
/// order, the name it has now, and the name it is to receive.
pub struct RenamePlan {
    /// The 1-based position of the file after sorting by modification time.
    pub ordinal: usize,
    /// The filename the file has before the rename.
    pub original_name: String,
    /// The filename the file is to receive.
    pub new_name: String,
}

} // verus!
