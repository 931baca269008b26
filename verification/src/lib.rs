//! A directory-scoped bulk file renamer.
//!
//! The library plans the renaming of the regular files found directly under
//! one directory: entries are filtered to regular files, sorted by their
//! modification time, and each is assigned a new name made of a zero-padded
//! ordinal, a separator prefix, and the original name. Reading the directory,
//! asking the user for confirmation, and performing the renames are left to
//! the surrounding program; the planning logic here is verified.

pub mod config;
pub mod confirm;
pub mod entry;
pub mod errors;
pub mod naming;
pub mod pipeline;
pub mod sort;
