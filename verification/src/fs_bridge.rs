//! Files for scripts.
use vstd::prelude::*;

verus! {

/// A file system that scripts have access to.
pub trait FsBridge {
    /// Read a file as a UTF-8 string.
    fn read_file(&self, path: &str) -> Result<String, String>;

    /// Write a UTF-8 string to a file, which is created or overwritten.
    fn write_file(&mut self, path: &str, content: &str) -> Result<(), String>;

    /// Append a UTF-8 string to a file.
    fn append_file(&mut self, path: &str, content: &str) -> Result<(), String>;

    /// Whether a file or directory exists.
    fn path_exists(&self, path: &str) -> bool;

    /// The names of the entries of a directory.
    fn list_dir(&self, path: &str) -> Result<Vec<String>, String>;

    /// Delete a file.
    fn delete_file(&mut self, path: &str) -> Result<(), String>;

    /// Create a directory and its parents.
    fn mkdir(&mut self, path: &str) -> Result<(), String>;
}

} // verus!
