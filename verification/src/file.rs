//! The file-access probe's user-side declaration: its configuration
//! and the decoded form of one observed file access.

use vstd::prelude::*;

use crate::metrics::Tags;
use crate::wire::{ascii_chars, dec_bytes, u64_dec_string};

verus! {

/// Watches reads and writes under the configured directories.
pub struct Files(pub FilesConfig);

/// Configuration of the file probe: the directories whose accesses are
/// recorded.
pub struct FilesConfig {
    pub monitor_dirs: Vec<String>,
}

/// One observed file access, decoded from a probe event record: the
/// task, the path walked backwards from the accessed file, and the
/// byte volumes moved.
#[derive(Debug)]
pub struct FileAccess {
    pub id: u64,
    pub process: String,
    pub path: String,
    pub ino: u64,
    pub read: usize,
    pub write: usize,
}

impl FileAccess {
    /// The tags one access contributes to its measurement: the task,
    /// the process name, the path and the inode.
    pub fn to_tags(self) -> (r: Tags)
        ensures
            r@.len() == 4,
            r@[0].0@ == "task_id"@ && r@[0].1@ == ascii_chars(dec_bytes(self.id as int)),
            r@[1].0@ == "process"@ && r@[1].1@ == self.process@,
            r@[2].0@ == "path"@ && r@[2].1@ == self.path@,
            r@[3].0@ == "ino"@ && r@[3].1@ == ascii_chars(dec_bytes(self.ino as int)),
    {
        let mut tags: Tags = Vec::new();
        tags.push(("task_id".to_owned(), u64_dec_string(self.id)));
        tags.push(("process".to_owned(), self.process));
        tags.push(("path".to_owned(), self.path));
        tags.push(("ino".to_owned(), u64_dec_string(self.ino)));
        tags
    }
}

} // verus!
