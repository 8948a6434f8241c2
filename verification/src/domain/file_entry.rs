//! Entries of the file browser and the outcome of file operations.

use vstd::prelude::*;
use crate::paths::opt_view;

verus! {

/// What a directory entry is.
#[derive(Clone, Copy, Debug, PartialEq, Eq, Structural)]
pub enum EntryKind {
    Directory,
    File,
    Symlink,
    Other,
}

/// One entry of a directory listing.
#[derive(Debug)]
pub struct FileEntry {
    pub name: String,
    pub path: String,
    pub kind: EntryKind,
    pub size_bytes: Option<u64>,
    pub modified_at: Option<u64>,
    pub extension: Option<String>,
    pub hidden: bool,
}

/// The mathematical content of a [`FileEntry`].
pub struct EntryModel {
    pub name: Seq<char>,
    pub path: Seq<char>,
    pub kind: EntryKind,
    pub size_bytes: Option<u64>,
    pub modified_at: Option<u64>,
    pub extension: Option<Seq<char>>,
    pub hidden: bool,
}

impl View for FileEntry {
    type V = EntryModel;

    open spec fn view(&self) -> EntryModel {
        EntryModel {
            name: self.name@,
            path: self.path@,
            kind: self.kind,
            size_bytes: self.size_bytes,
            modified_at: self.modified_at,
            extension: opt_view(self.extension),
            hidden: self.hidden,
        }
    }
}

pub open spec fn entry_views(v: Seq<FileEntry>) -> Seq<EntryModel> {
    v.map_values(|e: FileEntry| e@)
}

/// A directory, its parent and its entries.
#[derive(Debug)]
pub struct DirectoryListing {
    pub path: String,
    pub parent: Option<String>,
    pub entries: Vec<FileEntry>,
}

/// The paths a file operation created, moved or removed.
#[derive(Debug)]
pub struct FileOperationResult {
    pub affected_paths: Vec<String>,
}

} // verus!
