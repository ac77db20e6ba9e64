//! The entries of an archive, as the engine sees them.

use vstd::prelude::*;
use crate::category::{classify, category_of, names_folder, Category};
use crate::text::chars_of;

verus! {

/// What an entry is.
#[derive(Clone, Copy, Debug, PartialEq, Eq, Structural)]
pub enum EntryKind {
    File,
    Directory,
}

/// One item of an archive: a snapshot of what the archive records of it.
#[derive(Debug)]
pub struct ArchiveEntry {
    /// The path of the entry inside the archive, separated by `/`.
    pub name: String,
    pub kind: EntryKind,
    /// The size in bytes that the archive declares.
    pub size: u64,
}

/// An entry as plain values.
pub struct EntryView {
    pub name: Seq<char>,
    pub kind: EntryKind,
    pub size: u64,
}

impl View for ArchiveEntry {
    type V = EntryView;

    open spec fn view(&self) -> EntryView {
        EntryView { name: self.name@, kind: self.kind, size: self.size }
    }
}

impl Clone for ArchiveEntry {
    fn clone(&self) -> (copy: Self)
        ensures
            copy@ == self@,
    {
        ArchiveEntry { name: self.name.clone(), kind: self.kind, size: self.size }
    }
}

/// The views of a sequence of entries, in order.
pub open spec fn entry_views(entries: Seq<ArchiveEntry>) -> Seq<EntryView> {
    entries.map_values(|entry: ArchiveEntry| entry@)
}

/// The kind of a ZIP entry: a directory exactly when its name ends with `/`.
pub open spec fn zip_kind(name: Seq<char>) -> EntryKind {
    if names_folder(name) {
        EntryKind::Directory
    } else {
        EntryKind::File
    }
}

/// The type flag that a TAR header gives a directory: the digit `5`.
pub const TAR_DIRECTORY_FLAG: u8 = 53;

/// The kind of a TAR entry: a directory exactly when the type flag of its
/// header is the one for directories.
pub open spec fn tar_kind(type_flag: u8) -> EntryKind {
    if type_flag == TAR_DIRECTORY_FLAG {
        EntryKind::Directory
    } else {
        EntryKind::File
    }
}

/// Calls `tar::EntryType::new` on the type flag of a header and asks the entry
/// type `is_dir`. The contract claims what the source of both shows: only the
/// flag `5` makes the directory type, and only that type is a directory.
#[verifier::external_body]
fn tar_flag_is_dir(type_flag: u8) -> (is_dir: bool)
    ensures
        is_dir == (type_flag == TAR_DIRECTORY_FLAG),
{
    tar::EntryType::new(type_flag).is_dir()
}

impl ArchiveEntry {
    /// An entry of a ZIP archive, from the name and the uncompressed size that
    /// the central directory records.
    pub fn from_zip(name: String, size: u64) -> (entry: ArchiveEntry)
        ensures
            entry@ == (EntryView { name: name@, kind: zip_kind(name@), size }),
    {
        let chars = chars_of(name.as_str());
        let n = chars.len();
        let kind = if n > 0 && chars[n - 1] == '/' {
            EntryKind::Directory
        } else {
            EntryKind::File
        };
        ArchiveEntry { name, kind, size }
    }

    /// An entry of a TAR archive, from the path, the type flag and the size
    /// that its header records.
    pub fn from_tar(name: String, type_flag: u8, size: u64) -> (entry: ArchiveEntry)
        ensures
            entry@ == (EntryView { name: name@, kind: tar_kind(type_flag), size }),
    {
        let kind = if tar_flag_is_dir(type_flag) {
            EntryKind::Directory
        } else {
            EntryKind::File
        };
        ArchiveEntry { name, kind, size }
    }

    /// The content category of the entry, derived from its name.
    pub fn category(&self) -> (category: Category)
        ensures
            category == category_of(self@.name),
    {
        classify(self.name.as_str())
    }

    /// Tells whether the entry is a directory.
    pub fn is_directory(&self) -> (directory: bool)
        ensures
            directory == (self@.kind == EntryKind::Directory),
    {
        match self.kind {
            EntryKind::Directory => true,
            EntryKind::File => false,
        }
    }
}

} // verus!
