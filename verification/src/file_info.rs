//! File information records and the file-attribute display map.

use vstd::prelude::*;
use crate::text::str_eq;

verus! {

pub const FILE_ATTRIBUTE_READONLY: u32 = 0x0000_0001;
pub const FILE_ATTRIBUTE_HIDDEN: u32 = 0x0000_0002;
pub const FILE_ATTRIBUTE_SYSTEM: u32 = 0x0000_0004;
pub const FILE_ATTRIBUTE_DIRECTORY: u32 = 0x0000_0010;
pub const FILE_ATTRIBUTE_ARCHIVE: u32 = 0x0000_0020;
pub const FILE_ATTRIBUTE_TEMPORARY: u32 = 0x0000_0040;
pub const FILE_ATTRIBUTE_SPARSE_FILE: u32 = 0x0000_0200;
pub const FILE_ATTRIBUTE_REPARSE_POINT: u32 = 0x0000_0400;
pub const FILE_ATTRIBUTE_COMPRESSED: u32 = 0x0000_0800;
pub const FILE_ATTRIBUTE_OFFLINE: u32 = 0x0000_1000;
pub const FILE_ATTRIBUTE_NOT_CONTENT_INDEXED: u32 = 0x0000_2000;
pub const FILE_ATTRIBUTE_ENCRYPTED: u32 = 0x0000_4000;
pub const FILE_ATTRIBUTE_INTEGRITY_STREAM: u32 = 0x0000_8000;
pub const FILE_ATTRIBUTE_NO_SCRUB_DATA: u32 = 0x0002_0000;
pub const FILE_ATTRIBUTE_RECALL_ON_OPEN: u32 = 0x0004_0000;
pub const FILE_ATTRIBUTE_PINNED: u32 = 0x0008_0000;
pub const FILE_ATTRIBUTE_UNPINNED: u32 = 0x0010_0000;
pub const FILE_ATTRIBUTE_RECALL_ON_DATA_ACCESS: u32 = 0x0040_0000;

/// Reparse tag of a symbolic link.
pub const IO_REPARSE_TAG_SYMLINK: u32 = 0xA000_000C;
/// Reparse tag of a junction (mount point).
pub const IO_REPARSE_TAG_MOUNT_POINT: u32 = 0xA000_0003;

/// File attribute flags and their one-character display keys, in the
/// order of the attribute display column (RHSATECP0).
pub const FILE_ATTRIBUTE_MAP: [(u32, char); 9] = [
    (FILE_ATTRIBUTE_READONLY, 'R'),
    (FILE_ATTRIBUTE_HIDDEN, 'H'),
    (FILE_ATTRIBUTE_SYSTEM, 'S'),
    (FILE_ATTRIBUTE_ARCHIVE, 'A'),
    (FILE_ATTRIBUTE_TEMPORARY, 'T'),
    (FILE_ATTRIBUTE_ENCRYPTED, 'E'),
    (FILE_ATTRIBUTE_COMPRESSED, 'C'),
    (FILE_ATTRIBUTE_REPARSE_POINT, 'P'),
    (FILE_ATTRIBUTE_SPARSE_FILE, '0'),
];

/// The display map as a sequence.
pub open spec fn attribute_map_seq() -> Seq<(u32, char)> {
    seq![
        (FILE_ATTRIBUTE_READONLY, 'R'),
        (FILE_ATTRIBUTE_HIDDEN, 'H'),
        (FILE_ATTRIBUTE_SYSTEM, 'S'),
        (FILE_ATTRIBUTE_ARCHIVE, 'A'),
        (FILE_ATTRIBUTE_TEMPORARY, 'T'),
        (FILE_ATTRIBUTE_ENCRYPTED, 'E'),
        (FILE_ATTRIBUTE_COMPRESSED, 'C'),
        (FILE_ATTRIBUTE_REPARSE_POINT, 'P'),
        (FILE_ATTRIBUTE_SPARSE_FILE, '0'),
    ]
}

/// Flag whose display key is `c`, if any.
pub open spec fn flag_for_key(c: char) -> Option<u32> {
    if c == 'R' {
        Some(FILE_ATTRIBUTE_READONLY)
    } else if c == 'H' {
        Some(FILE_ATTRIBUTE_HIDDEN)
    } else if c == 'S' {
        Some(FILE_ATTRIBUTE_SYSTEM)
    } else if c == 'A' {
        Some(FILE_ATTRIBUTE_ARCHIVE)
    } else if c == 'T' {
        Some(FILE_ATTRIBUTE_TEMPORARY)
    } else if c == 'E' {
        Some(FILE_ATTRIBUTE_ENCRYPTED)
    } else if c == 'C' {
        Some(FILE_ATTRIBUTE_COMPRESSED)
    } else if c == 'P' {
        Some(FILE_ATTRIBUTE_REPARSE_POINT)
    } else if c == '0' {
        Some(FILE_ATTRIBUTE_SPARSE_FILE)
    } else {
        None
    }
}

/// The flag whose display key is `c` in the display map.
pub fn attribute_flag_for_key(c: char) -> (r: Option<u32>)
    ensures
        r == flag_for_key(c),
{
    if c == 'R' {
        Some(FILE_ATTRIBUTE_READONLY)
    } else if c == 'H' {
        Some(FILE_ATTRIBUTE_HIDDEN)
    } else if c == 'S' {
        Some(FILE_ATTRIBUTE_SYSTEM)
    } else if c == 'A' {
        Some(FILE_ATTRIBUTE_ARCHIVE)
    } else if c == 'T' {
        Some(FILE_ATTRIBUTE_TEMPORARY)
    } else if c == 'E' {
        Some(FILE_ATTRIBUTE_ENCRYPTED)
    } else if c == 'C' {
        Some(FILE_ATTRIBUTE_COMPRESSED)
    } else if c == 'P' {
        Some(FILE_ATTRIBUTE_REPARSE_POINT)
    } else if c == '0' {
        Some(FILE_ATTRIBUTE_SPARSE_FILE)
    } else {
        None
    }
}

/// A named alternate data stream of a file.
#[derive(Debug, Clone)]
pub struct StreamInfo {
    /// Stream name (e.g. ":hidden"), without the ":$DATA" suffix.
    pub name: String,
    /// Stream size in bytes.
    pub size: i64,
}

/// One directory entry.
#[derive(Debug, Clone)]
pub struct FileInfo {
    pub file_name: String,
    pub file_attributes: u32,
    pub file_size: u64,
    /// Times as 100-ns FILETIME ticks.
    pub creation_time: u64,
    pub last_write_time: u64,
    pub last_access_time: u64,
    /// Reparse tag (meaningful when the reparse-point attribute is set).
    pub reparse_tag: u32,
    pub streams: Vec<StreamInfo>,
}

impl FileInfo {
    /// Whether the directory attribute is set.
    pub fn is_directory(&self) -> (r: bool)
        ensures
            r == (self.file_attributes & FILE_ATTRIBUTE_DIRECTORY != 0),
    {
        (self.file_attributes & FILE_ATTRIBUTE_DIRECTORY) != 0
    }

    /// Whether the hidden attribute is set.
    pub fn is_hidden(&self) -> (r: bool)
        ensures
            r == (self.file_attributes & FILE_ATTRIBUTE_HIDDEN != 0),
    {
        (self.file_attributes & FILE_ATTRIBUTE_HIDDEN) != 0
    }

    /// Whether the name is "." or "..".
    pub fn is_dot_dir(&self) -> (r: bool)
        ensures
            r == (self.file_name@ == "."@ || self.file_name@ == ".."@),
    {
        str_eq(self.file_name.as_str(), ".") || str_eq(self.file_name.as_str(), "..")
    }
}

} // verus!
