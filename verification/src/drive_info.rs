//! Volume information of the drive being listed.

use vstd::prelude::*;
use crate::text::{chars_of, eq_ic, eq_ic_str};

verus! {

pub const DRIVE_UNKNOWN: u32 = 0;
pub const DRIVE_NO_ROOT_DIR: u32 = 1;
pub const DRIVE_REMOVABLE: u32 = 2;
pub const DRIVE_FIXED: u32 = 3;
pub const DRIVE_REMOTE: u32 = 4;
pub const DRIVE_CDROM: u32 = 5;
pub const DRIVE_RAMDISK: u32 = 6;

/// Description of each drive type, indexed by the type.
pub const VOLUME_DESCRIPTIONS: [&'static str; 7] = [
    "an unknown type",
    "an unknown type",
    "a removable disk",
    "a hard drive",
    "a network drive",
    "a CD/DVD",
    "a RAM disk",
];

/// The drive of a listed directory.
#[derive(Debug)]
pub struct DriveInfo {
    pub unc_path: String,
    pub root_path: String,
    pub volume_name: String,
    pub file_system_name: String,
    pub volume_type: u32,
    pub is_unc_path: bool,
    pub remote_name: String,
}

/// The description of a drive type; types beyond the table are unknown.
pub open spec fn description_of(volume_type: u32) -> Seq<char> {
    if volume_type < 7 {
        VOLUME_DESCRIPTIONS@[volume_type as int]@
    } else {
        "an unknown type"@
    }
}

/// The root of a path that starts with a drive letter, such as "C:\".
pub open spec fn drive_root(path: Seq<char>) -> Option<Seq<char>> {
    if path.len() >= 2 && path[1] == ':' && (('a' <= path[0] && path[0] <= 'z') || ('A' <= path[0] && path[0] <= 'Z')) {
        Some(seq![path[0], ':', '\\'])
    } else {
        None
    }
}

impl DriveInfo {
    /// Text such as "a hard drive" for the drive's type.
    pub fn volume_description(&self) -> (r: &'static str)
        ensures
            r@ == description_of(self.volume_type),
    {
        if self.volume_type < 7 {
            VOLUME_DESCRIPTIONS[self.volume_type as usize]
        } else {
            "an unknown type"
        }
    }

    /// Whether the file system is NTFS (ignoring ASCII case).
    pub fn is_ntfs(&self) -> (r: bool)
        ensures
            r == eq_ic(self.file_system_name@, "NTFS"@),
    {
        let v = chars_of(self.file_system_name.as_str());
        assert(v@.subrange(0, v@.len() as int) =~= v@);
        eq_ic_str(&v, 0, v.len(), "NTFS")
    }

    /// Whether the file system is ReFS (ignoring ASCII case).
    pub fn is_refs(&self) -> (r: bool)
        ensures
            r == eq_ic(self.file_system_name@, "ReFS"@),
    {
        let v = chars_of(self.file_system_name.as_str());
        assert(v@.subrange(0, v@.len() as int) =~= v@);
        eq_ic_str(&v, 0, v.len(), "ReFS")
    }
}

/// The root of `path` when it starts with a drive letter; otherwise the
/// path is taken as a network (UNC) path.
pub fn drive_root_of(path: &str) -> (r: Option<String>)
    ensures
        r matches Some(s) ==> drive_root(path@) == Some(s@),
        r is None ==> drive_root(path@) is None,
{
    let v = chars_of(path);
    if v.len() >= 2 && v[1] == ':' && (('a' <= v[0] && v[0] <= 'z') || ('A' <= v[0] && v[0] <= 'Z')) {
        let mut s = String::new();
        crate::text::push_char(&mut s, v[0]);
        crate::text::push_char(&mut s, ':');
        crate::text::push_char(&mut s, '\\');
        assert(s@ =~= seq![v@[0], ':', '\\']);
        Some(s)
    } else {
        None
    }
}

} // verus!
