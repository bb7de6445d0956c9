//! Cloud placeholder status of files under a sync root.

use vstd::prelude::*;
use crate::file_info::{FILE_ATTRIBUTE_OFFLINE, FILE_ATTRIBUTE_PINNED, FILE_ATTRIBUTE_RECALL_ON_DATA_ACCESS, FILE_ATTRIBUTE_RECALL_ON_OPEN};

verus! {

/// ○ cloud-only (not locally available)
pub const CIRCLE_HOLLOW: char = '\u{25CB}';
/// ◐ locally available (can be dehydrated)
pub const CIRCLE_HALF_FILLED: char = '\u{25D0}';
/// ● always locally available (pinned)
pub const CIRCLE_FILLED: char = '\u{25CF}';

/// Cloud sync status of a file.
#[derive(Debug, Clone, Copy, PartialEq, Eq)]
pub enum CloudStatus {
    /// Not a cloud file, or not under a sync root.
    NotCloud,
    /// Placeholder that is not available locally.
    CloudOnly,
    /// Available locally; can be dehydrated.
    Local,
    /// Pinned: always available locally.
    Pinned,
}

impl CloudStatus {
    /// Display symbol of this status.
    pub fn symbol(self) -> (r: char)
        ensures
            r == match self {
                CloudStatus::NotCloud => ' ',
                CloudStatus::CloudOnly => CIRCLE_HOLLOW,
                CloudStatus::Local => CIRCLE_HALF_FILLED,
                CloudStatus::Pinned => CIRCLE_FILLED,
            },
    {
        match self {
            CloudStatus::NotCloud => ' ',
            CloudStatus::CloudOnly => CIRCLE_HOLLOW,
            CloudStatus::Local => CIRCLE_HALF_FILLED,
            CloudStatus::Pinned => CIRCLE_FILLED,
        }
    }
}

/// Cloud status from a file's attributes: none outside a sync root; pinned
/// wins over everything; then any of offline / recall-on-open /
/// recall-on-data-access means cloud-only; everything else is local.
pub open spec fn cloud_status_of(file_attributes: u32, in_sync_root: bool) -> CloudStatus {
    if !in_sync_root {
        CloudStatus::NotCloud
    } else if file_attributes & FILE_ATTRIBUTE_PINNED != 0 {
        CloudStatus::Pinned
    } else if file_attributes & (FILE_ATTRIBUTE_RECALL_ON_DATA_ACCESS | FILE_ATTRIBUTE_RECALL_ON_OPEN
        | FILE_ATTRIBUTE_OFFLINE) != 0 {
        CloudStatus::CloudOnly
    } else {
        CloudStatus::Local
    }
}

/// Cloud status of a file from its attributes.
pub fn get_cloud_status(file_attributes: u32, in_sync_root: bool) -> (r: CloudStatus)
    ensures
        r == cloud_status_of(file_attributes, in_sync_root),
{
    if !in_sync_root {
        return CloudStatus::NotCloud;
    }
    if (file_attributes & FILE_ATTRIBUTE_PINNED) != 0 {
        CloudStatus::Pinned
    } else if (file_attributes & (FILE_ATTRIBUTE_RECALL_ON_DATA_ACCESS
        | FILE_ATTRIBUTE_RECALL_ON_OPEN | FILE_ATTRIBUTE_OFFLINE)) != 0 {
        CloudStatus::CloudOnly
    } else {
        CloudStatus::Local
    }
}

} // verus!
