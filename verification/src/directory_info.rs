//! Per-directory listing results.

use vstd::prelude::*;
use crate::file_info::FileInfo;
use crate::listing_totals::ListingTotals;

verus! {

/// Progress of a directory in a concurrent listing.
#[derive(Debug, Clone, Copy, PartialEq, Eq, Structural)]
pub enum DirectoryStatus {
    Waiting,
    InProgress,
    Done,
    Error,
}

/// The entries of one directory that matched, with their counts.
#[derive(Debug)]
pub struct DirectoryInfo {
    pub matches: Vec<FileInfo>,
    pub dir_path: String,
    pub file_specs: Vec<String>,
    /// Size of the largest file.
    pub largest_file_size: u64,
    /// Widest name in wide listings (directories count two more).
    pub largest_file_name: usize,
    pub file_count: u32,
    pub subdirectory_count: u32,
    pub stream_count: u32,
    pub bytes_used: u64,
    pub stream_bytes_used: u64,
    pub status: DirectoryStatus,
    pub error: Option<String>,
}

/// A directory with no results yet.
pub open spec fn empty_info(d: DirectoryInfo, dir_path: Seq<char>, specs: Seq<Seq<char>>) -> bool {
    &&& d.matches@.len() == 0
    &&& d.dir_path@ == dir_path
    &&& d.file_specs@.map_values(|s: String| s@) == specs
    &&& d.largest_file_size == 0
    &&& d.largest_file_name == 0
    &&& d.file_count == 0
    &&& d.subdirectory_count == 0
    &&& d.stream_count == 0
    &&& d.bytes_used == 0
    &&& d.stream_bytes_used == 0
    &&& d.status == DirectoryStatus::Waiting
    &&& d.error is None
}

impl DirectoryInfo {
    /// A directory listed with one file specification.
    pub fn new(dir_path: String, file_spec: String) -> (r: Self)
        ensures
            empty_info(r, dir_path@, seq![file_spec@]),
    {
        let ghost p = dir_path@;
        let ghost f = file_spec@;
        let mut specs: Vec<String> = Vec::new();
        specs.push(file_spec);
        let r = DirectoryInfo::new_multi(dir_path, specs);
        assert(seq![f] =~= r.file_specs@.map_values(|s: String| s@));
        r
    }

    /// A directory listed with several file specifications.
    pub fn new_multi(dir_path: String, file_specs: Vec<String>) -> (r: Self)
        ensures
            empty_info(r, dir_path@, file_specs@.map_values(|s: String| s@)),
    {
        DirectoryInfo {
            matches: Vec::new(),
            dir_path,
            file_specs,
            largest_file_size: 0,
            largest_file_name: 0,
            file_count: 0,
            subdirectory_count: 0,
            stream_count: 0,
            bytes_used: 0,
            stream_bytes_used: 0,
            status: DirectoryStatus::Waiting,
            error: None,
        }
    }
}

/// Adds a directory's counts to the running totals.
pub fn accumulate_totals(di: &DirectoryInfo, totals: &mut ListingTotals)
    requires
        old(totals).file_count + di.file_count <= u32::MAX,
        old(totals).file_bytes + di.bytes_used <= u64::MAX,
        old(totals).stream_count + di.stream_count <= u32::MAX,
        old(totals).stream_bytes + di.stream_bytes_used <= u64::MAX,
        old(totals).directory_count + di.subdirectory_count <= u32::MAX,
    ensures
        final(totals).file_count == old(totals).file_count + di.file_count,
        final(totals).file_bytes == old(totals).file_bytes + di.bytes_used,
        final(totals).stream_count == old(totals).stream_count + di.stream_count,
        final(totals).stream_bytes == old(totals).stream_bytes + di.stream_bytes_used,
        final(totals).directory_count == old(totals).directory_count + di.subdirectory_count,
{
    totals.file_count = totals.file_count + di.file_count;
    totals.file_bytes = totals.file_bytes + di.bytes_used;
    totals.stream_count = totals.stream_count + di.stream_count;
    totals.stream_bytes = totals.stream_bytes + di.stream_bytes_used;
    totals.directory_count = totals.directory_count + di.subdirectory_count;
}

} // verus!
