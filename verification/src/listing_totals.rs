//! Aggregate counts for directory listings.

use vstd::prelude::*;

verus! {

/// File, directory and stream counts and sizes.
#[derive(Debug, Clone)]
pub struct ListingTotals {
    pub file_count: u32,
    pub directory_count: u32,
    pub file_bytes: u64,
    pub stream_count: u32,
    pub stream_bytes: u64,
}

impl Default for ListingTotals {
    fn default() -> (r: Self)
        ensures
            r.file_count == 0 && r.directory_count == 0 && r.file_bytes == 0 && r.stream_count
                == 0 && r.stream_bytes == 0,
    {
        ListingTotals::new()
    }
}

impl ListingTotals {
    /// All counts zero.
    pub fn new() -> (r: Self)
        ensures
            r.file_count == 0 && r.directory_count == 0 && r.file_bytes == 0 && r.stream_count
                == 0 && r.stream_bytes == 0,
    {
        ListingTotals {
            file_count: 0,
            directory_count: 0,
            file_bytes: 0,
            stream_count: 0,
            stream_bytes: 0,
        }
    }

    /// Adds another set of totals to this one, field by field.
    pub fn add(&mut self, other: &ListingTotals)
        requires
            old(self).file_count + other.file_count <= u32::MAX,
            old(self).directory_count + other.directory_count <= u32::MAX,
            old(self).file_bytes + other.file_bytes <= u64::MAX,
            old(self).stream_count + other.stream_count <= u32::MAX,
            old(self).stream_bytes + other.stream_bytes <= u64::MAX,
        ensures
            final(self).file_count == old(self).file_count + other.file_count,
            final(self).directory_count == old(self).directory_count + other.directory_count,
            final(self).file_bytes == old(self).file_bytes + other.file_bytes,
            final(self).stream_count == old(self).stream_count + other.stream_count,
            final(self).stream_bytes == old(self).stream_bytes + other.stream_bytes,
    {
        self.file_count = self.file_count + other.file_count;
        self.directory_count = self.directory_count + other.directory_count;
        self.file_bytes = self.file_bytes + other.file_bytes;
        self.stream_count = self.stream_count + other.stream_count;
        self.stream_bytes = self.stream_bytes + other.stream_bytes;
    }
}

} // verus!
