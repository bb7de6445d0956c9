//! Directory enumeration helpers.

use vstd::prelude::*;
use crate::command_line::CommandLine;
use crate::directory_info::DirectoryInfo;
use crate::file_info::{FileInfo, FILE_ATTRIBUTE_DIRECTORY};
use crate::listing_totals::ListingTotals;

verus! {

/// A NUL-terminated UTF-16 name is "." or "..".
pub open spec fn is_dots_name(f: Seq<u16>) -> bool {
    f[0] == 0x2Eu16 && (f[1] == 0u16 || (f[1] == 0x2Eu16 && f[2] == 0u16))
}

/// Whether a NUL-terminated UTF-16 file name is "." or "..".  The name
/// must hold its terminator: at least one unit, two when it starts with a
/// dot and three when it starts with two dots.
pub fn is_dots(filename: &[u16]) -> (r: bool)
    requires
        filename.len() >= 1,
        filename@[0] == 0x2Eu16 ==> filename.len() >= 2,
        filename@[0] == 0x2Eu16 && filename@[1] == 0x2Eu16 ==> filename.len() >= 3,
    ensures
        r == is_dots_name(filename@),
{
    if filename[0] == 0x2E {
        if filename[1] == 0 {
            return true;
        }
        if filename[1] == 0x2E && filename[2] == 0 {
            return true;
        }
    }
    false
}

/// The entry's attributes hold every required flag and no excluded one.
pub open spec fn attrs_pass(attrs: u32, required: u32, excluded: u32) -> bool {
    (attrs & required) == required && (attrs & excluded) == 0
}

/// Bit `i` of `x` is set.
pub open spec fn has_bit(x: u32, i: u32) -> bool {
    (x & (1u32 << i)) != 0
}

/// An entry passes the `/A` filter only when it has every required
/// attribute and none of the excluded ones, flag by flag; and an entry
/// whose attributes include all required ones (`required | attrs ==
/// attrs`) and share none with the excluded ones passes.
pub proof fn lemma_attr_filter_flags(attrs: u32, required: u32, excluded: u32, i: u32)
    requires
        i < 32,
    ensures
        attrs_pass(attrs, required, excluded) ==> (has_bit(required, i) ==> has_bit(attrs, i)),
        attrs_pass(attrs, required, excluded) ==> (has_bit(excluded, i) ==> !has_bit(attrs, i)),
        (required | attrs) == attrs && (excluded & attrs) == 0 ==> attrs_pass(attrs, required, excluded),
{
    assert((attrs & required) == required ==> ((required & (1u32 << i)) != 0 ==> (attrs & (1u32 << i)) != 0)) by (bit_vector)
        requires
            i < 32,
    ;
    assert((attrs & excluded) == 0 ==> ((excluded & (1u32 << i)) != 0 ==> (attrs & (1u32 << i)) == 0)) by (bit_vector)
        requires
            i < 32,
    ;
    assert((required | attrs) == attrs && (excluded & attrs) == 0 ==> (attrs & required) == required && (attrs & excluded)
        == 0) by (bit_vector);
}

/// Whether an entry with `attrs` passes the attribute filter.
pub fn passes_attribute_filter(attrs: u32, required: u32, excluded: u32) -> (r: bool)
    ensures
        r == attrs_pass(attrs, required, excluded),
{
    (attrs & required) == required && (attrs & excluded) == 0
}

/// Width an entry takes in a wide listing: its name, and two more for a
/// directory's brackets; 0 outside wide listings.
pub open spec fn entry_width(wide: bool, name_len: usize, is_dir: bool) -> int {
    if !wide {
        0
    } else if is_dir {
        name_len + 2
    } else {
        name_len as int
    }
}

/// The counters stay within their types after adding an entry of `size`.
pub open spec fn room_for(di: &DirectoryInfo, totals: &ListingTotals, is_dir: bool, size: u64, name_len: usize) -> bool {
    &&& name_len + 2 <= usize::MAX
    &&& is_dir ==> di.subdirectory_count < u32::MAX
    &&& !is_dir ==> {
        &&& di.bytes_used + size <= u64::MAX
        &&& di.file_count < u32::MAX
        &&& totals.file_bytes + size <= u64::MAX
        &&& totals.file_count < u32::MAX
    }
}

/// Records one matching entry: a directory adds to the subdirectory count,
/// a file to the file count and byte totals and possibly the largest size;
/// in a wide listing the widest name is kept.  `name_len` is the length of
/// the entry's name in UTF-16 units.
pub fn add_match_to_list(
    entry: FileInfo,
    name_len: usize,
    di: &mut DirectoryInfo,
    totals: &mut ListingTotals,
    wide: bool,
)
    requires
        room_for(old(di), old(totals), entry.file_attributes & FILE_ATTRIBUTE_DIRECTORY != 0, entry.file_size, name_len),
    ensures
        final(di).matches@ == old(di).matches@.push(entry),
        ({
            let is_dir = entry.file_attributes & FILE_ATTRIBUTE_DIRECTORY != 0;
            &&& final(di).subdirectory_count == old(di).subdirectory_count + (if is_dir { 1int } else { 0 })
            &&& final(di).file_count == old(di).file_count + (if is_dir { 0int } else { 1 })
            &&& final(di).bytes_used == old(di).bytes_used + (if is_dir { 0int } else { entry.file_size as int })
            &&& final(di).largest_file_size == (if !is_dir && entry.file_size > old(di).largest_file_size {
                entry.file_size
            } else {
                old(di).largest_file_size
            })
            &&& final(di).largest_file_name == (if entry_width(wide, name_len, is_dir) > old(di).largest_file_name {
                entry_width(wide, name_len, is_dir) as usize
            } else {
                old(di).largest_file_name
            })
            &&& final(totals).file_count == old(totals).file_count + (if is_dir { 0int } else { 1 })
            &&& final(totals).file_bytes == old(totals).file_bytes + (if is_dir { 0int } else { entry.file_size as int })
            &&& final(totals).directory_count == old(totals).directory_count
            &&& final(totals).stream_count == old(totals).stream_count
            &&& final(totals).stream_bytes == old(totals).stream_bytes
        }),
        final(di).dir_path == old(di).dir_path,
        final(di).file_specs == old(di).file_specs,
        final(di).stream_count == old(di).stream_count,
        final(di).stream_bytes_used == old(di).stream_bytes_used,
        final(di).status == old(di).status,
        final(di).error == old(di).error,
{
    let is_dir = entry.file_attributes & FILE_ATTRIBUTE_DIRECTORY != 0;
    let width = if wide {
        if is_dir {
            name_len + 2
        } else {
            name_len
        }
    } else {
        0
    };
    if is_dir {
        di.subdirectory_count = di.subdirectory_count + 1;
    } else {
        let size = entry.file_size;
        if size > di.largest_file_size {
            di.largest_file_size = size;
        }
        di.bytes_used = di.bytes_used + size;
        di.file_count = di.file_count + 1;
        totals.file_bytes = totals.file_bytes + size;
        totals.file_count = totals.file_count + 1;
    }
    if width > di.largest_file_name {
        di.largest_file_name = width;
    }
    di.matches.push(entry);
}

/// The listing counters that collecting entries changes.
pub struct Counters {
    pub matches: Seq<FileInfo>,
    pub subdirectory_count: int,
    pub file_count: int,
    pub bytes_used: int,
    pub largest_file_size: int,
    pub largest_file_name: int,
    pub total_file_count: int,
    pub total_file_bytes: int,
}

/// The counters of a directory and the running totals.
pub open spec fn counters_of(di: &DirectoryInfo, t: &ListingTotals) -> Counters {
    Counters {
        matches: di.matches@,
        subdirectory_count: di.subdirectory_count as int,
        file_count: di.file_count as int,
        bytes_used: di.bytes_used as int,
        largest_file_size: di.largest_file_size as int,
        largest_file_name: di.largest_file_name as int,
        total_file_count: t.file_count as int,
        total_file_bytes: t.file_bytes as int,
    }
}

/// An entry is listed when it is not "." or ".." and passes the attribute
/// filter.
pub open spec fn entry_kept(f: FileInfo, required: u32, excluded: u32) -> bool {
    !(f.file_name@ == "."@ || f.file_name@ == ".."@) && attrs_pass(f.file_attributes, required, excluded)
}

/// The counters after one entry: unchanged when it is not kept, otherwise
/// as `add_match_to_list` records it.
pub open spec fn count_entry(c: Counters, e: (FileInfo, usize), required: u32, excluded: u32, wide: bool) -> Counters {
    let f = e.0;
    let is_dir = f.file_attributes & FILE_ATTRIBUTE_DIRECTORY != 0;
    let w = entry_width(wide, e.1, is_dir);
    if !entry_kept(f, required, excluded) {
        c
    } else {
        Counters {
            matches: c.matches.push(f),
            subdirectory_count: c.subdirectory_count + (if is_dir { 1int } else { 0 }),
            file_count: c.file_count + (if is_dir { 0int } else { 1 }),
            bytes_used: c.bytes_used + (if is_dir { 0int } else { f.file_size as int }),
            largest_file_size: if !is_dir && f.file_size > c.largest_file_size {
                f.file_size as int
            } else {
                c.largest_file_size
            },
            largest_file_name: if w > c.largest_file_name { w } else { c.largest_file_name },
            total_file_count: c.total_file_count + (if is_dir { 0int } else { 1 }),
            total_file_bytes: c.total_file_bytes + (if is_dir { 0int } else { f.file_size as int }),
        }
    }
}

/// The counters after the entries `es`, in order.
pub open spec fn count_entries(c: Counters, es: Seq<(FileInfo, usize)>, required: u32, excluded: u32, wide: bool) -> Counters
    decreases es.len(),
{
    if es.len() == 0 {
        c
    } else {
        count_entries(count_entry(c, es[0], required, excluded, wide), es.drop_first(), required, excluded, wide)
    }
}

/// Sum of the entries' sizes.
pub open spec fn total_size(es: Seq<(FileInfo, usize)>) -> int
    decreases es.len(),
{
    if es.len() == 0 {
        0
    } else {
        es[0].0.file_size + total_size(es.drop_first())
    }
}

/// Sizes add up to no less than zero.
proof fn lemma_total_size_nonneg(es: Seq<(FileInfo, usize)>)
    ensures
        total_size(es) >= 0,
    decreases es.len(),
{
    if es.len() > 0 {
        lemma_total_size_nonneg(es.drop_first());
    }
}

/// Collecting the entries cannot overflow a counter.
pub open spec fn collect_fits(di: &DirectoryInfo, t: &ListingTotals, es: Seq<(FileInfo, usize)>) -> bool {
    &&& di.matches@.len() + es.len() <= usize::MAX
    &&& forall|k: int| 0 <= k < es.len() ==> (#[trigger] es[k]).1 + 2 <= usize::MAX
    &&& di.subdirectory_count + es.len() <= u32::MAX
    &&& di.file_count + es.len() <= u32::MAX
    &&& t.file_count + es.len() <= u32::MAX
    &&& di.bytes_used + total_size(es) <= u64::MAX
    &&& t.file_bytes + total_size(es) <= u64::MAX
}

/// Adds, in order, the entries of a directory that are not "." or ".."
/// and pass the attribute filter of `cmd`.  Each entry comes with the
/// length of its name in UTF-16 units.
pub fn collect_entries(
    entries: Vec<(FileInfo, usize)>,
    di: &mut DirectoryInfo,
    cmd: &CommandLine,
    totals: &mut ListingTotals,
)
    requires
        collect_fits(old(di), old(totals), entries@),
    ensures
        counters_of(final(di), final(totals)) == count_entries(
            counters_of(old(di), old(totals)),
            entries@,
            cmd.attrs_required,
            cmd.attrs_excluded,
            cmd.wide_listing,
        ),
        final(totals).directory_count == old(totals).directory_count,
        final(di).dir_path == old(di).dir_path,
        final(di).file_specs == old(di).file_specs,
{
    let mut rest = entries;
    while rest.len() > 0
        invariant
            collect_fits(di, totals, rest@),
            count_entries(counters_of(di, totals), rest@, cmd.attrs_required, cmd.attrs_excluded, cmd.wide_listing)
                == count_entries(
                counters_of(old(di), old(totals)),
                entries@,
                cmd.attrs_required,
                cmd.attrs_excluded,
                cmd.wide_listing,
            ),
            totals.directory_count == old(totals).directory_count,
            di.dir_path == old(di).dir_path,
            di.file_specs == old(di).file_specs,
        decreases rest.len(),
    {
        let ghost r0 = rest@;
        let (entry, name_len) = rest.remove(0);
        assert(rest@ =~= r0.drop_first());
        assert(total_size(r0) == entry.file_size + total_size(rest@));
        assert(forall|k: int| 0 <= k < rest@.len() ==> rest@[k] == r0[k + 1]);
        proof {
            lemma_total_size_nonneg(rest@);
            assert(r0[0].1 + 2 <= usize::MAX);
        }
        let ghost c0 = counters_of(di, totals);
        if !entry.is_dot_dir() && passes_attribute_filter(entry.file_attributes, cmd.attrs_required, cmd.attrs_excluded) {
            add_match_to_list(entry, name_len, di, totals, cmd.wide_listing);
            assert(counters_of(di, totals) == count_entry(c0, r0[0], cmd.attrs_required, cmd.attrs_excluded, cmd.wide_listing));
        } else {
            assert(counters_of(di, totals) == count_entry(c0, r0[0], cmd.attrs_required, cmd.attrs_excluded, cmd.wide_listing));
        }
    }
}

} // verus!
