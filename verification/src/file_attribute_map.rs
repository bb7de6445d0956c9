//! Attribute precedence used when resolving colors and icons.

use vstd::prelude::*;
use crate::file_info::{FILE_ATTRIBUTE_ARCHIVE, FILE_ATTRIBUTE_COMPRESSED, FILE_ATTRIBUTE_ENCRYPTED, FILE_ATTRIBUTE_HIDDEN, FILE_ATTRIBUTE_READONLY, FILE_ATTRIBUTE_REPARSE_POINT, FILE_ATTRIBUTE_SPARSE_FILE, FILE_ATTRIBUTE_SYSTEM, FILE_ATTRIBUTE_TEMPORARY};

verus! {

/// Attribute precedence for icon and color resolution, highest first
/// (PSHERC0TA).  It holds the same nine attributes as the display map, in a
/// different order.
pub const ATTRIBUTE_PRECEDENCE: [(u32, char); 9] = [
    (FILE_ATTRIBUTE_REPARSE_POINT, 'P'),
    (FILE_ATTRIBUTE_SYSTEM, 'S'),
    (FILE_ATTRIBUTE_HIDDEN, 'H'),
    (FILE_ATTRIBUTE_ENCRYPTED, 'E'),
    (FILE_ATTRIBUTE_READONLY, 'R'),
    (FILE_ATTRIBUTE_COMPRESSED, 'C'),
    (FILE_ATTRIBUTE_SPARSE_FILE, '0'),
    (FILE_ATTRIBUTE_TEMPORARY, 'T'),
    (FILE_ATTRIBUTE_ARCHIVE, 'A'),
];

/// The precedence list as a sequence of flags, highest first.
pub open spec fn precedence_flags() -> Seq<u32> {
    seq![
        FILE_ATTRIBUTE_REPARSE_POINT,
        FILE_ATTRIBUTE_SYSTEM,
        FILE_ATTRIBUTE_HIDDEN,
        FILE_ATTRIBUTE_ENCRYPTED,
        FILE_ATTRIBUTE_READONLY,
        FILE_ATTRIBUTE_COMPRESSED,
        FILE_ATTRIBUTE_SPARSE_FILE,
        FILE_ATTRIBUTE_TEMPORARY,
        FILE_ATTRIBUTE_ARCHIVE,
    ]
}

} // verus!
