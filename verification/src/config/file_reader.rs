//! Reading the configuration file: its bytes are checked for a byte-order
//! mark (a UTF-8 one is dropped, a UTF-16 one refused), decoded as UTF-8
//! and split into lines.

use vstd::prelude::*;
use crate::text::{lines_of, text_lines, utf8_to_string};

verus! {

/// Byte-order mark of UTF-8 text.
pub const UTF8_BOM: [u8; 3] = [0xEF, 0xBB, 0xBF];
/// Byte-order mark of little-endian UTF-16 text.
pub const UTF16_LE_BOM: [u8; 2] = [0xFF, 0xFE];
/// Byte-order mark of big-endian UTF-16 text.
pub const UTF16_BE_BOM: [u8; 2] = [0xFE, 0xFF];

/// Message for a configuration file in UTF-16.
pub const UTF16_CONFIG_MESSAGE: &'static str = "UTF-16 encoded configuration files are not supported; save the file as UTF-8";
/// Message for a configuration file that is not valid UTF-8.
pub const INVALID_UTF8_MESSAGE: &'static str = "Invalid UTF-8 in configuration file";

/// Why the configuration file could not be used.
#[derive(Debug)]
pub enum ConfigFileError {
    /// The file does not exist; loading is silently skipped.
    NotFound,
    /// Another I/O failure (message text).
    IoError(String),
    /// Unsupported encoding: a UTF-16 byte-order mark or invalid UTF-8.
    EncodingError(String),
}

/// Outcome of reading the configuration file, as mathematical values.
pub enum ReadView {
    /// The file's lines.
    Lines(Seq<Seq<char>>),
    /// The file does not exist.
    NotFound,
    /// The file could not be read or decoded (message text).
    Failed(Seq<char>),
}

/// A read result as mathematical values.
pub open spec fn read_view(r: Result<Vec<String>, ConfigFileError>) -> ReadView {
    match r {
        Ok(lines) => ReadView::Lines(lines@.map_values(|l: String| l@)),
        Err(ConfigFileError::NotFound) => ReadView::NotFound,
        Err(ConfigFileError::IoError(m)) => ReadView::Failed(m@),
        Err(ConfigFileError::EncodingError(m)) => ReadView::Failed(m@),
    }
}

/// `b` starts with a UTF-16 byte-order mark (either byte order).
pub open spec fn has_utf16_bom(b: Seq<u8>) -> bool {
    b.len() >= 2 && ((b[0] == 0xFF && b[1] == 0xFE) || (b[0] == 0xFE && b[1] == 0xFF))
}

/// `b` starts with the UTF-8 byte-order mark.
pub open spec fn has_utf8_bom(b: Seq<u8>) -> bool {
    b.len() >= 3 && b[0] == 0xEF && b[1] == 0xBB && b[2] == 0xBF
}

/// `b` without a leading UTF-8 byte-order mark.
pub open spec fn without_bom(b: Seq<u8>) -> Seq<u8> {
    if has_utf8_bom(b) {
        b.skip(3)
    } else {
        b
    }
}

/// Whether `b` starts with a UTF-16 byte-order mark.
pub fn starts_with_utf16_bom(b: &[u8]) -> (r: bool)
    ensures
        r == has_utf16_bom(b@),
{
    b.len() >= 2 && ((b[0] == UTF16_LE_BOM[0] && b[1] == UTF16_LE_BOM[1]) || (b[0] == UTF16_BE_BOM[0] && b[1] == UTF16_BE_BOM[1]))
}

/// `b` without a leading UTF-8 byte-order mark, and whether it had one.
pub fn strip_utf8_bom(b: &[u8]) -> (r: (&[u8], bool))
    ensures
        r.0@ == without_bom(b@),
        r.1 == has_utf8_bom(b@),
{
    if b.len() >= 3 && b[0] == UTF8_BOM[0] && b[1] == UTF8_BOM[1] && b[2] == UTF8_BOM[2] {
        let rest = vstd::slice::slice_subrange(b, 3, b.len());
        assert(rest@ =~= b@.skip(3));
        (rest, true)
    } else {
        (b, false)
    }
}

/// The lines of a configuration file from its bytes.
pub fn decode_config_bytes(bytes: &[u8]) -> (r: Result<Vec<String>, ConfigFileError>)
    ensures
        has_utf16_bom(bytes@) ==> (r matches Err(ConfigFileError::EncodingError(m)) && m@ == UTF16_CONFIG_MESSAGE@),
        !has_utf16_bom(bytes@) && !vstd::utf8::valid_utf8(without_bom(bytes@)) ==> (r matches Err(
            ConfigFileError::EncodingError(m),
        ) && m@ == INVALID_UTF8_MESSAGE@),
        !has_utf16_bom(bytes@) && vstd::utf8::valid_utf8(without_bom(bytes@)) ==> (r matches Ok(lines)
            && lines@.map_values(|l: String| l@) == text_lines(vstd::utf8::decode_utf8(without_bom(bytes@)))),
{
    if starts_with_utf16_bom(bytes) {
        return Err(ConfigFileError::EncodingError(crate::text::string_from(UTF16_CONFIG_MESSAGE)));
    }
    let (body, _) = strip_utf8_bom(bytes);
    match utf8_to_string(body) {
        Some(text) => Ok(lines_of(text.as_str())),
        None => Err(ConfigFileError::EncodingError(crate::text::string_from(INVALID_UTF8_MESSAGE))),
    }
}

} // verus!
