//! Parsing of override entries (from the `RCDIR` environment variable and
//! from configuration-file lines) and their application to a configuration.
//!
//! An entry is one of:
//! - a switch name (`W`, `S-`, `Owner`, `Tree`, ...), case-insensitive;
//! - `Depth=N`, `TreeIndent=N` or `Size=Auto|Bytes`;
//! - `key = color[,icon]` where the key is `.ext`, `dir:name`, `attr:X` or
//!   a one-character display-item key, the color is `Fore [on Back]` and the
//!   icon is empty (no icon), one glyph, or `U+XXXX`.
//! Problems are recorded as errors of the pass in progress; a bad entry
//! changes nothing else, except that a bad icon still lets the color apply.

use vstd::prelude::*;
use crate::color::{color_value, color_value_range};
use crate::command_line::SizeFormat;
use crate::environment_provider::EnvironmentProvider;
use crate::file_info::{attribute_flag_for_key, flag_for_key};
use crate::text::{slice_vec, byte_offset, byte_offset_of, chars_of, eq_ic, eq_ic_str, find, find_ch, find_char, find_seq, lower_range, lower_seq, lemma_find_from_spec, starts_with, trim, trim_range, upper_char, to_upper_char, utf8_len, utf8_len_range, lemma_utf8_len_prefix};
use super::{
    attr_env_key, attr_for_env_key, attr_index, Attribute, AttributeSource, Config, ConfigView, ErrorInfo,
    ErrorView, FileAttrStyle, RCDIR_ENV_VAR_NAME, errors_view, env_pass_view, load_config_file_view,
};
use super::file_reader::{read_view, ConfigFileError, ReadView};

verus! {

// ───────────────────────────── specification ──────────────────────────────

/// An error with no file path and line 0.
pub open spec fn err(message: Seq<char>, entry: Seq<char>, invalid: Seq<char>, offset: nat) -> ErrorView {
    ErrorView { message, entry, invalid_text: invalid, offset, path: Seq::empty(), line: 0 }
}

/// Records an error in the result of the pass in progress.
pub open spec fn push_error(m: ConfigView, e: ErrorView) -> ConfigView {
    if m.current_source == AttributeSource::ConfigFile {
        ConfigView { file_errors: m.file_errors.push(e), ..m }
    } else {
        ConfigView { env_errors: m.env_errors.push(e), ..m }
    }
}

/// Switch named by an entry: the field position (see `ConfigView::switches`)
/// and the value set; names are matched case-insensitively, a trailing `-`
/// turns the switch off.
pub open spec fn switch_for(entry: Seq<char>) -> Option<(int, bool)> {
    if eq_ic(entry, "s"@) {
        Some((2int, true))
    } else if eq_ic(entry, "s-"@) {
        Some((2int, false))
    } else if eq_ic(entry, "w"@) {
        Some((0int, true))
    } else if eq_ic(entry, "w-"@) {
        Some((0int, false))
    } else if eq_ic(entry, "b"@) {
        Some((1int, true))
    } else if eq_ic(entry, "b-"@) {
        Some((1int, false))
    } else if eq_ic(entry, "p"@) {
        Some((3int, true))
    } else if eq_ic(entry, "p-"@) {
        Some((3int, false))
    } else if eq_ic(entry, "m"@) {
        Some((4int, true))
    } else if eq_ic(entry, "m-"@) {
        Some((4int, false))
    } else if eq_ic(entry, "owner"@) {
        Some((5int, true))
    } else if eq_ic(entry, "streams"@) {
        Some((6int, true))
    } else if eq_ic(entry, "icons"@) {
        Some((7int, true))
    } else if eq_ic(entry, "icons-"@) {
        Some((7int, false))
    } else if eq_ic(entry, "tree"@) {
        Some((8int, true))
    } else if eq_ic(entry, "tree-"@) {
        Some((8int, false))
    } else {
        None
    }
}

/// Sets a switch and records the source of the pass in progress.
pub open spec fn apply_switch(m: ConfigView, field: int, value: bool) -> ConfigView {
    ConfigView {
        switches: m.switches.update(field, Some(value)),
        switch_sources: m.switch_sources.update(field, m.current_source),
        ..m
    }
}

/// `key = value` split at the first `=`, both sides trimmed; `None` when
/// there is no `=` or either side is empty.
pub open spec fn key_value(entry: Seq<char>) -> Option<(Seq<char>, Seq<char>)> {
    match find_char(entry, '=') {
        None => None,
        Some(eq) => {
            let key = trim(entry.take(eq));
            let value = trim(entry.skip(eq + 1));
            if key.len() == 0 || value.len() == 0 {
                None
            } else {
                Some((key, value))
            }
        },
    }
}

/// Whether every character is an ASCII decimal digit.
pub open spec fn all_digits(s: Seq<char>) -> bool {
    forall|i: int| 0 <= i < s.len() ==> '0' <= #[trigger] s[i] <= '9'
}

/// Value of a sequence of decimal digits.
pub open spec fn digits_value(s: Seq<char>) -> int
    decreases s.len(),
{
    if s.len() == 0 {
        0
    } else {
        digits_value(s.drop_last()) * 10 + (s.last() as int - '0' as int)
    }
}

/// `str::parse::<i32>`: an optional sign, then at least one digit, and a
/// value within `i32`.
#[verifier::opaque]
pub open spec fn parse_i32(s: Seq<char>) -> Option<i32> {
    let neg = s.len() > 0 && s[0] == '-';
    let body = if s.len() > 0 && (s[0] == '-' || s[0] == '+') {
        s.skip(1)
    } else {
        s
    };
    let v = if neg {
        -digits_value(body)
    } else {
        digits_value(body)
    };
    if body.len() == 0 || !all_digits(body) || v < i32::MIN || v > i32::MAX {
        None
    } else {
        Some(v as i32)
    }
}

/// Value of an ASCII hexadecimal digit.
pub open spec fn hex_digit_value(c: char) -> Option<int> {
    if '0' <= c <= '9' {
        Some(c as int - '0' as int)
    } else if 'a' <= c <= 'f' {
        Some(c as int - 'a' as int + 10)
    } else if 'A' <= c <= 'F' {
        Some(c as int - 'A' as int + 10)
    } else {
        None
    }
}

/// Value of a sequence of hexadecimal digits; `None` if any is not one.
pub open spec fn hex_value(s: Seq<char>) -> Option<int>
    decreases s.len(),
{
    if s.len() == 0 {
        Some(0)
    } else {
        match (hex_value(s.drop_last()), hex_digit_value(s.last())) {
            (Some(a), Some(d)) => Some(a * 16 + d),
            _ => None,
        }
    }
}

/// `u32::from_str_radix(s, 16)` for inputs of at most six bytes: an
/// optional `+`, then at least one hexadecimal digit.
pub open spec fn parse_hex(s: Seq<char>) -> Option<int> {
    let body = if s.len() > 1 && s[0] == '+' {
        s.skip(1)
    } else {
        s
    };
    if body.len() == 0 {
        None
    } else {
        hex_value(body)
    }
}

/// Result of parsing an icon specification: the glyph and whether the icon
/// is suppressed, or an error message.  The text is trimmed first; empty
/// means suppressed, one character is that glyph, anything else must be
/// `U+` (or `u+`) followed by 4-6 bytes of hexadecimal digits naming a
/// code point in U+0001..U+10FFFF outside the surrogate range.
pub open spec fn icon_parse(spec: Seq<char>) -> Result<(char, bool), Seq<char>> {
    let t = trim(spec);
    if t.len() == 0 {
        Ok(('\0', true))
    } else if t.len() == 1 {
        Ok((t[0], false))
    } else if !(starts_with(t, "U+"@) || starts_with(t, "u+"@)) {
        Err("Invalid icon: expected single glyph or U+XXXX"@)
    } else if utf8_len(t.skip(2)) < 4 || utf8_len(t.skip(2)) > 6 {
        Err("Invalid icon: U+ requires 4-6 hex digits"@)
    } else {
        match parse_hex(t.skip(2)) {
            Some(cp) => if 1 <= cp <= 0x10FFFF && !(0xD800 <= cp <= 0xDFFF) {
                Ok((cp as char, false))
            } else {
                Err("Invalid icon: code point out of range (U+0001..U+10FFFF)"@)
            },
            None => Err("Invalid icon: code point out of range (U+0001..U+10FFFF)"@),
        }
    }
}

/// Result of parsing `Fore [on Back]`: the attribute word, or the error
/// message and the offending text.
pub open spec fn color_parse(value: Seq<char>) -> Result<u16, (Seq<char>, Seq<char>)> {
    let (fore_str, back_str) = match find(lower_seq(value), " on "@) {
        Some(pos) => (trim(value.take(pos)), Some(trim(value.skip(pos + 4)))),
        None => (trim(value), None),
    };
    match color_value(fore_str, false) {
        None => Err(("Invalid foreground color"@, fore_str)),
        Some(fore) => {
            let back_res: Result<u16, (Seq<char>, Seq<char>)> = match back_str {
                Some(bs) => if bs.len() > 0 {
                    match color_value(bs, true) {
                        Some(b) => Ok(b),
                        None => Err(("Invalid background color"@, bs)),
                    }
                } else {
                    Ok(0u16)
                },
                None => Ok(0u16),
            };
            match back_res {
                Err(e) => Err(e),
                Ok(back) => if back != 0 && fore as int == back as int / 16 {
                    Err(("Foreground and background colors are the same"@, value))
                } else {
                    Ok(fore | back)
                },
            }
        },
    }
}

/// Kinds of override keys.
pub enum KeyType {
    Extension,
    WellKnownDir,
    FileAttribute,
    DisplayAttr,
    Invalid,
}

/// Whether `c` is an ASCII character.
pub open spec fn is_ascii_char(c: char) -> bool {
    (c as u32) < 128
}

/// Kind of an override key: `.ext`; `dir:` followed by a name; `attr:`
/// followed by one ASCII character; one ASCII character; anything else is
/// invalid.  Prefixes are matched case-insensitively.
pub open spec fn classify(key: Seq<char>) -> KeyType {
    if key.len() > 0 && key[0] == '.' {
        KeyType::Extension
    } else if key.len() >= 5 && eq_ic(key.take(4), "dir:"@) {
        KeyType::WellKnownDir
    } else if key.len() == 6 && is_ascii_char(key[5]) && eq_ic(key.take(5), "attr:"@) {
        KeyType::FileAttribute
    } else if key.len() == 1 && is_ascii_char(key[0]) {
        KeyType::DisplayAttr
    } else {
        KeyType::Invalid
    }
}

/// Icon value stored for a parsed icon: '\0' when suppressed.
pub open spec fn glyph(icon: (char, bool)) -> char {
    if icon.1 {
        '\0'
    } else {
        icon.0
    }
}

/// Extension color override under the lowercased key.
pub open spec fn ext_color(m: ConfigView, key: Seq<char>, color: u16) -> ConfigView {
    ConfigView {
        extension_colors: m.extension_colors.insert(lower_seq(key), color),
        extension_sources: m.extension_sources.insert(lower_seq(key), m.current_source),
        ..m
    }
}

/// Extension icon override: the first environment value for a key wins,
/// later ones are reported as duplicates.
pub open spec fn ext_icon(m: ConfigView, key: Seq<char>, icon: (char, bool)) -> ConfigView {
    let lk = lower_seq(key);
    if m.extension_icon_sources.contains_key(lk) && m.extension_icon_sources[lk]
        == AttributeSource::Environment {
        push_error(m, err("Duplicate extension icon override (first value wins)"@, Seq::empty(), lk, 0))
    } else {
        ConfigView {
            extension_icons: m.extension_icons.insert(lk, glyph(icon)),
            extension_icon_sources: m.extension_icon_sources.insert(lk, m.current_source),
            ..m
        }
    }
}

/// Well-known directory icon override for `dir:name` (name lowercased);
/// the first environment value for a name wins.
pub open spec fn dir_icon(m: ConfigView, key: Seq<char>, icon: (char, bool)) -> ConfigView {
    let lk = lower_seq(key.skip(4));
    if m.well_known_dir_icon_sources.contains_key(lk) && m.well_known_dir_icon_sources[lk]
        == AttributeSource::Environment {
        push_error(
            m,
            err("Duplicate well-known dir icon override (first value wins)"@, Seq::empty(), lk, 0),
        )
    } else {
        ConfigView {
            well_known_dir_icons: m.well_known_dir_icons.insert(lk, glyph(icon)),
            well_known_dir_icon_sources: m.well_known_dir_icon_sources.insert(lk, m.current_source),
            ..m
        }
    }
}

/// File-attribute color override for `attr:X`.
pub open spec fn attr_color(m: ConfigView, key: Seq<char>, color: u16, entry: Seq<char>) -> ConfigView {
    let c = upper_char(key[5]);
    match flag_for_key(c) {
        Some(flag) => ConfigView {
            file_attr_colors: m.file_attr_colors.insert(
                flag,
                FileAttrStyle { attr: color, source: m.current_source },
            ),
            ..m
        },
        None => push_error(
            m,
            err(
                "Invalid file attribute character (expected R, H, S, A, T, E, C, P or 0)"@,
                entry,
                seq![c],
                byte_offset_of(entry, key) + 5,
            ),
        ),
    }
}

/// File-attribute icon override for `attr:X`; unknown characters are
/// ignored (the color part reports them).
pub open spec fn attr_icon(m: ConfigView, key: Seq<char>, icon: (char, bool)) -> ConfigView {
    match flag_for_key(upper_char(key[5])) {
        Some(flag) => ConfigView { file_attr_icons: m.file_attr_icons.insert(flag, glyph(icon)), ..m },
        None => m,
    }
}

/// Display-item color override for a one-character key.
pub open spec fn display_color(m: ConfigView, key: Seq<char>, color: u16, entry: Seq<char>) -> ConfigView {
    match attr_for_env_key(upper_char(key[0])) {
        Some(a) => ConfigView {
            attributes: m.attributes.update(attr_index(a), color),
            attribute_sources: m.attribute_sources.update(attr_index(a), m.current_source),
            ..m
        },
        None => push_error(
            m,
            err(
                "Invalid display attribute character (valid: D,T,A,-,S,R,I,H,E,F,O)"@,
                entry,
                seq![key[0]],
                0,
            ),
        ),
    }
}

/// Applies a parsed color and icon to the target named by the key: the
/// color first, then the icon.
pub open spec fn apply_key(m: ConfigView, key: Seq<char>, color: Option<u16>, icon: Option<(char, bool)>, entry: Seq<char>) -> ConfigView {
    match classify(key) {
        KeyType::Extension => {
            let m1 = match color {
                Some(c) => ext_color(m, key, c),
                None => m,
            };
            match icon {
                Some(i) => ext_icon(m1, key, i),
                None => m1,
            }
        },
        KeyType::WellKnownDir => match icon {
            Some(i) => dir_icon(m, key, i),
            None => m,
        },
        KeyType::FileAttribute => {
            let m1 = match color {
                Some(c) => attr_color(m, key, c, entry),
                None => m,
            };
            match icon {
                Some(i) => attr_icon(m1, key, i),
                None => m1,
            }
        },
        KeyType::DisplayAttr => match color {
            Some(c) => display_color(m, key, c, entry),
            None => m,
        },
        KeyType::Invalid => push_error(
            m,
            err(
                "Invalid key (expected single character, .extension, dir:name, or attr:x)"@,
                entry,
                key,
                byte_offset_of(entry, key),
            ),
        ),
    }
}

/// `key = color[,icon]`: the value is split at its first comma; a bad color
/// rejects the entry, a bad icon is reported and only the icon is dropped.
pub open spec fn apply_color_icon(m: ConfigView, entry: Seq<char>, key: Seq<char>, value: Seq<char>) -> ConfigView {
    let (color_view, icon_view) = match find_char(value, ',') {
        Some(c) => (trim(value.take(c)), Some(value.skip(c + 1))),
        None => (value, None),
    };
    let color_res: Result<Option<u16>, (Seq<char>, Seq<char>)> = if color_view.len() > 0 {
        match color_parse(color_view) {
            Ok(c) => Ok(Some(c)),
            Err(e) => Err(e),
        }
    } else {
        Ok(None)
    };
    match color_res {
        Err((msg, bad)) => push_error(m, err(msg, entry, bad, byte_offset_of(entry, bad))),
        Ok(color) => {
            let (m1, icon) = match icon_view {
                Some(iv) => match icon_parse(iv) {
                    Ok(i) => (m, Some(i)),
                    Err(msg) => (
                        push_error(
                            m,
                            err(msg, entry, trim(iv), byte_offset_of(entry, trim(iv))),
                        ),
                        None,
                    ),
                },
                None => (m, None),
            };
            apply_key(m1, key, color, icon, entry)
        },
    }
}

/// `Depth=N` (N a positive integer), `TreeIndent=N` (1..8) and
/// `Size=Auto|Bytes` (case-insensitive).
pub open spec fn apply_parameter(m: ConfigView, entry: Seq<char>, key: Seq<char>, value: Seq<char>) -> ConfigView {
    if eq_ic(key, "depth"@) {
        match parse_i32(value) {
            Some(n) => if n > 0 {
                ConfigView { max_depth: Some(n), max_depth_source: m.current_source, ..m }
            } else {
                push_error(
                    m,
                    err(
                        "Invalid depth value (expected a positive integer)"@,
                        entry,
                        value,
                        byte_offset_of(entry, value),
                    ),
                )
            },
            None => push_error(
                m,
                err(
                    "Invalid depth value (expected a positive integer)"@,
                    entry,
                    value,
                    byte_offset_of(entry, value),
                ),
            ),
        }
    } else if eq_ic(key, "treeindent"@) {
        match parse_i32(value) {
            Some(n) => if 1 <= n <= 8 {
                ConfigView { tree_indent: Some(n), tree_indent_source: m.current_source, ..m }
            } else {
                push_error(
                    m,
                    err(
                        "Invalid tree indent value (expected 1-8)"@,
                        entry,
                        value,
                        byte_offset_of(entry, value),
                    ),
                )
            },
            None => push_error(
                m,
                err(
                    "Invalid tree indent value (expected 1-8)"@,
                    entry,
                    value,
                    byte_offset_of(entry, value),
                ),
            ),
        }
    } else if eq_ic(value, "auto"@) {
        ConfigView { size_format: Some(SizeFormat::Auto), size_format_source: m.current_source, ..m }
    } else if eq_ic(value, "bytes"@) {
        ConfigView { size_format: Some(SizeFormat::Bytes), size_format_source: m.current_source, ..m }
    } else {
        push_error(
            m,
            err(
                "Invalid size format (expected Auto or Bytes)"@,
                entry,
                value,
                byte_offset_of(entry, value),
            ),
        )
    }
}

/// Whether a key names one of the parameters `Depth`, `TreeIndent`, `Size`.
pub open spec fn is_parameter_key(key: Seq<char>) -> bool {
    eq_ic(key, "depth"@) || eq_ic(key, "treeindent"@) || eq_ic(key, "size"@)
}

/// Effect of one (trimmed, non-empty) override entry.
pub open spec fn apply_entry(m: ConfigView, entry: Seq<char>) -> ConfigView {
    if starts_with(entry, "/"@) || starts_with(entry, "-"@) {
        let n: int = if starts_with(entry, "--"@) {
            2
        } else {
            1
        };
        push_error(
            m,
            err("Switch prefixes (/, -, --) are not allowed in env var"@, entry, entry.take(n), 0),
        )
    } else {
        match switch_for(entry) {
            Some((field, value)) => apply_switch(m, field, value),
            None => match key_value(entry) {
                None => push_error(
                    m,
                    err("Invalid entry format (expected key = value)"@, entry, entry, 0),
                ),
                Some((key, value)) => if is_parameter_key(key) {
                    apply_parameter(m, entry, key, value)
                } else {
                    apply_color_icon(m, entry, key, value)
                },
            },
        }
    }
}

/// One `;`-separated segment: trimmed, and skipped when empty.
pub open spec fn apply_segment(m: ConfigView, seg: Seq<char>) -> ConfigView {
    if trim(seg).len() == 0 {
        m
    } else {
        apply_entry(m, trim(seg))
    }
}

/// All `;`-separated segments of `s`, in order.
pub open spec fn apply_segments(m: ConfigView, s: Seq<char>) -> ConfigView
    decreases s.len(),
{
    match find_char(s, ';') {
        Some(i) => {
            if 0 <= i < s.len() {
                apply_segments(apply_segment(m, s.take(i)), s.skip(i + 1))
            } else {
                m
            }
        },
        None => apply_segment(m, s),
    }
}

/// Entry of a configuration-file line: trimmed; blank lines and comment
/// lines give none; text from the first `#` on is a comment.
pub open spec fn line_entry(line: Seq<char>) -> Option<Seq<char>> {
    let t = trim(line);
    if t.len() == 0 || t[0] == '#' {
        None
    } else {
        match find_char(t, '#') {
            Some(h) => {
                let b = trim(t.take(h));
                if b.len() == 0 {
                    None
                } else {
                    Some(b)
                }
            },
            None => Some(t),
        }
    }
}

/// Errors added by a step, tagged with the file path and a line number.
pub open spec fn tag_new_errors(before: ConfigView, after: ConfigView, path: Seq<char>, line: nat) -> ConfigView {
    ConfigView {
        file_errors: before.file_errors + after.file_errors.skip(before.file_errors.len() as int).map_values(
            |e: ErrorView| ErrorView { path: path, line: line, ..e },
        ),
        ..after
    }
}

/// All lines of a configuration file, in order; errors carry the path and
/// the 1-based line number.
pub open spec fn apply_lines(m: ConfigView, lines: Seq<Seq<char>>, path: Seq<char>) -> ConfigView
    decreases lines.len(),
{
    if lines.len() == 0 {
        m
    } else {
        let m0 = apply_lines(m, lines.drop_last(), path);
        match line_entry(lines.last()) {
            None => m0,
            Some(e) => tag_new_errors(m0, apply_entry(m0, e), path, lines.len()),
        }
    }
}

/// Path of the configuration file in the user profile directory
/// `user_profile`.
pub fn config_file_path(user_profile: &str) -> (r: String)
    ensures
        r@ == file_path_for(user_profile@),
{
    crate::text::concat(user_profile, "\\.rcdirconfig")
}

/// Path of the configuration file in a user profile directory.
pub open spec fn file_path_for(user_profile: Seq<char>) -> Seq<char> {
    user_profile + "\\.rcdirconfig"@
}

// ───────────────────────────── trusted std call ───────────────────────────

/// `char::from_u32`: the character with the given scalar value, if it is a
/// Unicode scalar value (at most U+10FFFF and not a surrogate).
#[verifier::external_body]
fn char_from_u32(v: u32) -> (r: Option<char>)
    ensures
        r is Some <==> (v <= 0x10FFFF && !(0xD800 <= v <= 0xDFFF)),
        r matches Some(c) ==> c as u32 == v && c == (v as int) as char,
{
    char::from_u32(v)
}

// ───────────────────────────── parsing helpers ────────────────────────────

/// Digit values are never negative, and prefixes of a digit string never
/// have a larger value.
pub proof fn lemma_digits_value_monotone(s: Seq<char>, k: int)
    requires
        all_digits(s),
        0 <= k <= s.len(),
    ensures
        0 <= digits_value(s.take(k)) <= digits_value(s),
    decreases s.len(),
{
    if s.len() > 0 {
        assert(all_digits(s.drop_last()));
        if k == s.len() {
            assert(s.take(k) =~= s);
            lemma_digits_value_monotone(s.drop_last(), k - 1);
            assert(s.drop_last().take(k - 1) =~= s.drop_last());
        } else {
            lemma_digits_value_monotone(s.drop_last(), k);
            assert(s.drop_last().take(k) =~= s.take(k));
            lemma_digits_value_monotone(s.drop_last(), s.len() - 1);
            assert(s.drop_last().take(s.len() - 1) =~= s.drop_last());
        }
    } else {
        assert(s.take(k) =~= s);
    }
}

/// `str::parse::<i32>` on `v`.
pub fn parse_i32_chars(v: &Vec<char>) -> (r: Option<i32>)
    ensures
        r == parse_i32(v@),
{
    reveal(parse_i32);
    let n = v.len();
    let mut start: usize = 0;
    let neg = n > 0 && v[0] == '-';
    if n > 0 && (v[0] == '-' || v[0] == '+') {
        start = 1;
    }
    let ghost body = if n > 0 && (v@[0] == '-' || v@[0] == '+') {
        v@.skip(1)
    } else {
        v@
    };
    assert(body =~= v@.subrange(start as int, n as int));
    if start == n {
        return None;
    }
    let mut acc: i64 = 0;
    let mut i = start;
    while i < n
        invariant
            start <= i <= n == v.len(),
            body == v@.subrange(start as int, n as int),
            body == (if n > 0 && (v@[0] == '-' || v@[0] == '+') {
                v@.skip(1)
            } else {
                v@
            }),
            body.len() > 0,
            all_digits(body.take(i - start)),
            acc == digits_value(body.take(i - start)),
            0 <= acc <= 2147483648,
        decreases n - i,
    {
        let c = v[i];
        if !('0' <= c && c <= '9') {
            assert(body[i - start] == c);
            assert(!all_digits(body));
            proof {
                reveal(parse_i32);
            }
            return None;
        }
        assert(body.take(i + 1 - start).drop_last() =~= body.take(i - start));
        let d = (c as u32 - '0' as u32) as i64;
        acc = acc * 10 + d;
        i = i + 1;
        if acc > 2147483648 {
            proof {
                reveal(parse_i32);
                if all_digits(body) {
                    lemma_digits_value_monotone(body, i - start);
                }
            }
            return None;
        }
    }
    assert(body.take(n - start) =~= body);
    if neg {
        Some((0 - acc) as i32)
    } else if acc > 2147483647 {
        None
    } else {
        Some(acc as i32)
    }
}

/// 16 to the power `n`.
pub open spec fn pow16(n: nat) -> int
    decreases n,
{
    if n == 0 {
        1
    } else {
        16 * pow16((n - 1) as nat)
    }
}

/// Value of a hexadecimal digit.
fn hex_digit(c: char) -> (r: Option<u32>)
    ensures
        r matches Some(d) ==> hex_digit_value(c) == Some(d as int) && d < 16,
        r is None ==> hex_digit_value(c) is None,
{
    if '0' <= c && c <= '9' {
        Some(c as u32 - '0' as u32)
    } else if 'a' <= c && c <= 'f' {
        Some(c as u32 - 'a' as u32 + 10)
    } else if 'A' <= c && c <= 'F' {
        Some(c as u32 - 'A' as u32 + 10)
    } else {
        None
    }
}

/// `u32::from_str_radix(s, 16)` for at most six characters.
fn parse_hex_chars(v: &Vec<char>) -> (r: Option<u32>)
    requires
        v.len() <= 6,
    ensures
        r matches Some(x) ==> parse_hex(v@) == Some(x as int),
        r is None ==> parse_hex(v@) is None,
{
    let n = v.len();
    let start: usize = if n > 1 && v[0] == '+' {
        1
    } else {
        0
    };
    let ghost body = if n > 1 && v@[0] == '+' {
        v@.skip(1)
    } else {
        v@
    };
    assert(body =~= v@.subrange(start as int, n as int));
    if start == n {
        return None;
    }
    let mut acc: u32 = 0;
    let mut i = start;
    proof {
        lemma_pow16_mono(0, 6);
        assert(body.take(0) =~= Seq::<char>::empty());
    }
    while i < n
        invariant
            start <= i <= n == v.len() <= 6,
            body == v@.subrange(start as int, n as int),
            body == (if n > 1 && v@[0] == '+' {
                v@.skip(1)
            } else {
                v@
            }),
            body.len() > 0,
            hex_value(body.take(i - start)) == Some(acc as int),
            acc < pow16((i - start) as nat),
            pow16((i - start) as nat) <= pow16(6),
        decreases n - i,
    {
        let c = v[i];
        assert(body.take(i + 1 - start).drop_last() =~= body.take(i - start));
        assert(body[i - start] == c);
        match hex_digit(c) {
            None => {
                proof {
                    lemma_hex_value_prefix(body, i + 1 - start);
                }
                return None;
            },
            Some(d) => {
                proof {
                    reveal_with_fuel(pow16, 7);
                    lemma_pow16_mono((i + 1 - start) as nat, 6);
                    assert(pow16((i + 1 - start) as nat) == 16 * pow16((i - start) as nat));
                }
                acc = acc * 16 + d;
                i = i + 1;
            },
        }
    }
    assert(body.take(n - start) =~= body);
    Some(acc)
}

/// Powers of 16 grow with the exponent.
proof fn lemma_pow16_mono(a: nat, b: nat)
    requires
        a <= b,
    ensures
        pow16(a) <= pow16(b),
        pow16(a) >= 1,
    decreases b,
{
    if b > 0 && a < b {
        lemma_pow16_mono(a, (b - 1) as nat);
    } else if a > 0 {
        lemma_pow16_mono((a - 1) as nat, (a - 1) as nat);
    }
}

/// A sequence with a non-hexadecimal prefix has no hexadecimal value.
proof fn lemma_hex_value_prefix(s: Seq<char>, k: int)
    requires
        0 <= k <= s.len(),
        hex_value(s.take(k)) is None,
    ensures
        hex_value(s) is None,
    decreases s.len(),
{
    if k < s.len() {
        assert(s.drop_last().take(k) =~= s.take(k));
        lemma_hex_value_prefix(s.drop_last(), k);
    } else {
        assert(s.take(k) =~= s);
    }
}

/// Parses an icon specification (see `icon_parse`).
pub fn parse_icon_value(spec: &Vec<char>) -> (r: Result<(char, bool), &'static str>)
    requires
        spec.len() < usize::MAX / 4,
    ensures
        match r {
            Ok(x) => icon_parse(spec@) == Ok::<(char, bool), Seq<char>>(x),
            Err(m) => icon_parse(spec@) == Err::<(char, bool), Seq<char>>(m@),
        },
{
    let (a, b) = trim_range(spec, 0, spec.len());
    assert(spec@.subrange(0, spec@.len() as int) =~= spec@);
    let t = slice_vec(spec, a, b);
    if t.len() == 0 {
        return Ok(('\0', true));
    }
    if t.len() == 1 {
        return Ok((t[0], false));
    }
    proof {
        reveal_strlit("U+");
        reveal_strlit("u+");
    }
    if !(t[0] == 'U' || t[0] == 'u') || t[1] != '+' {
        assert(!starts_with(t@, "U+"@) && !starts_with(t@, "u+"@)) by {
            assert(t@.take(2)[0] == t@[0] && t@.take(2)[1] == t@[1]);
        }
        return Err("Invalid icon: expected single glyph or U+XXXX");
    }
    assert(starts_with(t@, "U+"@) || starts_with(t@, "u+"@)) by {
        if t@[0] == 'U' {
            assert(t@.take(2) =~= "U+"@);
        } else {
            assert(t@.take(2) =~= "u+"@);
        }
    }
    let hex = slice_vec(&t, 2, t.len());
    assert(hex@ =~= t@.skip(2));
    let blen = utf8_len_range(&hex, 0, hex.len());
    assert(hex@.subrange(0, hex@.len() as int) =~= hex@);
    if blen < 4 || blen > 6 {
        return Err("Invalid icon: U+ requires 4-6 hex digits");
    }
    proof {
        crate::text::lemma_utf8_len_bound(hex@);
    }
    match parse_hex_chars(&hex) {
        Some(cp) => {
            if 1 <= cp && cp <= 0x10FFFF && !(0xD800 <= cp && cp <= 0xDFFF) {
                match char_from_u32(cp) {
                    Some(c) => Ok((c, false)),
                    None => Err("Invalid icon: code point out of range (U+0001..U+10FFFF)"),
                }
            } else {
                Err("Invalid icon: code point out of range (U+0001..U+10FFFF)")
            }
        },
        None => Err("Invalid icon: code point out of range (U+0001..U+10FFFF)"),
    }
}

/// Parses `Fore [on Back]` (see `color_parse`).
pub fn parse_color_value(value: &Vec<char>) -> (r: Result<u16, (&'static str, Vec<char>)>)
    ensures
        match r {
            Ok(x) => color_parse(value@) == Ok::<u16, (Seq<char>, Seq<char>)>(x),
            Err((m, bad)) => color_parse(value@) == Err::<u16, (Seq<char>, Seq<char>)>((m@, bad@)),
        },
{
    let n = value.len();
    let lower = lower_range(value, 0, n);
    assert(value@.subrange(0, n as int) =~= value@);
    let on = chars_of(" on ");
    proof {
        reveal_strlit(" on ");
    }
    let (fa, fb, back_range) = match find_seq(&lower, &on) {
        Some(pos) => {
            proof {
                lemma_find_from_spec(lower@, on@, 0);
            }
            let (fa, fb) = trim_range(value, 0, pos);
            let (ba, bb) = trim_range(value, pos + 4, n);
            assert(value@.take(pos as int) =~= value@.subrange(0, pos as int));
            assert(value@.skip(pos + 4) =~= value@.subrange(pos + 4, n as int));
            (fa, fb, Some((ba, bb)))
        },
        None => {
            let (fa, fb) = trim_range(value, 0, n);
            (fa, fb, None)
        },
    };
    let fore = match color_value_range(value, fa, fb, false) {
        Some(f) => f,
        None => {
            return Err(("Invalid foreground color", slice_vec(value, fa, fb)));
        },
    };
    let back: u16 = match back_range {
        Some((ba, bb)) => {
            if ba < bb {
                match color_value_range(value, ba, bb, true) {
                    Some(b) => b,
                    None => {
                        return Err(("Invalid background color", slice_vec(value, ba, bb)));
                    },
                }
            } else {
                0
            }
        },
        None => 0,
    };
    if back != 0 && fore == back / 16 {
        return Err(("Foreground and background colors are the same", slice_vec(value, 0, n)));
    }
    Ok(fore | back)
}

/// Kind of an override key (see `classify`).
pub fn classify_key(key: &Vec<char>) -> (r: KeyType)
    ensures
        r == classify(key@),
{
    let n = key.len();
    proof {
        reveal_strlit("dir:");
        reveal_strlit("attr:");
    }
    if n > 0 && key[0] == '.' {
        KeyType::Extension
    } else if n >= 5 && eq_ic_str(key, 0, 4, "dir:") {
        assert(key@.take(4) =~= key@.subrange(0, 4));
        KeyType::WellKnownDir
    } else if n == 6 && (key[5] as u32) < 128 && eq_ic_str(key, 0, 5, "attr:") {
        assert(key@.take(5) =~= key@.subrange(0, 5));
        KeyType::FileAttribute
    } else if n == 1 && (key[0] as u32) < 128 {
        KeyType::DisplayAttr
    } else {
        proof {
            if n >= 5 {
                assert(key@.take(4) =~= key@.subrange(0, 4));
            }
            if n == 6 {
                assert(key@.take(5) =~= key@.subrange(0, 5));
            }
        }
        KeyType::Invalid
    }
}

/// Switch named by an entry (see `switch_for`), as field position and value.
pub fn switch_for_entry(e: &Vec<char>) -> (r: Option<(usize, bool)>)
    ensures
        r matches Some((f, v)) ==> switch_for(e@) == Some((f as int, v)),
        r is None ==> switch_for(e@) is None,
{
    let n = e.len();
    assert(e@.subrange(0, n as int) =~= e@);
    if eq_ic_str(e, 0, n, "s") {
        Some((2, true))
    } else if eq_ic_str(e, 0, n, "s-") {
        Some((2, false))
    } else if eq_ic_str(e, 0, n, "w") {
        Some((0, true))
    } else if eq_ic_str(e, 0, n, "w-") {
        Some((0, false))
    } else if eq_ic_str(e, 0, n, "b") {
        Some((1, true))
    } else if eq_ic_str(e, 0, n, "b-") {
        Some((1, false))
    } else if eq_ic_str(e, 0, n, "p") {
        Some((3, true))
    } else if eq_ic_str(e, 0, n, "p-") {
        Some((3, false))
    } else if eq_ic_str(e, 0, n, "m") {
        Some((4, true))
    } else if eq_ic_str(e, 0, n, "m-") {
        Some((4, false))
    } else if eq_ic_str(e, 0, n, "owner") {
        Some((5, true))
    } else if eq_ic_str(e, 0, n, "streams") {
        Some((6, true))
    } else if eq_ic_str(e, 0, n, "icons") {
        Some((7, true))
    } else if eq_ic_str(e, 0, n, "icons-") {
        Some((7, false))
    } else if eq_ic_str(e, 0, n, "tree") {
        Some((8, true))
    } else if eq_ic_str(e, 0, n, "tree-") {
        Some((8, false))
    } else {
        None
    }
}

/// Whether `e` names a switch.
pub fn is_switch_name(e: &Vec<char>) -> (r: bool)
    ensures
        r == switch_for(e@) is Some,
{
    switch_for_entry(e).is_some()
}

/// `key = value` split (see `key_value`).
pub fn parse_key_and_value(e: &Vec<char>) -> (r: Option<(Vec<char>, Vec<char>)>)
    ensures
        r matches Some((k, v)) ==> key_value(e@) == Some((k@, v@)),
        r is None ==> key_value(e@) is None,
{
    match find_ch(e, '=') {
        None => None,
        Some(eq) => {
            let (ka, kb) = trim_range(e, 0, eq);
            let (va, vb) = trim_range(e, eq + 1, e.len());
            assert(e@.take(eq as int) =~= e@.subrange(0, eq as int));
            assert(e@.skip(eq + 1) =~= e@.subrange(eq + 1, e@.len() as int));
            if ka == kb || va == vb {
                None
            } else {
                Some((slice_vec(e, ka, kb), slice_vec(e, va, vb)))
            }
        },
    }
}

/// An error record with no file path and line 0.
fn error_info(message: &str, entry: &Vec<char>, invalid: &Vec<char>, offset: usize) -> (r: ErrorInfo)
    ensures
        r@ == err(message@, entry@, invalid@, offset as nat),
{
    ErrorInfo::new(
        crate::text::string_from(message),
        crate::text::string_of(entry),
        crate::text::string_of(invalid),
        offset,
    )
}

impl Config {
    /// Records an error in the result of the pass in progress.
    fn push_err(&mut self, e: ErrorInfo)
        ensures
            final(self)@ == push_error(old(self)@, e@),
    {
        let ghost ev = e@;
        if self.current_source == AttributeSource::ConfigFile {
            self.config_file_parse_result.errors.push(e);
            assert(errors_view(self.config_file_parse_result.errors@) =~= errors_view(
                old(self).config_file_parse_result.errors@,
            ).push(ev));
        } else {
            self.last_parse_result.errors.push(e);
            assert(errors_view(self.last_parse_result.errors@) =~= errors_view(
                old(self).last_parse_result.errors@,
            ).push(ev));
        }
    }

    /// Sets the switch at position `field` of the switch list.
    pub fn process_switch_override(&mut self, field: usize, value: bool)
        requires
            field < 9,
        ensures
            final(self)@ == apply_switch(old(self)@, field as int, value),
    {
        let v = Some(value);
        if field == 0 {
            self.wide_listing = v;
        } else if field == 1 {
            self.bare_listing = v;
        } else if field == 2 {
            self.recurse = v;
        } else if field == 3 {
            self.perf_timer = v;
        } else if field == 4 {
            self.multi_threaded = v;
        } else if field == 5 {
            self.show_owner = v;
        } else if field == 6 {
            self.show_streams = v;
        } else if field == 7 {
            self.icons = v;
        } else {
            self.tree = v;
        }
        self.switch_sources[field] = self.current_source;
        assert(self@.switches =~= old(self)@.switches.update(field as int, Some(value)));
        assert(self@.switch_sources =~= old(self)@.switch_sources.update(field as int, old(self)@.current_source));
        assert(self@ =~= apply_switch(old(self)@, field as int, value));
    }

    /// Extension color override.
    pub fn process_file_extension_override(&mut self, key: &Vec<char>, color: u16)
        ensures
            final(self)@ == ext_color(old(self)@, key@, color),
    {
        let lk = lower_range(key, 0, key.len());
        assert(key@.subrange(0, key@.len() as int) =~= key@);
        let src = self.current_source;
        self.extension_colors.insert(crate::text::string_of(&lk), color);
        self.extension_sources.insert(crate::text::string_of(&lk), src);
        assert(self@ =~= ext_color(old(self)@, key@, color));
    }

    /// Extension icon override.
    pub fn apply_extension_icon_override(&mut self, key: &Vec<char>, icon: (char, bool))
        requires
            key.len() < usize::MAX / 4,
        ensures
            final(self)@ == ext_icon(old(self)@, key@, icon),
    {
        let lk = lower_range(key, 0, key.len());
        assert(key@.subrange(0, key@.len() as int) =~= key@);
        let lks = crate::text::string_of(&lk);
        let existing = self.extension_icon_sources.get(lks.as_str());
        if let Some(src) = existing {
            if *src == AttributeSource::Environment {
                let empty: Vec<char> = Vec::new();
                self.push_err(error_info(
                    "Duplicate extension icon override (first value wins)",
                    &empty,
                    &lk,
                    0,
                ));
                assert(empty@ =~= Seq::<char>::empty());
                return;
            }
        }
        let g = if icon.1 {
            '\0'
        } else {
            icon.0
        };
        let src = self.current_source;
        self.extension_icons.insert(crate::text::string_of(&lk), g);
        self.extension_icon_sources.insert(lks, src);
        assert(self@ =~= ext_icon(old(self)@, key@, icon));
    }

    /// Well-known directory icon override for `dir:name`.
    pub fn apply_well_known_dir_icon_override(&mut self, key: &Vec<char>, icon: (char, bool))
        requires
            key.len() >= 4,
            key.len() < usize::MAX / 4,
        ensures
            final(self)@ == dir_icon(old(self)@, key@, icon),
    {
        let lk = lower_range(key, 4, key.len());
        assert(key@.subrange(4, key@.len() as int) =~= key@.skip(4));
        let lks = crate::text::string_of(&lk);
        let existing = self.well_known_dir_icon_sources.get(lks.as_str());
        if let Some(src) = existing {
            if *src == AttributeSource::Environment {
                let empty: Vec<char> = Vec::new();
                self.push_err(error_info(
                    "Duplicate well-known dir icon override (first value wins)",
                    &empty,
                    &lk,
                    0,
                ));
                assert(empty@ =~= Seq::<char>::empty());
                return;
            }
        }
        let g = if icon.1 {
            '\0'
        } else {
            icon.0
        };
        let src = self.current_source;
        self.well_known_dir_icons.insert(crate::text::string_of(&lk), g);
        self.well_known_dir_icon_sources.insert(lks, src);
        assert(self@ =~= dir_icon(old(self)@, key@, icon));
    }

    /// File-attribute color override for `attr:X`.
    pub fn process_file_attribute_override(&mut self, key: &Vec<char>, color: u16, entry: &Vec<char>)
        requires
            key.len() == 6,
            entry.len() < usize::MAX / 4,
        ensures
            final(self)@ == attr_color(old(self)@, key@, color, entry@),
    {
        let c = to_upper_char(key[5]);
        match attribute_flag_for_key(c) {
            Some(flag) => {
                let src = self.current_source;
                self.file_attr_colors.insert(flag, FileAttrStyle { attr: color, source: src });
                assert(self@ =~= attr_color(old(self)@, key@, color, entry@));
            },
            None => {
                let off = byte_offset(entry, key);
                proof {
                    crate::text::lemma_utf8_len_bound(entry@);
                    lemma_byte_offset_bound(entry@, key@);
                }
                let mut inv: Vec<char> = Vec::new();
                inv.push(c);
                assert(inv@ =~= seq![c]);
                self.push_err(error_info(
                    "Invalid file attribute character (expected R, H, S, A, T, E, C, P or 0)",
                    entry,
                    &inv,
                    off + 5,
                ));
            },
        }
    }

    /// File-attribute icon override for `attr:X`.
    pub fn apply_file_attribute_icon_override(&mut self, key: &Vec<char>, icon: (char, bool))
        requires
            key.len() == 6,
        ensures
            final(self)@ == attr_icon(old(self)@, key@, icon),
    {
        match attribute_flag_for_key(to_upper_char(key[5])) {
            Some(flag) => {
                let g = if icon.1 {
                    '\0'
                } else {
                    icon.0
                };
                self.file_attr_icons.insert(flag, g);
                assert(self@ =~= attr_icon(old(self)@, key@, icon));
            },
            None => {},
        }
    }

    /// Display-item color override for a one-character key.
    pub fn process_display_attribute_override(&mut self, key: &Vec<char>, color: u16, entry: &Vec<char>)
        requires
            key.len() == 1,
        ensures
            final(self)@ == display_color(old(self)@, key@, color, entry@),
    {
        let ch = key[0];
        let up = to_upper_char(ch);
        let mut i: usize = 0;
        while i < 17
            invariant
                i <= 17,
                self@ == old(self)@,
                up == upper_char(key@[0]),
                key.len() == 1,
                forall|j: int| 0 <= j < i ==> attr_env_key(#[trigger] Attribute::ALL@[j]) != Some(up),
            decreases 17 - i,
        {
            let a = Attribute::ALL[i];
            if a.env_key() == Some(up) {
                proof {
                    super::lemma_env_key_roundtrip(a);
                }
                let idx = a.index();
                let src = self.current_source;
                self.attributes[idx] = color;
                self.attribute_sources[idx] = src;
                assert(self@ =~= display_color(old(self)@, key@, color, entry@));
                return;
            }
            i = i + 1;
        }
        proof {
            assert(Attribute::ALL@ == seq![
                Attribute::Default,
                Attribute::Date,
                Attribute::Time,
                Attribute::FileAttributePresent,
                Attribute::FileAttributeNotPresent,
                Attribute::Size,
                Attribute::Directory,
                Attribute::Information,
                Attribute::InformationHighlight,
                Attribute::SeparatorLine,
                Attribute::Error,
                Attribute::Owner,
                Attribute::Stream,
                Attribute::CloudStatusCloudOnly,
                Attribute::CloudStatusLocallyAvailable,
                Attribute::CloudStatusAlwaysLocallyAvailable,
                Attribute::TreeConnector,
            ]);
            assert(attr_env_key(Attribute::ALL@[0]) != Some(up));
            assert(attr_env_key(Attribute::ALL@[1]) != Some(up));
            assert(attr_env_key(Attribute::ALL@[2]) != Some(up));
            assert(attr_env_key(Attribute::ALL@[3]) != Some(up));
            assert(attr_env_key(Attribute::ALL@[4]) != Some(up));
            assert(attr_env_key(Attribute::ALL@[5]) != Some(up));
            assert(attr_env_key(Attribute::ALL@[6]) != Some(up));
            assert(attr_env_key(Attribute::ALL@[7]) != Some(up));
            assert(attr_env_key(Attribute::ALL@[8]) != Some(up));
            assert(attr_env_key(Attribute::ALL@[10]) != Some(up));
            assert(attr_env_key(Attribute::ALL@[11]) != Some(up));
            assert(attr_env_key(Attribute::ALL@[12]) != Some(up));
            assert(attr_env_key(Attribute::ALL@[16]) != Some(up));
        }
        let mut inv: Vec<char> = Vec::new();
        inv.push(ch);
        assert(inv@ =~= seq![key@[0]]);
        self.push_err(error_info(
            "Invalid display attribute character (valid: D,T,A,-,S,R,I,H,E,F,O)",
            entry,
            &inv,
            0,
        ));
    }

    /// Applies a parsed color and icon to the target named by the key.
    pub fn apply_key_override(
        &mut self,
        key: &Vec<char>,
        color: Option<u16>,
        icon: Option<(char, bool)>,
        entry: &Vec<char>,
    )
        requires
            key.len() < usize::MAX / 4,
            entry.len() < usize::MAX / 4,
        ensures
            final(self)@ == apply_key(old(self)@, key@, color, icon, entry@),
    {
        match classify_key(key) {
            KeyType::Extension => {
                if let Some(c) = color {
                    self.process_file_extension_override(key, c);
                }
                if let Some(i) = icon {
                    self.apply_extension_icon_override(key, i);
                }
            },
            KeyType::WellKnownDir => {
                if let Some(i) = icon {
                    self.apply_well_known_dir_icon_override(key, i);
                }
            },
            KeyType::FileAttribute => {
                if let Some(c) = color {
                    self.process_file_attribute_override(key, c, entry);
                }
                if let Some(i) = icon {
                    self.apply_file_attribute_icon_override(key, i);
                }
            },
            KeyType::DisplayAttr => {
                if let Some(c) = color {
                    self.process_display_attribute_override(key, c, entry);
                }
            },
            KeyType::Invalid => {
                let off = byte_offset(entry, key);
                self.push_err(error_info(
                    "Invalid key (expected single character, .extension, dir:name, or attr:x)",
                    entry,
                    key,
                    off,
                ));
            },
        }
    }

    /// Applies `key = color[,icon]` (see `apply_color_icon`).
    pub fn parse_color_and_icon(&mut self, entry: &Vec<char>, key: &Vec<char>, value: &Vec<char>)
        requires
            entry.len() < usize::MAX / 4,
            key.len() < usize::MAX / 4,
            value.len() < usize::MAX / 4,
        ensures
            final(self)@ == apply_color_icon(old(self)@, entry@, key@, value@),
    {
        let n = value.len();
        let (color_view, icon_view) = match find_ch(value, ',') {
            Some(c) => {
                let (ca, cb) = trim_range(value, 0, c);
                assert(value@.take(c as int) =~= value@.subrange(0, c as int));
                let iv = slice_vec(value, c + 1, n);
                assert(iv@ =~= value@.skip(c + 1));
                (slice_vec(value, ca, cb), Some(iv))
            },
            None => (slice_vec(value, 0, n), None),
        };
        assert(value@.subrange(0, n as int) =~= value@);
        let color: Option<u16> = if color_view.len() > 0 {
            match parse_color_value(&color_view) {
                Ok(c) => Some(c),
                Err((msg, bad)) => {
                    proof {
                        lemma_color_parse_bad_len(color_view@);
                    }
                    let off = byte_offset(entry, &bad);
                    self.push_err(error_info(msg, entry, &bad, off));
                    return;
                },
            }
        } else {
            None
        };
        let icon: Option<(char, bool)> = match icon_view {
            Some(iv) => match parse_icon_value(&iv) {
                Ok(i) => Some(i),
                Err(msg) => {
                    let (ta, tb) = trim_range(&iv, 0, iv.len());
                    assert(iv@.subrange(0, iv@.len() as int) =~= iv@);
                    let t = slice_vec(&iv, ta, tb);
                    let off = byte_offset(entry, &t);
                    self.push_err(error_info(msg, entry, &t, off));
                    None
                },
            },
            None => None,
        };
        self.apply_key_override(key, color, icon, entry);
    }

    /// Applies `Depth=N`, `TreeIndent=N` or `Size=...` (see `apply_parameter`).
    fn apply_parameter_override(&mut self, entry: &Vec<char>, key: &Vec<char>, value: &Vec<char>)
        requires
            entry.len() < usize::MAX / 4,
        ensures
            final(self)@ == apply_parameter(old(self)@, entry@, key@, value@),
    {
        let kn = key.len();
        let vn = value.len();
        assert(key@.subrange(0, kn as int) =~= key@);
        assert(value@.subrange(0, vn as int) =~= value@);
        if eq_ic_str(key, 0, kn, "depth") {
            match parse_i32_chars(value) {
                Some(n) => {
                    if n > 0 {
                        self.max_depth = Some(n);
                        self.max_depth_source = self.current_source;
                        assert(self@ =~= apply_parameter(old(self)@, entry@, key@, value@));
                        return;
                    }
                },
                None => {},
            }
            let off = byte_offset(entry, value);
            self.push_err(error_info(
                "Invalid depth value (expected a positive integer)",
                entry,
                value,
                off,
            ));
        } else if eq_ic_str(key, 0, kn, "treeindent") {
            match parse_i32_chars(value) {
                Some(n) => {
                    if 1 <= n && n <= 8 {
                        self.tree_indent = Some(n);
                        self.tree_indent_source = self.current_source;
                        assert(self@ =~= apply_parameter(old(self)@, entry@, key@, value@));
                        return;
                    }
                },
                None => {},
            }
            let off = byte_offset(entry, value);
            self.push_err(error_info("Invalid tree indent value (expected 1-8)", entry, value, off));
        } else if eq_ic_str(value, 0, vn, "auto") {
            self.size_format = Some(SizeFormat::Auto);
            self.size_format_source = self.current_source;
            assert(self@ =~= apply_parameter(old(self)@, entry@, key@, value@));
        } else if eq_ic_str(value, 0, vn, "bytes") {
            self.size_format = Some(SizeFormat::Bytes);
            self.size_format_source = self.current_source;
            assert(self@ =~= apply_parameter(old(self)@, entry@, key@, value@));
        } else {
            let off = byte_offset(entry, value);
            self.push_err(error_info(
                "Invalid size format (expected Auto or Bytes)",
                entry,
                value,
                off,
            ));
        }
    }

    /// Applies one trimmed, non-empty override entry (see `apply_entry`).
    pub fn process_entry(&mut self, e: &Vec<char>)
        requires
            e.len() < usize::MAX / 4,
        ensures
            final(self)@ == apply_entry(old(self)@, e@),
    {
        let n = e.len();
        proof {
            reveal_strlit("/");
            reveal_strlit("-");
            reveal_strlit("--");
        }
        if n > 0 && (e[0] == '/' || e[0] == '-') {
            let p: usize = if n >= 2 && e[0] == '-' && e[1] == '-' {
                2
            } else {
                1
            };
            assert(starts_with(e@, "/"@) || starts_with(e@, "-"@)) by {
                reveal_strlit("/");
                reveal_strlit("-");
                if e@[0] == '/' {
                    assert(e@.take(1) =~= "/"@);
                } else {
                    assert(e@.take(1) =~= "-"@);
                }
            }
            assert(starts_with(e@, "--"@) == (p == 2)) by {
                reveal_strlit("--");
                if p == 2 {
                    assert(e@.take(2) =~= "--"@);
                } else if n >= 2 {
                    assert(e@.take(2)[0] == e@[0] && e@.take(2)[1] == e@[1]);
                }
            }
            let pre = slice_vec(e, 0, p);
            assert(pre@ =~= e@.take(p as int));
            self.push_err(error_info(
                "Switch prefixes (/, -, --) are not allowed in env var",
                e,
                &pre,
                0,
            ));
            return;
        }
        assert(!starts_with(e@, "/"@) && !starts_with(e@, "-"@)) by {
            reveal_strlit("/");
            reveal_strlit("-");
            if n > 0 {
                assert(e@.take(1)[0] == e@[0]);
            }
        }
        match switch_for_entry(e) {
            Some((field, value)) => {
                self.process_switch_override(field, value);
            },
            None => match parse_key_and_value(e) {
                None => {
                    self.push_err(error_info(
                        "Invalid entry format (expected key = value)",
                        e,
                        e,
                        0,
                    ));
                },
                Some((key, value)) => {
                    proof {
                        lemma_key_value_len(e@);
                    }
                    let kn = key.len();
                    assert(key@.subrange(0, kn as int) =~= key@);
                    if eq_ic_str(&key, 0, kn, "depth") || eq_ic_str(&key, 0, kn, "treeindent")
                        || eq_ic_str(&key, 0, kn, "size") {
                        self.apply_parameter_override(e, &key, &value);
                    } else {
                        self.parse_color_and_icon(e, &key, &value);
                    }
                },
            },
        }
    }

    /// Applies one override entry given as a string slice.
    pub fn process_color_override_entry(&mut self, entry: &str)
        requires
            entry@.len() < usize::MAX / 4,
        ensures
            final(self)@ == apply_entry(old(self)@, entry@),
    {
        let e = crate::text::chars_of(entry);
        self.process_entry(&e);
    }
}

impl Config {
    /// Applies one `;`-separated segment (see `apply_segment`).
    fn apply_segment_chars(&mut self, seg: &Vec<char>)
        requires
            seg.len() < usize::MAX / 4,
        ensures
            final(self)@ == apply_segment(old(self)@, seg@),
    {
        let (lo, hi) = trim_range(seg, 0, seg.len());
        assert(seg@.subrange(0, seg.len() as int) =~= seg@);
        if lo < hi {
            let t = slice_vec(seg, lo, hi);
            self.process_entry(&t);
        }
    }

    /// Applies every `;`-separated segment of `s`, in order.
    pub fn apply_override_segments(&mut self, s: &Vec<char>)
        requires
            s.len() < usize::MAX / 4,
        ensures
            final(self)@ == apply_segments(old(self)@, s@),
    {
        let mut rest = slice_vec(s, 0, s.len());
        assert(rest@ =~= s@);
        loop
            invariant
                rest.len() <= s.len() < usize::MAX / 4,
                apply_segments(old(self)@, s@) == apply_segments(self@, rest@),
            decreases rest.len(),
        {
            match find_ch(&rest, ';') {
                Some(i) => {
                    let seg = slice_vec(&rest, 0, i);
                    assert(seg@ =~= rest@.take(i as int));
                    self.apply_segment_chars(&seg);
                    let next = slice_vec(&rest, i + 1, rest.len());
                    assert(next@ =~= rest@.skip(i + 1));
                    rest = next;
                },
                None => {
                    self.apply_segment_chars(&rest);
                    return;
                },
            }
        }
    }

    /// Environment pass: drops the errors of the previous one and applies
    /// the provider's `RCDIR` variable, if set, with the environment as the
    /// source of what it sets.
    pub fn apply_user_color_overrides<P: EnvironmentProvider>(&mut self, provider: &P)
        requires
            value_fits(provider.env_var(RCDIR_ENV_VAR_NAME@)),
        ensures
            final(self)@ == env_pass_view(old(self)@, provider.env_var(RCDIR_ENV_VAR_NAME@)),
    {
        self.last_parse_result.errors.clear();
        self.current_source = AttributeSource::Environment;
        proof {
            assert(errors_view(self.last_parse_result.errors@) =~= Seq::<ErrorView>::empty());
        }
        match provider.get_env_var(RCDIR_ENV_VAR_NAME) {
            None => {},
            Some(v) => {
                let chars = chars_of(v.as_str());
                self.apply_override_segments(&chars);
            },
        }
    }
}

/// Whether a text, if present, is short enough for its UTF-8 length to be
/// counted in a `usize`.
pub open spec fn value_fits(v: Option<Seq<char>>) -> bool {
    v matches Some(s) ==> s.len() < usize::MAX / 4
}

/// Whether every line of a read result is short enough for its UTF-8 length
/// to be counted in a `usize`.
pub open spec fn lines_fit(r: ReadView) -> bool {
    r matches ReadView::Lines(ls) ==> forall|i: int| 0 <= i < ls.len() ==> #[trigger] ls[i].len() < usize::MAX / 4
}

/// The entry of a configuration-file line (see `line_entry`).
pub fn line_entry_chars(line: &Vec<char>) -> (r: Option<Vec<char>>)
    ensures
        r matches Some(e) ==> line_entry(line@) == Some(e@),
        r is None ==> line_entry(line@) is None,
        r matches Some(e) ==> e.len() <= line.len(),
{
    let (lo, hi) = trim_range(line, 0, line.len());
    assert(line@.subrange(0, line.len() as int) =~= line@);
    if lo == hi || line[lo] == '#' {
        return None;
    }
    let t = slice_vec(line, lo, hi);
    match find_ch(&t, '#') {
        Some(h) => {
            let (blo, bhi) = trim_range(&t, 0, h);
            assert(t@.subrange(0, h as int) =~= t@.take(h as int));
            if blo == bhi {
                None
            } else {
                Some(slice_vec(&t, blo, bhi))
            }
        },
        None => Some(t),
    }
}

/// An entry only appends errors, and leaves the source in progress and the
/// configuration-file path as they were.
pub proof fn lemma_apply_entry_appends(m: ConfigView, e: Seq<char>)
    ensures
        apply_entry(m, e).current_source == m.current_source,
        apply_entry(m, e).config_file_path == m.config_file_path,
        apply_entry(m, e).file_errors.len() >= m.file_errors.len(),
        apply_entry(m, e).file_errors.take(m.file_errors.len() as int) == m.file_errors,
{
}

impl Config {
    /// Applies one configuration-file line; errors it adds carry the file
    /// path and `line_no`.
    fn process_config_line(&mut self, line: &String, line_no: usize)
        requires
            old(self).current_source == AttributeSource::ConfigFile,
            line@.len() < usize::MAX / 4,
        ensures
            final(self)@ == (match line_entry(line@) {
                None => old(self)@,
                Some(e) => tag_new_errors(
                    old(self)@,
                    apply_entry(old(self)@, e),
                    old(self)@.config_file_path,
                    line_no as nat,
                ),
            }),
    {
        let chars = chars_of(line.as_str());
        match line_entry_chars(&chars) {
            None => {},
            Some(e) => {
                let ghost before = self@;
                let count = self.config_file_parse_result.errors.len();
                self.process_entry(&e);
                proof {
                    lemma_apply_entry_appends(before, e@);
                }
                let ghost after = self@;
                let mut k = count;
                while k < self.config_file_parse_result.errors.len()
                    invariant
                        count <= k <= self.config_file_parse_result.errors.len(),
                        after.file_errors.len() == self.config_file_parse_result.errors.len(),
                        before.file_errors.len() == count,
                        self@ == (ConfigView { file_errors: self@.file_errors, ..after }),
                        self.config_file_path@ == before.config_file_path,
                        forall|j: int| 0 <= j < k ==> #[trigger] self@.file_errors[j] == if j < count {
                            after.file_errors[j]
                        } else {
                            ErrorView { path: before.config_file_path, line: line_no as nat, ..after.file_errors[j] }
                        },
                        forall|j: int| k <= j < after.file_errors.len() ==> #[trigger] self@.file_errors[j] == after.file_errors[j],
                    decreases self.config_file_parse_result.errors.len() - k,
                {
                    let old_e = &self.config_file_parse_result.errors[k];
                    let tagged = ErrorInfo {
                        message: old_e.message.clone(),
                        entry: old_e.entry.clone(),
                        invalid_text: old_e.invalid_text.clone(),
                        invalid_text_offset: old_e.invalid_text_offset,
                        source_file_path: self.config_file_path.clone(),
                        line_number: line_no,
                    };
                    let ghost prev = self@.file_errors;
                    let ghost tv = tagged@;
                    assert(prev[k as int] == after.file_errors[k as int]);
                    assert(tv == ErrorView { path: before.config_file_path, line: line_no as nat, ..after.file_errors[k as int] });
                    self.config_file_parse_result.errors.set(k, tagged);
                    assert(self@.file_errors =~= prev.update(k as int, tv));
                    k = k + 1;
                }
                proof {
                    let t = tag_new_errors(before, after, before.config_file_path, line_no as nat);
                    assert(self@.file_errors =~= t.file_errors);
                    assert(self@ =~= t);
                }
            },
        }
    }

    /// Applies the lines of a configuration file in order, with the file as
    /// the source (see `apply_lines`).
    pub fn process_config_lines(&mut self, lines: &Vec<String>)
        requires
            forall|i: int| 0 <= i < lines.len() ==> #[trigger] lines@[i]@.len() < usize::MAX / 4,
        ensures
            final(self)@ == apply_lines(
                ConfigView { current_source: AttributeSource::ConfigFile, ..old(self)@ },
                lines@.map_values(|l: String| l@),
                old(self)@.config_file_path,
            ),
    {
        self.current_source = AttributeSource::ConfigFile;
        let ghost start = self@;
        let ghost path = old(self)@.config_file_path;
        let ghost ls = lines@.map_values(|l: String| l@);
        assert(ls.take(0) =~= Seq::<Seq<char>>::empty());
        let mut i: usize = 0;
        while i < lines.len()
            invariant
                i <= lines.len(),
                ls == lines@.map_values(|l: String| l@),
                forall|j: int| 0 <= j < lines.len() ==> #[trigger] lines@[j]@.len() < usize::MAX / 4,
                self@ == apply_lines(start, ls.take(i as int), path),
                self.current_source == AttributeSource::ConfigFile,
                self@.config_file_path == path,
            decreases lines.len() - i,
        {
            let ghost prev = self@;
            self.process_config_line(&lines[i], i + 1);
            proof {
                assert(ls.take(i + 1).drop_last() =~= ls.take(i as int));
                assert(ls.take(i + 1).last() == lines@[i as int]@);
                if let Some(e) = line_entry(lines@[i as int]@) {
                    lemma_apply_entry_appends(prev, e);
                }
            }
            i = i + 1;
        }
        assert(ls.take(lines.len() as int) =~= ls);
    }

    /// Loads the configuration file `%USERPROFILE%\.rcdirconfig` from the
    /// provider: a missing profile or file loads nothing, a failed read is
    /// recorded as an error naming the path, and the lines of a file that
    /// was read are applied with the file as their source.
    pub fn load_config_file<P: EnvironmentProvider>(&mut self, provider: &P)
        requires
            forall|p: Seq<char>| lines_fit(#[trigger] provider.config_file(p)),
        ensures
            final(self)@ == load_config_file_view(
                old(self)@,
                provider.env_var("USERPROFILE"@),
                |p: Seq<char>| provider.config_file(p),
            ),
    {
        self.config_file_parse_result.errors.clear();
        self.config_file_loaded = false;
        self.config_file_path = String::new();
        proof {
            assert(errors_view(self.config_file_parse_result.errors@) =~= Seq::<ErrorView>::empty());
        }
        let up = match provider.get_env_var("USERPROFILE") {
            Some(v) => v,
            None => {
                return;
            },
        };
        self.config_file_path = config_file_path(up.as_str());
        let ghost path = self.config_file_path@;
        assert(path == file_path_for(up@));
        match provider.read_config_file(self.config_file_path.as_str()) {
            Ok(lines) => {
                self.config_file_loaded = true;
                proof {
                    assert(lines_fit(provider.config_file(path)));
                    assert forall|j: int| 0 <= j < lines.len() implies #[trigger] lines@[j]@.len() < usize::MAX / 4 by {
                        assert(lines@.map_values(|l: String| l@)[j] == lines@[j]@);
                    }
                }
                self.process_config_lines(&lines);
            },
            Err(ConfigFileError::NotFound) => {},
            Err(ConfigFileError::IoError(msg)) => {
                let p = self.config_file_path.clone();
                self.config_file_parse_result.errors.push(ErrorInfo::new(msg, p, String::new(), 0));
                proof {
                    assert(errors_view(self.config_file_parse_result.errors@) =~= seq![
                        ErrorView { message: msg@, entry: path, invalid_text: Seq::empty(), offset: 0, path: Seq::empty(), line: 0 },
                    ]);
                }
            },
            Err(ConfigFileError::EncodingError(msg)) => {
                let p = self.config_file_path.clone();
                self.config_file_parse_result.errors.push(ErrorInfo::new(msg, p, String::new(), 0));
                proof {
                    assert(errors_view(self.config_file_parse_result.errors@) =~= seq![
                        ErrorView { message: msg@, entry: path, invalid_text: Seq::empty(), offset: 0, path: Seq::empty(), line: 0 },
                    ]);
                }
            },
        }
    }
}

/// The key and value of an entry are no longer than the entry.
proof fn lemma_key_value_len(e: Seq<char>)
    ensures
        key_value(e) matches Some((k, v)) ==> k.len() <= e.len() && v.len() <= e.len(),
{
    if let Some(eq) = find_char(e, '=') {
        lemma_find_from_spec(e, seq!['='], 0);
        lemma_trim_len(e.take(eq));
        lemma_trim_len(e.skip(eq + 1));
    }
}

/// Trimming never lengthens a sequence.
pub proof fn lemma_trim_len(s: Seq<char>)
    ensures
        trim(s).len() <= s.len(),
{
    lemma_ltrim_len(s);
    lemma_rtrim_len(crate::text::ltrim(s));
}

proof fn lemma_ltrim_len(s: Seq<char>)
    ensures
        crate::text::ltrim(s).len() <= s.len(),
    decreases s.len(),
{
    if s.len() > 0 && crate::text::is_ws(s[0]) {
        lemma_ltrim_len(s.drop_first());
    }
}

proof fn lemma_rtrim_len(s: Seq<char>)
    ensures
        crate::text::rtrim(s).len() <= s.len(),
    decreases s.len(),
{
    if s.len() > 0 && crate::text::is_ws(s.last()) {
        lemma_rtrim_len(s.drop_last());
    }
}

/// The offending text of a color error is no longer than the value.
proof fn lemma_color_parse_bad_len(value: Seq<char>)
    ensures
        color_parse(value) matches Err((m, bad)) ==> bad.len() <= value.len(),
{
    reveal_strlit(" on ");
    lemma_trim_len(value);
    if let Some(pos) = find(lower_seq(value), " on "@) {
        lemma_find_from_spec(lower_seq(value), " on "@, 0);
        lemma_trim_len(value.take(pos));
        lemma_trim_len(value.skip(pos + 4));
    }
}

/// A byte offset found in `s` lies within `s`'s encoding.
proof fn lemma_byte_offset_bound(s: Seq<char>, p: Seq<char>)
    ensures
        byte_offset_of(s, p) <= utf8_len(s),
{
    if let Some(i) = find(s, p) {
        lemma_find_from_spec(s, p, 0);
        lemma_utf8_len_prefix(s, i);
    }
}

} // verus!
