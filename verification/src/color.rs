//! Console color values, color names and color-specification parsing.
//!
//! The console uses a 4-bit color model: the foreground occupies bits 0-3 of
//! an attribute word (blue=1, green=2, red=4, intensity=8) and the background
//! bits 4-7.

use vstd::prelude::*;
use crate::ehm::AppError;
use crate::text::{chars_of, concat, eq_ic, eq_ic_range, find, find_seq, lower_char, lower_range, lower_seq, trim, trim_range, string_of_range};

verus! {

pub const FC_BLACK: u16 = 0x00;
pub const FC_BLUE: u16 = 0x01;
pub const FC_GREEN: u16 = 0x02;
pub const FC_CYAN: u16 = 0x03;
pub const FC_RED: u16 = 0x04;
pub const FC_MAGENTA: u16 = 0x05;
pub const FC_BROWN: u16 = 0x06;
pub const FC_LIGHT_GREY: u16 = 0x07;
pub const FC_DARK_GREY: u16 = 0x08;
pub const FC_LIGHT_BLUE: u16 = 0x09;
pub const FC_LIGHT_GREEN: u16 = 0x0A;
pub const FC_LIGHT_CYAN: u16 = 0x0B;
pub const FC_LIGHT_RED: u16 = 0x0C;
pub const FC_LIGHT_MAGENTA: u16 = 0x0D;
pub const FC_YELLOW: u16 = 0x0E;
pub const FC_WHITE: u16 = 0x0F;
pub const FC_MASK: u16 = 0x0F;

pub const BC_BLACK: u16 = 0x00;
pub const BC_BLUE: u16 = 0x10;
pub const BC_GREEN: u16 = 0x20;
pub const BC_CYAN: u16 = 0x30;
pub const BC_RED: u16 = 0x40;
pub const BC_MAGENTA: u16 = 0x50;
pub const BC_BROWN: u16 = 0x60;
pub const BC_LIGHT_GREY: u16 = 0x70;
pub const BC_DARK_GREY: u16 = 0x80;
pub const BC_LIGHT_BLUE: u16 = 0x90;
pub const BC_LIGHT_GREEN: u16 = 0xA0;
pub const BC_LIGHT_CYAN: u16 = 0xB0;
pub const BC_LIGHT_RED: u16 = 0xC0;
pub const BC_LIGHT_MAGENTA: u16 = 0xD0;
pub const BC_YELLOW: u16 = 0xE0;
pub const BC_WHITE: u16 = 0xF0;
pub const BC_MASK: u16 = 0xF0;

/// Number of foreground colors.
pub const COLOR_COUNT: usize = 16;

/// All foreground colors in index order.
pub const ALL_FOREGROUND_COLORS: [u16; 16] = [
    FC_BLACK,
    FC_BLUE,
    FC_GREEN,
    FC_CYAN,
    FC_RED,
    FC_MAGENTA,
    FC_BROWN,
    FC_LIGHT_GREY,
    FC_DARK_GREY,
    FC_LIGHT_BLUE,
    FC_LIGHT_GREEN,
    FC_LIGHT_CYAN,
    FC_LIGHT_RED,
    FC_LIGHT_MAGENTA,
    FC_YELLOW,
    FC_WHITE,
];

/// Name of the foreground color `v` (0..15).
pub open spec fn fg_name(v: u16) -> Seq<char> {
    if v == 0 {
        "Black"@
    } else if v == 1 {
        "Blue"@
    } else if v == 2 {
        "Green"@
    } else if v == 3 {
        "Cyan"@
    } else if v == 4 {
        "Red"@
    } else if v == 5 {
        "Magenta"@
    } else if v == 6 {
        "Brown"@
    } else if v == 7 {
        "LightGrey"@
    } else if v == 8 {
        "DarkGrey"@
    } else if v == 9 {
        "LightBlue"@
    } else if v == 10 {
        "LightGreen"@
    } else if v == 11 {
        "LightCyan"@
    } else if v == 12 {
        "LightRed"@
    } else if v == 13 {
        "LightMagenta"@
    } else if v == 14 {
        "Yellow"@
    } else {
        "White"@
    }
}

/// Foreground value of the color called `name` (ASCII case-insensitive);
/// the first of the sixteen names, in value order, that matches.
pub open spec fn color_fore(name: Seq<char>) -> Option<u16> {
    if eq_ic(name, fg_name(0)) {
        Some(0u16)
    } else if eq_ic(name, fg_name(1)) {
        Some(1u16)
    } else if eq_ic(name, fg_name(2)) {
        Some(2u16)
    } else if eq_ic(name, fg_name(3)) {
        Some(3u16)
    } else if eq_ic(name, fg_name(4)) {
        Some(4u16)
    } else if eq_ic(name, fg_name(5)) {
        Some(5u16)
    } else if eq_ic(name, fg_name(6)) {
        Some(6u16)
    } else if eq_ic(name, fg_name(7)) {
        Some(7u16)
    } else if eq_ic(name, fg_name(8)) {
        Some(8u16)
    } else if eq_ic(name, fg_name(9)) {
        Some(9u16)
    } else if eq_ic(name, fg_name(10)) {
        Some(10u16)
    } else if eq_ic(name, fg_name(11)) {
        Some(11u16)
    } else if eq_ic(name, fg_name(12)) {
        Some(12u16)
    } else if eq_ic(name, fg_name(13)) {
        Some(13u16)
    } else if eq_ic(name, fg_name(14)) {
        Some(14u16)
    } else if eq_ic(name, fg_name(15)) {
        Some(15u16)
    } else {
        None
    }
}

/// Attribute value of a named color: the foreground value, or for a
/// background the same value shifted into bits 4-7.
pub open spec fn color_value(name: Seq<char>, is_background: bool) -> Option<u16> {
    match color_fore(name) {
        Some(f) => Some(if is_background { (f * 16) as u16 } else { f }),
        None => None,
    }
}

/// Message of the error returned for an unknown color name.
pub open spec fn invalid_color_message(name: Seq<char>) -> Seq<char> {
    "Invalid color name: "@ + name
}

/// Result of parsing a color name.
pub open spec fn parse_color_name_result(name: Seq<char>, is_background: bool, r: Result<u16, AppError>) -> bool {
    match color_value(name, is_background) {
        Some(v) => r == Ok::<u16, AppError>(v),
        None => r matches Err(AppError::InvalidArg(m)) && m@ == invalid_color_message(name),
    }
}

/// Foreground value of `v[lo..hi]` as a color name.
fn color_fore_range(v: &Vec<char>, lo: usize, hi: usize) -> (r: Option<u16>)
    requires
        lo <= hi <= v.len(),
    ensures
        r == color_fore(v@.subrange(lo as int, hi as int)),
{
    let mut i: u16 = 0;
    while i < 16
        invariant
            lo <= hi <= v.len(),
            i <= 16,
            forall|j: u16| j < i ==> !eq_ic(v@.subrange(lo as int, hi as int), #[trigger] fg_name(j)),
        decreases 16 - i,
    {
        let name = fg_name_str(i);
        if eq_ic_range(v, lo, hi, &chars_of(name)) {
            return Some(i);
        }
        i = i + 1;
    }
    None
}

/// Name of the foreground color `v` as a string slice.
fn fg_name_str(v: u16) -> (r: &'static str)
    requires
        v < 16,
    ensures
        r@ == fg_name(v),
{
    if v == 0 {
        "Black"
    } else if v == 1 {
        "Blue"
    } else if v == 2 {
        "Green"
    } else if v == 3 {
        "Cyan"
    } else if v == 4 {
        "Red"
    } else if v == 5 {
        "Magenta"
    } else if v == 6 {
        "Brown"
    } else if v == 7 {
        "LightGrey"
    } else if v == 8 {
        "DarkGrey"
    } else if v == 9 {
        "LightBlue"
    } else if v == 10 {
        "LightGreen"
    } else if v == 11 {
        "LightCyan"
    } else if v == 12 {
        "LightRed"
    } else if v == 13 {
        "LightMagenta"
    } else if v == 14 {
        "Yellow"
    } else {
        "White"
    }
}

/// Attribute value of the color named by `v[lo..hi]`.
pub fn color_value_range(v: &Vec<char>, lo: usize, hi: usize, is_background: bool) -> (r: Option<u16>)
    requires
        lo <= hi <= v.len(),
    ensures
        r == color_value(v@.subrange(lo as int, hi as int), is_background),
{
    match color_fore_range(v, lo, hi) {
        Some(f) => Some(if is_background { f * 16 } else { f }),
        None => None,
    }
}

/// Parses a single color name (ASCII case-insensitive) into its attribute
/// value; `is_background` selects the background-shifted value.
pub fn parse_color_name(name: &str, is_background: bool) -> (r: Result<u16, AppError>)
    ensures
        parse_color_name_result(name@, is_background, r),
{
    let v = chars_of(name);
    assert(v@.subrange(0, v@.len() as int) =~= v@);
    match color_value_range(&v, 0, v.len(), is_background) {
        Some(x) => Ok(x),
        None => Err(AppError::InvalidArg(concat("Invalid color name: ", name))),
    }
}

/// Name of the foreground color of an attribute word.
pub fn color_name_from_fg(value: u16) -> (r: Option<&'static str>)
    ensures
        r matches Some(s) && s@ == fg_name(value & FC_MASK),
{
    let fg = value & FC_MASK;
    assert(fg < 16) by (bit_vector)
        requires
            fg == value & 0x0F,
    ;
    Some(fg_name_str(fg))
}

/// Result of parsing a color specification `"Fore [on Back]"`: the pieces
/// are trimmed, `" on "` is found ASCII case-insensitively, an empty or
/// unknown background counts as black, and an unknown foreground is an error.
pub open spec fn color_spec_result(spec: Seq<char>, r: Result<u16, AppError>) -> bool {
    match find(lower_seq(spec), " on "@) {
        Some(pos) => {
            let fore = trim(spec.take(pos));
            let back = trim(spec.skip(pos + 4));
            match color_value(fore, false) {
                None => r matches Err(AppError::InvalidArg(m)) && m@ == invalid_color_message(fore),
                Some(f) => r == Ok::<u16, AppError>(
                    f | match color_value(back, true) {
                        Some(b) => if back.len() == 0 { 0u16 } else { b },
                        None => 0u16,
                    },
                ),
            }
        },
        None => parse_color_name_result(trim(spec), false, r),
    }
}

/// Parses a color specification of the form `"FgColor [on BgColor]"`.
pub fn parse_color_spec(spec: &str) -> (r: Result<u16, AppError>)
    ensures
        color_spec_result(spec@, r),
{
    let v = chars_of(spec);
    let lower = lower_range(&v, 0, v.len());
    assert(v@.subrange(0, v@.len() as int) =~= v@);
    let on = chars_of(" on ");
    match find_seq(&lower, &on) {
        Some(pos) => {
            proof {
                reveal_strlit(" on ");
                crate::text::lemma_find_from_spec(lower@, on@, 0);
            }
            let (fa, fb) = trim_range(&v, 0, pos);
            let (ba, bb) = trim_range(&v, pos + 4, v.len());
            assert(v@.take(pos as int) =~= v@.subrange(0, pos as int));
            assert(v@.skip(pos + 4) =~= v@.subrange(pos + 4, v@.len() as int));
            match color_value_range(&v, fa, fb, false) {
                None => {
                    let name = string_of_range(&v, fa, fb);
                    Err(AppError::InvalidArg(concat("Invalid color name: ", name.as_str())))
                },
                Some(f) => {
                    let b = if ba == bb {
                        0
                    } else {
                        match color_value_range(&v, ba, bb, true) {
                            Some(b) => b,
                            None => 0,
                        }
                    };
                    Ok(f | b)
                },
            }
        },
        None => {
            let (a, b) = trim_range(&v, 0, v.len());
            match color_value_range(&v, a, b, false) {
                Some(x) => Ok(x),
                None => {
                    let name = string_of_range(&v, a, b);
                    Err(AppError::InvalidArg(concat("Invalid color name: ", name.as_str())))
                },
            }
        },
    }
}

/// Strings that differ in length, or in a letter at `k` regardless of
/// ASCII case, are not equal ignoring case.
proof fn lemma_not_eq_ic(a: Seq<char>, b: Seq<char>, k: int)
    requires
        a.len() != b.len() || (0 <= k < a.len() == b.len() && lower_char(a[k]) != lower_char(b[k])),
    ensures
        !eq_ic(a, b),
{
    if eq_ic(a, b) {
        assert(lower_seq(a).len() == a.len());
        assert(lower_seq(b).len() == b.len());
        if a.len() == b.len() {
            assert(lower_seq(a)[k] == lower_seq(b)[k]);
        }
    }
}

/// The sixteen color names are distinct, ignoring ASCII case.
proof fn lemma_color_names_distinct(u: u16, w: u16)
    requires
        u < 16,
        w < 16,
        u != w,
    ensures
        !eq_ic(fg_name(u), fg_name(w)),
{
    reveal_strlit("Black");
    reveal_strlit("Blue");
    reveal_strlit("Green");
    reveal_strlit("Cyan");
    reveal_strlit("Red");
    reveal_strlit("Magenta");
    reveal_strlit("Brown");
    reveal_strlit("LightGrey");
    reveal_strlit("DarkGrey");
    reveal_strlit("LightBlue");
    reveal_strlit("LightGreen");
    reveal_strlit("LightCyan");
    reveal_strlit("LightRed");
    reveal_strlit("LightMagenta");
    reveal_strlit("Yellow");
    reveal_strlit("White");
    let a = fg_name(u);
    let b = fg_name(w);
    if a.len() != b.len() {
        lemma_not_eq_ic(a, b, 0);
    } else if lower_char(a[0]) != lower_char(b[0]) {
        lemma_not_eq_ic(a, b, 0);
    } else if lower_char(a[2]) != lower_char(b[2]) {
        lemma_not_eq_ic(a, b, 2);
    } else {
        lemma_not_eq_ic(a, b, 5);
    }
}

/// Parsing the name of a foreground color gives that color back, as a
/// foreground and, shifted, as a background.
pub proof fn lemma_color_name_roundtrip(v: u16)
    requires
        v < 16,
    ensures
        color_value(fg_name(v), false) == Some(v),
        color_value(fg_name(v), true) == Some((v * 16) as u16),
{
    assert forall|u: u16| u < v implies !eq_ic(fg_name(v), #[trigger] fg_name(u)) by {
        lemma_color_names_distinct(v, u);
    }
    assert(eq_ic(fg_name(v), fg_name(v)));
    assert(color_fore(fg_name(v)) == Some(v)) by {
        assert(!eq_ic(fg_name(v), fg_name(0)) || v == 0);
        assert(!eq_ic(fg_name(v), fg_name(1)) || v <= 1);
        assert(!eq_ic(fg_name(v), fg_name(2)) || v <= 2);
        assert(!eq_ic(fg_name(v), fg_name(3)) || v <= 3);
        assert(!eq_ic(fg_name(v), fg_name(4)) || v <= 4);
        assert(!eq_ic(fg_name(v), fg_name(5)) || v <= 5);
        assert(!eq_ic(fg_name(v), fg_name(6)) || v <= 6);
        assert(!eq_ic(fg_name(v), fg_name(7)) || v <= 7);
        assert(!eq_ic(fg_name(v), fg_name(8)) || v <= 8);
        assert(!eq_ic(fg_name(v), fg_name(9)) || v <= 9);
        assert(!eq_ic(fg_name(v), fg_name(10)) || v <= 10);
        assert(!eq_ic(fg_name(v), fg_name(11)) || v <= 11);
        assert(!eq_ic(fg_name(v), fg_name(12)) || v <= 12);
        assert(!eq_ic(fg_name(v), fg_name(13)) || v <= 13);
        assert(!eq_ic(fg_name(v), fg_name(14)) || v <= 14);
    }
}

/// The name that `color_name_from_fg` gives for any attribute parses back,
/// with `parse_color_name` as a foreground, to the attribute's foreground
/// (its low four bits), and as a background to that color shifted up.
pub proof fn lemma_name_lookup_parses_back(value: u16, r_fore: Result<u16, AppError>, r_back: Result<u16, AppError>)
    requires
        parse_color_name_result(fg_name(value & FC_MASK), false, r_fore),
        parse_color_name_result(fg_name(value & FC_MASK), true, r_back),
    ensures
        r_fore == Ok::<u16, AppError>(value & FC_MASK),
        r_back == Ok::<u16, AppError>(((value & FC_MASK) * 16) as u16),
{
    assert((value & FC_MASK) < 16) by (bit_vector)
        requires
            FC_MASK == 0x0Fu16,
    ;
    lemma_color_name_roundtrip(value & FC_MASK);
}

} // verus!
