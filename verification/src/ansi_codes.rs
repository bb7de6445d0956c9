//! ANSI escape sequences for console attribute words.

use vstd::prelude::*;
use crate::text::{decimal, push_char, push_decimal};

verus! {

/// Reset all attributes.
pub const RESET_ALL: &'static str = "\x1b[0m";

pub const FG_BLACK: i32 = 30;
pub const FG_RED: i32 = 31;
pub const FG_GREEN: i32 = 32;
pub const FG_YELLOW: i32 = 33;
pub const FG_BLUE: i32 = 34;
pub const FG_MAGENTA: i32 = 35;
pub const FG_CYAN: i32 = 36;
pub const FG_WHITE: i32 = 37;

/// Background code = foreground code + 10.
pub const BG_OFFSET: i32 = 10;

/// Bright variant = base code + 60.
pub const BRIGHT_OFFSET: i32 = 60;

/// Console color index (0-7: black, blue, green, cyan, red, magenta,
/// yellow, white) to ANSI foreground code.
pub const CONSOLE_COLOR_TO_ANSI: [i32; 8] = [
    FG_BLACK,
    FG_BLUE,
    FG_GREEN,
    FG_CYAN,
    FG_RED,
    FG_MAGENTA,
    FG_YELLOW,
    FG_WHITE,
];

/// ANSI foreground code of a console color index 0-7.
pub open spec fn ansi_base(i: int) -> int {
    if i == 0 {
        30
    } else if i == 1 {
        34
    } else if i == 2 {
        32
    } else if i == 3 {
        36
    } else if i == 4 {
        31
    } else if i == 5 {
        35
    } else if i == 6 {
        33
    } else {
        37
    }
}

/// ANSI code for a 4-bit console color: the base code of its low three
/// bits, plus 60 when the intensity bit is set.
pub open spec fn ansi_code(index: int) -> int {
    ansi_base(index % 8) + if index >= 8 { 60int } else { 0int }
}

/// The SGR sequence `ESC[{fg};{bg}m` for an attribute word.
pub open spec fn sgr_text(attr: u16) -> Seq<char> {
    "\x1b["@ + decimal(ansi_code((attr % 16) as int) as nat) + ";"@ + decimal(
        (ansi_code(((attr / 16) % 16) as int) + 10) as nat,
    ) + "m"@
}

/// Appends the ANSI SGR sequence for a console attribute word.
pub fn write_sgr(buf: &mut String, attr: u16)
    ensures
        final(buf)@ == old(buf)@ + sgr_text(attr),
{
    let fg_index = (attr & 0x0F) as usize;
    let bg_index = ((attr >> 4) & 0x0F) as usize;
    assert(attr & 0x0F == attr % 16 && (attr >> 4) & 0x0F == (attr / 16) % 16) by (bit_vector);
    assert(fg_index & 0x07 == fg_index % 8 && bg_index & 0x07 == bg_index % 8) by (bit_vector)
        requires
            fg_index < 16,
            bg_index < 16,
    ;
    assert((fg_index & 0x08 != 0) == (fg_index >= 8) && (bg_index & 0x08 != 0) == (bg_index
        >= 8)) by (bit_vector)
        requires
            fg_index < 16,
            bg_index < 16,
    ;
    let mut fg_code = CONSOLE_COLOR_TO_ANSI[fg_index & 0x07];
    let mut bg_code = CONSOLE_COLOR_TO_ANSI[bg_index & 0x07] + BG_OFFSET;
    if fg_index & 0x08 != 0 {
        fg_code += BRIGHT_OFFSET;
    }
    if bg_index & 0x08 != 0 {
        bg_code += BRIGHT_OFFSET;
    }
    push_char(buf, '\x1b');
    push_char(buf, '[');
    push_decimal(buf, fg_code as u64);
    push_char(buf, ';');
    push_decimal(buf, bg_code as u64);
    push_char(buf, 'm');
    proof {
        reveal_strlit("\x1b[");
        reveal_strlit(";");
        reveal_strlit("m");
    }
    assert(buf@ =~= old(buf)@ + sgr_text(attr));
}

} // verus!
