//! Command-line argument parsing.
//!
//! Switches start with `/` or `-` (long switches also with `--`).  Short
//! switches are one letter, optionally followed by `-` to turn them off
//! (`/m-`) or by a parameter (`/o:-d`, `/a:hs`, `/t:c`).  Long switches
//! (`--tree`, `--depth=3`, `--size Auto`) are names of three or more bytes,
//! matched case-insensitively.  Other arguments are file masks.
//!
//! `Switches` gives a command line as mathematical values, and `parse_args`
//! states the result of parsing an argument list.

pub mod parser;

use vstd::prelude::*;
use crate::config::Config;
use crate::config::env_overrides::parse_i32;

use crate::file_info::{FILE_ATTRIBUTE_ARCHIVE, FILE_ATTRIBUTE_COMPRESSED, FILE_ATTRIBUTE_DIRECTORY, FILE_ATTRIBUTE_ENCRYPTED, FILE_ATTRIBUTE_HIDDEN, FILE_ATTRIBUTE_INTEGRITY_STREAM, FILE_ATTRIBUTE_NOT_CONTENT_INDEXED, FILE_ATTRIBUTE_NO_SCRUB_DATA, FILE_ATTRIBUTE_OFFLINE, FILE_ATTRIBUTE_PINNED, FILE_ATTRIBUTE_READONLY, FILE_ATTRIBUTE_RECALL_ON_DATA_ACCESS, FILE_ATTRIBUTE_RECALL_ON_OPEN, FILE_ATTRIBUTE_REPARSE_POINT, FILE_ATTRIBUTE_SPARSE_FILE, FILE_ATTRIBUTE_SYSTEM, FILE_ATTRIBUTE_TEMPORARY, FILE_ATTRIBUTE_UNPINNED};
use crate::text::{decimal, eq_ic, find_char, lower_char, utf8_len};

verus! {

/// Sort attribute.
#[derive(Debug, Clone, Copy, PartialEq, Eq, Structural)]
pub enum SortOrder {
    /// Unsorted (file-system order).
    Default,
    /// /O:N, alphabetic by name.
    Name,
    /// /O:E, alphabetic by extension.
    Extension,
    /// /O:S, smallest first.
    Size,
    /// /O:D, oldest first.
    Date,
}

/// Number of sort attributes.
pub const SORT_ORDER_COUNT: usize = 5;

/// Direction of the primary sort attribute.
#[derive(Debug, Clone, Copy, PartialEq, Eq, Structural)]
pub enum SortDirection {
    Ascending,
    Descending,
}

/// Which file time is shown and sorted on.
#[derive(Debug, Clone, Copy, PartialEq, Eq, Structural)]
pub enum TimeField {
    /// /T:W, last write time (default).
    Written,
    /// /T:C, creation time.
    Creation,
    /// /T:A, last access time.
    Access,
}

/// How file sizes are shown.
#[derive(Debug, Clone, Copy, PartialEq, Eq, Structural)]
pub enum SizeFormat {
    /// Not set: tree mode uses Auto, other modes use Bytes.
    Default,
    /// Abbreviated, Explorer style.
    Auto,
    /// Exact byte count with separators.
    Bytes,
}

/// Which plain switches the command line itself set (on or off); those
/// keep their value over the configuration's defaults.
#[derive(Debug, Clone, Copy, PartialEq, Eq, Structural)]
pub struct SetOnCommandLine {
    pub recurse: bool,
    pub wide_listing: bool,
    pub bare_listing: bool,
    pub perf_timer: bool,
    pub multi_threaded: bool,
    pub show_owner: bool,
    pub show_streams: bool,
}

/// No switch set on the command line.
pub open spec fn none_set() -> SetOnCommandLine {
    SetOnCommandLine {
        recurse: false,
        wide_listing: false,
        bare_listing: false,
        perf_timer: false,
        multi_threaded: false,
        show_owner: false,
        show_streams: false,
    }
}

/// Parsed command line.
#[derive(Debug)]
pub struct CommandLine {
    pub recurse: bool,
    pub attrs_required: u32,
    pub attrs_excluded: u32,
    pub sort_order: SortOrder,
    pub sort_direction: SortDirection,
    /// Sort attributes in the order they are compared: the requested one,
    /// then the tie-breakers.
    pub sort_preference: [SortOrder; 5],
    pub masks: Vec<String>,
    pub wide_listing: bool,
    pub bare_listing: bool,
    pub perf_timer: bool,
    pub multi_threaded: bool,
    pub show_env_help: bool,
    pub show_config: bool,
    pub show_settings: bool,
    pub show_help: bool,
    /// Prefix of the last switch seen (`-` or `/`).
    pub switch_prefix: char,
    pub time_field: TimeField,
    pub show_owner: bool,
    pub show_streams: bool,
    pub icons: Option<bool>,
    pub debug: bool,
    pub tree: Option<bool>,
    pub max_depth: i32,
    pub tree_indent: i32,
    pub size_format: SizeFormat,
    pub set_aliases: bool,
    pub get_aliases: bool,
    pub remove_aliases: bool,
    pub what_if: bool,
    /// The plain switches given on the command line.
    pub set_on_command_line: SetOnCommandLine,
}

/// Every setting of a command line but its masks.
#[derive(Debug, Clone, Copy)]
pub struct Switches {
    pub recurse: bool,
    pub attrs_required: u32,
    pub attrs_excluded: u32,
    pub sort_order: SortOrder,
    pub sort_direction: SortDirection,
    pub sort_preference: [SortOrder; 5],
    pub wide_listing: bool,
    pub bare_listing: bool,
    pub perf_timer: bool,
    pub multi_threaded: bool,
    pub show_env_help: bool,
    pub show_config: bool,
    pub show_settings: bool,
    pub show_help: bool,
    pub switch_prefix: char,
    pub time_field: TimeField,
    pub show_owner: bool,
    pub show_streams: bool,
    pub icons: Option<bool>,
    pub debug: bool,
    pub tree: Option<bool>,
    pub max_depth: i32,
    pub tree_indent: i32,
    pub size_format: SizeFormat,
    pub set_aliases: bool,
    pub get_aliases: bool,
    pub remove_aliases: bool,
    pub what_if: bool,
    pub set_on_command_line: SetOnCommandLine,
}

/// The settings before any argument is applied.
pub open spec fn default_switches() -> Switches {
    Switches {
        recurse: false,
        attrs_required: 0,
        attrs_excluded: 0,
        sort_order: SortOrder::Default,
        sort_direction: SortDirection::Ascending,
        sort_preference: [
            SortOrder::Default,
            SortOrder::Name,
            SortOrder::Date,
            SortOrder::Extension,
            SortOrder::Size,
        ],
        wide_listing: false,
        bare_listing: false,
        perf_timer: false,
        multi_threaded: true,
        show_env_help: false,
        show_config: false,
        show_settings: false,
        show_help: false,
        switch_prefix: '-',
        time_field: TimeField::Written,
        show_owner: false,
        show_streams: false,
        icons: None,
        debug: false,
        tree: None,
        max_depth: 0,
        tree_indent: 4,
        size_format: SizeFormat::Default,
        set_aliases: false,
        get_aliases: false,
        remove_aliases: false,
        what_if: false,
        set_on_command_line: none_set(),
    }
}

/// Whether the byte at index 1 of the UTF-8 encoding of `s` is the ASCII
/// character `b`: the first character is ASCII and the second is `b`.
pub open spec fn byte1_is(s: Seq<char>, b: char) -> bool {
    s.len() >= 2 && (s[0] as u32) < 0x80 && s[1] == b
}

/// A switch body names a long switch: three or more bytes, and neither `:`
/// nor `-` as its second byte.
pub open spec fn is_long(s: Seq<char>) -> bool {
    utf8_len(s) >= 3 && !byte1_is(s, ':') && !byte1_is(s, '-')
}

/// Text of an `i32` in decimal, with a leading `-` when negative.
pub open spec fn int_text(n: int) -> Seq<char> {
    if n < 0 {
        seq!['-'] + decimal((-n) as nat)
    } else {
        decimal(n as nat)
    }
}

/// Attribute flags selected by a (lowercase) `/A` letter; 0 for letters
/// that select nothing.
pub open spec fn attr_switch_flag(c: char) -> u32 {
    if c == 'd' {
        FILE_ATTRIBUTE_DIRECTORY
    } else if c == 'h' {
        FILE_ATTRIBUTE_HIDDEN
    } else if c == 's' {
        FILE_ATTRIBUTE_SYSTEM
    } else if c == 'r' {
        FILE_ATTRIBUTE_READONLY
    } else if c == 'a' {
        FILE_ATTRIBUTE_ARCHIVE
    } else if c == 't' {
        FILE_ATTRIBUTE_TEMPORARY
    } else if c == 'e' {
        FILE_ATTRIBUTE_ENCRYPTED
    } else if c == 'c' {
        FILE_ATTRIBUTE_COMPRESSED
    } else if c == 'p' {
        FILE_ATTRIBUTE_REPARSE_POINT
    } else if c == '0' {
        FILE_ATTRIBUTE_SPARSE_FILE
    } else if c == 'x' {
        FILE_ATTRIBUTE_NOT_CONTENT_INDEXED
    } else if c == 'i' {
        FILE_ATTRIBUTE_INTEGRITY_STREAM
    } else if c == 'b' {
        FILE_ATTRIBUTE_NO_SCRUB_DATA
    } else if c == 'o' {
        FILE_ATTRIBUTE_OFFLINE | FILE_ATTRIBUTE_RECALL_ON_OPEN | FILE_ATTRIBUTE_RECALL_ON_DATA_ACCESS
    } else if c == 'l' {
        FILE_ATTRIBUTE_UNPINNED
    } else if c == 'v' {
        FILE_ATTRIBUTE_PINNED
    } else {
        0
    }
}

/// `/O` parameter: an optional `:`, an optional `-` for descending order,
/// then exactly one of `n`, `e`, `s`, `d` (any case).  Gives the sort
/// attribute and whether the order is descending.
#[verifier::opaque]
pub open spec fn order_parse(arg: Seq<char>) -> Option<(SortOrder, bool)> {
    let s = if arg.len() > 0 && arg[0] == ':' {
        arg.skip(1)
    } else {
        arg
    };
    let desc = s.len() > 0 && s[0] == '-';
    let t = if desc {
        s.skip(1)
    } else {
        s
    };
    if t.len() != 1 {
        None
    } else {
        let k = lower_char(t[0]);
        if k == 'n' {
            Some((SortOrder::Name, desc))
        } else if k == 'e' {
            Some((SortOrder::Extension, desc))
        } else if k == 's' {
            Some((SortOrder::Size, desc))
        } else if k == 'd' {
            Some((SortOrder::Date, desc))
        } else {
            None
        }
    }
}

/// Letters of an `/A` parameter, in order, applied to the required and
/// excluded flag sets: `-` makes the next letter an exclusion (two in a
/// row are an error); other letters add their flags to the required or
/// excluded set; unknown letters are ignored.
#[verifier::opaque]
pub open spec fn attr_scan(s: Seq<char>, excluding: bool, req: u32, exc: u32) -> Option<(u32, u32)>
    decreases s.len(),
{
    if s.len() == 0 {
        Some((req, exc))
    } else {
        let ch = lower_char(s[0]);
        if ch == '-' {
            if excluding {
                None
            } else {
                attr_scan(s.drop_first(), true, req, exc)
            }
        } else {
            let f = attr_switch_flag(ch);
            if f == 0 {
                attr_scan(s.drop_first(), false, req, exc)
            } else if excluding {
                attr_scan(s.drop_first(), false, req, exc | f)
            } else {
                attr_scan(s.drop_first(), false, req | f, exc)
            }
        }
    }
}

/// `/A` parameter applied to the flag sets `req` and `exc`: an optional
/// `:`, then at least one letter.
#[verifier::opaque]
pub open spec fn attr_parse(arg: Seq<char>, req: u32, exc: u32) -> Option<(u32, u32)> {
    let s = if arg.len() > 0 && arg[0] == ':' {
        arg.skip(1)
    } else {
        arg
    };
    if s.len() == 0 {
        None
    } else {
        attr_scan(s, false, req, exc)
    }
}

/// The `/A` letters are the attribute column's letters: for each
/// attribute of the display map, `/A:` with its letter (either case)
/// requires exactly that attribute, and `/A:-` with it excludes exactly
/// that attribute, whatever was required or excluded before.
pub proof fn lemma_attr_letters_match_display(k: int, req: u32, exc: u32)
    requires
        0 <= k < 9,
    ensures
        ({
            let (flag, letter) = crate::file_info::attribute_map_seq()[k];
            &&& attr_parse(seq![':', letter], req, exc) == Some((req | flag, exc))
            &&& attr_parse(seq![':', lower_char(letter)], req, exc) == Some((req | flag, exc))
            &&& attr_parse(seq![':', '-', letter], req, exc) == Some((req, exc | flag))
        }),
{
    reveal(attr_parse);
    reveal_with_fuel(attr_scan, 3);
    let (flag, letter) = crate::file_info::attribute_map_seq()[k];
    let a = seq![':', letter];
    let b = seq![':', lower_char(letter)];
    let c = seq![':', '-', letter];
    assert(a.skip(1) =~= seq![letter]);
    assert(b.skip(1) =~= seq![lower_char(letter)]);
    assert(c.skip(1) =~= seq!['-', letter]);
    assert(seq![letter].drop_first() =~= Seq::<char>::empty());
    assert(seq![lower_char(letter)].drop_first() =~= Seq::<char>::empty());
    assert(seq!['-', letter].drop_first() =~= seq![letter]);
    assert(lower_char(lower_char(letter)) == lower_char(letter));
    assert(attr_switch_flag(lower_char(letter)) == flag);
    assert(flag != 0);
}

/// `/T` parameter: an optional `:`, then `c`, `a` or `w` (any case);
/// characters after it are ignored.
#[verifier::opaque]
pub open spec fn time_parse(arg: Seq<char>) -> Option<TimeField> {
    let f: Option<char> = if arg.len() == 0 {
        None
    } else if arg[0] == ':' {
        if arg.len() < 2 {
            None
        } else {
            Some(arg[1])
        }
    } else {
        Some(arg[0])
    };
    match f {
        None => None,
        Some(ch) => {
            let l = lower_char(ch);
            if l == 'c' {
                Some(TimeField::Creation)
            } else if l == 'a' {
                Some(TimeField::Access)
            } else if l == 'w' {
                Some(TimeField::Written)
            } else {
                None
            }
        },
    }
}

/// Whether `ch` is a one-letter switch.
pub open spec fn is_short_switch_letter(ch: char) -> bool {
    ch == 's' || ch == 'w' || ch == 'b' || ch == 'p' || ch == 'm' || ch == '?' || ch == 'o' || ch
        == 'a' || ch == 't'
}

/// `a` when `cond` holds, else `b`.
pub open spec fn cond_val<T>(cond: bool, a: T, b: T) -> T {
    if cond {
        a
    } else {
        b
    }
}

/// The value held by `o`, or `d` when there is none.
pub open spec fn opt_or<T>(o: Option<T>, d: T) -> T {
    match o {
        Some(x) => x,
        None => d,
    }
}

/// A flag that `cond` turns on and that otherwise keeps `cur`.
pub open spec fn set_if(cur: bool, cond: bool) -> bool {
    cur || cond
}

/// An optional setting that `on` sets to `true`, `off` to `false`, and that
/// otherwise keeps `cur`.
pub open spec fn tri_state(cur: Option<bool>, on: bool, off: bool) -> Option<bool> {
    if on {
        Some(true)
    } else if off {
        Some(false)
    } else {
        cur
    }
}

/// `p` with its first entry replaced by `o`.
pub open spec fn with_first(p: [SortOrder; 5], o: SortOrder) -> [SortOrder; 5] {
    [o, p[1], p[2], p[3], p[4]]
}

/// Error of a one-letter switch body: an empty body, a letter that is not
/// a switch, or a bad parameter of `o`, `a` or `t` (see `order_parse`,
/// `attr_parse`, `time_parse`); all with an empty message.
#[verifier::opaque]
pub open spec fn short_error(c: Switches, s: Seq<char>) -> Option<Seq<char>> {
    let ch = lower_char(s[0]);
    let rest = s.skip(1);
    if s.len() == 0 || !is_short_switch_letter(ch) || (ch == 'o' && order_parse(rest) is None) || (
    ch == 'a' && attr_parse(rest, c.attrs_required, c.attrs_excluded) is None) || (ch == 't'
        && time_parse(rest) is None) {
        Some(Seq::empty())
    } else {
        None
    }
}

/// Effect of a valid one-letter switch body: the letter (any case) names
/// the switch; `s`, `w`, `b`, `p` and `m` are turned off by a `-` after the
/// letter; `o`, `a` and `t` take the rest of the body as their parameter.
#[verifier::opaque]
pub open spec fn short_apply(c: Switches, s: Seq<char>) -> Switches {
    letter_apply(c, lower_char(s[0]), !byte1_is(s, '-'), s.skip(1))
}

/// Effect of the one-letter switch `ch` (lowercase), turned on or off by
/// `on`, with the parameter `rest`.  Each field is the one the letter sets,
/// or the field of `c`.
pub open spec fn letter_apply(c: Switches, ch: char, on: bool, rest: Seq<char>) -> Switches {
    let o = opt_or(order_parse(rest), (c.sort_order, false));
    let a = opt_or(attr_parse(rest, c.attrs_required, c.attrs_excluded), (c.attrs_required, c.attrs_excluded));
    let t = opt_or(time_parse(rest), c.time_field);
    Switches {
        recurse: cond_val(ch == 's', on, c.recurse),
        wide_listing: cond_val(ch == 'w', on, c.wide_listing),
        bare_listing: cond_val(ch == 'b', on, c.bare_listing),
        perf_timer: cond_val(ch == 'p', on, c.perf_timer),
        multi_threaded: cond_val(ch == 'm', on, c.multi_threaded),
        show_help: set_if(c.show_help, ch == '?'),
        sort_order: cond_val(ch == 'o', o.0, c.sort_order),
        sort_direction: cond_val(ch == 'o' && o.1, SortDirection::Descending, c.sort_direction),
        sort_preference: with_first(c.sort_preference, cond_val(ch == 'o', o.0, c.sort_preference[0])),
        attrs_required: cond_val(ch == 'a', a.0, c.attrs_required),
        attrs_excluded: cond_val(ch == 'a', a.1, c.attrs_excluded),
        time_field: cond_val(ch == 't', t, c.time_field),
        set_on_command_line: SetOnCommandLine {
            recurse: c.set_on_command_line.recurse || ch == 's',
            wide_listing: c.set_on_command_line.wide_listing || ch == 'w',
            bare_listing: c.set_on_command_line.bare_listing || ch == 'b',
            perf_timer: c.set_on_command_line.perf_timer || ch == 'p',
            multi_threaded: c.set_on_command_line.multi_threaded || ch == 'm',
            ..c.set_on_command_line
        },
        ..c
    }
}

/// Number of the long switch without a value named by `key` (any case),
/// in the order env, config, settings, owner, streams, icons, icons-, tree,
/// tree-, set-aliases, get-aliases, remove-aliases, whatif, debug; 0 when
/// it names none.
#[verifier::opaque]
pub open spec fn flag_index(key: Seq<char>) -> int {
    if eq_ic(key, "env"@) {
        1
    } else if eq_ic(key, "config"@) {
        2
    } else if eq_ic(key, "settings"@) {
        3
    } else if eq_ic(key, "owner"@) {
        4
    } else if eq_ic(key, "streams"@) {
        5
    } else if eq_ic(key, "icons"@) {
        6
    } else if eq_ic(key, "icons-"@) {
        7
    } else if eq_ic(key, "tree"@) {
        8
    } else if eq_ic(key, "tree-"@) {
        9
    } else if eq_ic(key, "set-aliases"@) {
        10
    } else if eq_ic(key, "get-aliases"@) {
        11
    } else if eq_ic(key, "remove-aliases"@) {
        12
    } else if eq_ic(key, "whatif"@) {
        13
    } else if eq_ic(key, "debug"@) {
        14
    } else {
        0
    }
}

/// Effect of the long switch without a value numbered `k` (see
/// `flag_index`).
pub open spec fn flag_apply(c: Switches, k: int) -> Switches {
    Switches {
        show_env_help: set_if(c.show_env_help, k == 1),
        show_config: set_if(c.show_config, k == 2),
        show_settings: set_if(c.show_settings, k == 3),
        show_owner: set_if(c.show_owner, k == 4),
        show_streams: set_if(c.show_streams, k == 5),
        icons: tri_state(c.icons, k == 6, k == 7),
        tree: tri_state(c.tree, k == 8, k == 9),
        set_aliases: set_if(c.set_aliases, k == 10),
        get_aliases: set_if(c.get_aliases, k == 11),
        remove_aliases: set_if(c.remove_aliases, k == 12),
        what_if: set_if(c.what_if, k == 13),
        set_on_command_line: SetOnCommandLine {
            show_owner: c.set_on_command_line.show_owner || k == 4,
            show_streams: c.set_on_command_line.show_streams || k == 5,
            ..c.set_on_command_line
        },
        debug: set_if(c.debug, k == 14),
        ..c
    }
}

/// Number of the long switch with a value named by `key` (any case): 1
/// for `depth`, 2 for `treeindent`, 3 for `size`; 0 when it names none.
#[verifier::opaque]
pub open spec fn value_key(key: Seq<char>) -> int {
    if eq_ic(key, "depth"@) {
        1
    } else if eq_ic(key, "treeindent"@) {
        2
    } else if eq_ic(key, "size"@) {
        3
    } else {
        0
    }
}

/// Error of the long switch with a value numbered `k` (see `value_key`):
/// `depth` takes a positive integer, `treeindent` an integer from 1 to 8,
/// `size` `Auto` or `Bytes` (any case); other names are errors with an
/// empty message.
#[verifier::opaque]
pub open spec fn value_error(k: int, value: Seq<char>) -> Option<Seq<char>> {
    if k == 1 {
        match parse_i32(value) {
            None => Some("Invalid depth value: "@ + value),
            Some(n) => if n <= 0 {
                Some("--Depth must be a positive integer, got "@ + int_text(n as int))
            } else {
                None
            },
        }
    } else if k == 2 {
        match parse_i32(value) {
            None => Some("Invalid tree indent value: "@ + value),
            Some(n) => if n < 1 || n > 8 {
                Some("--TreeIndent must be between 1 and 8, got "@ + int_text(n as int))
            } else {
                None
            },
        }
    } else if k == 3 {
        if eq_ic(value, "auto"@) || eq_ic(value, "bytes"@) {
            None
        } else {
            Some("Invalid --Size value '"@ + value + "'. Use Auto or Bytes"@)
        }
    } else {
        Some(Seq::empty())
    }
}

/// Effect of a valid long switch with a value numbered `k`.
pub open spec fn value_apply(c: Switches, k: int, value: Seq<char>) -> Switches {
    Switches {
        max_depth: cond_val(k == 1, opt_or(parse_i32(value), c.max_depth), c.max_depth),
        tree_indent: cond_val(k == 2, opt_or(parse_i32(value), c.tree_indent), c.tree_indent),
        size_format: cond_val(
            k == 3,
            cond_val(eq_ic(value, "auto"@), SizeFormat::Auto, SizeFormat::Bytes),
            c.size_format,
        ),
        ..c
    }
}

/// Name of a long switch body: the text before the first `=`.
pub open spec fn long_key(s: Seq<char>) -> Seq<char> {
    match find_char(s, '=') {
        Some(p) => s.take(p),
        None => s,
    }
}

/// Value of a long switch body at argument `idx`: the text after the first
/// `=`, else the next argument (whose index is given too); `None` when
/// there is neither.
pub open spec fn long_value(s: Seq<char>, args: Seq<Seq<char>>, idx: int) -> Option<(Seq<char>, int)> {
    match find_char(s, '=') {
        Some(p) => Some((s.skip(p + 1), idx)),
        None => if idx + 1 < args.len() {
            Some((args[idx + 1], idx + 1))
        } else {
            None
        },
    }
}

/// Error of a long switch body at argument `idx`: none for a switch
/// without a value; a missing value; or the value's error.
pub open spec fn long_error(s: Seq<char>, args: Seq<Seq<char>>, idx: int) -> Option<Seq<char>> {
    let key = long_key(s);
    if flag_index(key) != 0 {
        None
    } else {
        match long_value(s, args, idx) {
            None => Some("Switch --"@ + key + " requires a value"@),
            Some((value, j)) => value_error(value_key(key), value),
        }
    }
}

/// Effect of a valid long switch body at argument `idx`, with the index of
/// the last argument used.
pub open spec fn long_apply(c: Switches, s: Seq<char>, args: Seq<Seq<char>>, idx: int) -> (Switches, int) {
    let key = long_key(s);
    if flag_index(key) != 0 {
        (flag_apply(c, flag_index(key)), idx)
    } else {
        let (value, j) = long_value(s, args, idx)->0;
        (value_apply(c, value_key(key), value), j)
    }
}

/// Whether `name` is one of the long switches (any case).
pub open spec fn is_known_long(name: Seq<char>) -> bool {
    eq_ic(name, "env"@) || eq_ic(name, "config"@) || eq_ic(name, "owner"@) || eq_ic(
        name,
        "streams"@,
    ) || eq_ic(name, "debug"@) || eq_ic(name, "icons"@) || eq_ic(name, "tree"@) || eq_ic(
        name,
        "depth"@,
    ) || eq_ic(name, "treeindent"@) || eq_ic(name, "size"@) || eq_ic(name, "set-aliases"@)
        || eq_ic(name, "get-aliases"@) || eq_ic(name, "remove-aliases"@) || eq_ic(
        name,
        "whatif"@,
    )
}

/// Message for a long switch given with a single `-`, with a hint when the
/// name (before `=`, without a trailing `-`) is a known long switch.
pub open spec fn single_dash_message(s: Seq<char>) -> Seq<char> {
    let name = long_key(s);
    let lookup = if name.len() > 0 && name.last() == '-' {
        name.drop_last()
    } else {
        name
    };
    if is_known_long(lookup) {
        "Unknown switch: -"@ + name + ".  Did you mean --"@ + name + "?"@
    } else {
        "Unknown switch: -"@ + name + "."@
    }
}

/// Body of a switch argument that starts with `prefix`: the text after
/// `--`, or after the one-character prefix.
pub open spec fn switch_text(arg: Seq<char>, prefix: char) -> Seq<char> {
    if prefix == '-' && arg.len() > 1 && arg[1] == '-' {
        arg.skip(2)
    } else {
        arg.skip(1)
    }
}

/// Error of a switch argument that starts with `prefix` at index `idx`: a
/// long switch after a single `-`, or the error of its body.
pub open spec fn switch_error(c: Switches, arg: Seq<char>, prefix: char, args: Seq<Seq<char>>, idx: int) -> Option<Seq<char>> {
    let dd = prefix == '-' && arg.len() > 1 && arg[1] == '-';
    let s = switch_text(arg, prefix);
    if is_long(s) && !dd && prefix == '-' {
        Some(single_dash_message(s))
    } else if is_long(s) {
        long_error(s, args, idx)
    } else {
        short_error(Switches { switch_prefix: prefix, ..c }, s)
    }
}

/// Effect of a valid switch argument, with the index of the last argument
/// used; the prefix is recorded.
pub open spec fn switch_apply(c: Switches, arg: Seq<char>, prefix: char, args: Seq<Seq<char>>, idx: int) -> (Switches, int) {
    let c1 = Switches { switch_prefix: prefix, ..c };
    let s = switch_text(arg, prefix);
    if is_long(s) {
        long_apply(c1, s, args, idx)
    } else {
        (short_apply(c1, s), idx)
    }
}

/// Whether argument `i` is a switch: it starts with `-` or `/`.
pub open spec fn is_switch_arg(arg: Seq<char>) -> bool {
    arg.len() > 0 && (arg[0] == '-' || arg[0] == '/')
}

/// Whether argument `i` is a mask: it is not empty and not a switch.
pub open spec fn is_mask_arg(arg: Seq<char>) -> bool {
    arg.len() > 0 && !is_switch_arg(arg)
}

/// The arguments from index `i` on, in order, applied to the settings `c`
/// and the masks `ms`: empty arguments are skipped, switches change the
/// settings (a long switch may use the next argument as its value), other
/// arguments are appended to the masks; the first error stops.
pub open spec fn parse_args_from(c: Switches, ms: Seq<Seq<char>>, args: Seq<Seq<char>>, i: int) -> Result<(Switches, Seq<Seq<char>>), Seq<char>>
    decreases args.len() - i,
{
    if i < 0 || i >= args.len() {
        Ok((c, ms))
    } else {
        let arg = args[i];
        if is_switch_arg(arg) {
            match switch_error(c, arg, arg[0], args, i) {
                Some(e) => Err(e),
                None => {
                    let (c2, j) = switch_apply(c, arg, arg[0], args, i);
                    if i <= j < args.len() {
                        parse_args_from(c2, ms, args, j + 1)
                    } else {
                        Err(Seq::empty())
                    }
                },
            }
        } else if is_mask_arg(arg) {
            parse_args_from(c, ms.push(arg), args, i + 1)
        } else {
            parse_args_from(c, ms, args, i + 1)
        }
    }
}

/// The first conflict among the switches of a parsed command line.
#[verifier::opaque]
pub open spec fn switch_conflict(c: Switches) -> Option<Seq<char>> {
    let tree = c.tree == Some(true);
    let aliases = (if c.set_aliases { 1int } else { 0 }) + (if c.get_aliases { 1int } else { 0 }) + (
    if c.remove_aliases {
        1int
    } else {
        0
    });
    if aliases > 1 {
        Some("--set-aliases, --get-aliases, and --remove-aliases are mutually exclusive"@)
    } else if aliases == 1 && (tree || c.wide_listing || c.bare_listing || c.recurse || c.show_owner
        || c.show_streams || c.show_env_help || c.show_config || c.show_settings || c.sort_order
        != SortOrder::Default || c.attrs_required != 0 || c.attrs_excluded != 0) {
        Some("Alias switches cannot be combined with directory listing switches"@)
    } else if c.what_if && !c.set_aliases && !c.remove_aliases {
        Some("--whatif is only valid with --set-aliases or --remove-aliases"@)
    } else if tree && c.wide_listing {
        Some("--Tree cannot be combined with /W (wide listing)"@)
    } else if tree && c.bare_listing {
        Some("--Tree cannot be combined with /B (bare listing)"@)
    } else if tree && c.recurse {
        Some("--Tree cannot be combined with /S (recurse)"@)
    } else if tree && c.show_owner {
        Some("--Tree cannot be combined with --Owner"@)
    } else if tree && c.size_format == SizeFormat::Bytes {
        Some("--Tree cannot be combined with --Size=Bytes"@)
    } else if c.max_depth > 0 && !tree {
        Some("--Depth requires --Tree"@)
    } else if c.tree_indent != 4 && !tree {
        Some("--TreeIndent requires --Tree"@)
    } else {
        None
    }
}

/// Result of parsing an argument list (without the program name): the
/// settings and the masks, or the message of the invalid-argument error.
pub open spec fn parse_args(args: Seq<Seq<char>>) -> Result<(Switches, Seq<Seq<char>>), Seq<char>> {
    match parse_args_from(default_switches(), Seq::empty(), args, 0) {
        Err(e) => Err(e),
        Ok((c, ms)) => match switch_conflict(c) {
            Some(e) => Err(e),
            None => Ok((c, ms)),
        },
    }
}

/// The command line with settings `s` and masks `masks`.
pub open spec fn command_line_of(s: Switches, masks: Vec<String>) -> CommandLine {
    CommandLine {
        recurse: s.recurse,
        attrs_required: s.attrs_required,
        attrs_excluded: s.attrs_excluded,
        sort_order: s.sort_order,
        sort_direction: s.sort_direction,
        sort_preference: s.sort_preference,
        masks,
        wide_listing: s.wide_listing,
        bare_listing: s.bare_listing,
        perf_timer: s.perf_timer,
        multi_threaded: s.multi_threaded,
        show_env_help: s.show_env_help,
        show_config: s.show_config,
        show_settings: s.show_settings,
        show_help: s.show_help,
        switch_prefix: s.switch_prefix,
        time_field: s.time_field,
        show_owner: s.show_owner,
        show_streams: s.show_streams,
        icons: s.icons,
        debug: s.debug,
        tree: s.tree,
        max_depth: s.max_depth,
        tree_indent: s.tree_indent,
        size_format: s.size_format,
        set_aliases: s.set_aliases,
        get_aliases: s.get_aliases,
        remove_aliases: s.remove_aliases,
        what_if: s.what_if,
        set_on_command_line: s.set_on_command_line,
    }
}

/// Size format in effect: an unset format is `Auto` in tree mode and
/// `Bytes` otherwise.
pub open spec fn resolved_size(c: CommandLine) -> SizeFormat {
    match c.size_format {
        SizeFormat::Default => if c.tree == Some(true) {
            SizeFormat::Auto
        } else {
            SizeFormat::Bytes
        },
        other => other,
    }
}

/// A switch's value after the configuration's default `o`: the command
/// line's value `v` when the command line set it, else the configured value
/// if there is one, else `v`.
pub open spec fn or_keep(v: bool, from_cli: bool, o: Option<bool>) -> bool {
    if from_cli {
        v
    } else {
        match o {
            Some(x) => x,
            None => v,
        }
    }
}

/// The command line after the configuration's switch defaults: plain
/// switches not set on the command line take the configured value when
/// there is one; icons, tree, depth,
/// tree indent and size format only when the command line left them unset
/// (depth and indent also only in tree mode).
pub open spec fn with_config_defaults(c: CommandLine, config: Config) -> CommandLine {
    let icons = if c.icons is None {
        config.icons
    } else {
        c.icons
    };
    let tree = if c.tree is None {
        config.tree
    } else {
        c.tree
    };
    let tree_on = tree == Some(true);
    CommandLine {
        wide_listing: or_keep(c.wide_listing, c.set_on_command_line.wide_listing, config.wide_listing),
        bare_listing: or_keep(c.bare_listing, c.set_on_command_line.bare_listing, config.bare_listing),
        recurse: or_keep(c.recurse, c.set_on_command_line.recurse, config.recurse),
        perf_timer: or_keep(c.perf_timer, c.set_on_command_line.perf_timer, config.perf_timer),
        multi_threaded: or_keep(c.multi_threaded, c.set_on_command_line.multi_threaded, config.multi_threaded),
        show_owner: or_keep(c.show_owner, c.set_on_command_line.show_owner, config.show_owner),
        show_streams: or_keep(c.show_streams, c.set_on_command_line.show_streams, config.show_streams),
        icons,
        tree,
        max_depth: if c.max_depth == 0 && config.max_depth is Some && tree_on {
            config.max_depth->0
        } else {
            c.max_depth
        },
        tree_indent: if c.tree_indent == 4 && config.tree_indent is Some && tree_on {
            config.tree_indent->0
        } else {
            c.tree_indent
        },
        size_format: if c.size_format == SizeFormat::Default && config.size_format is Some {
            config.size_format->0
        } else {
            c.size_format
        },
        ..c
    }
}

/// Strings as character sequences.
pub open spec fn strings_view(v: Seq<String>) -> Seq<Seq<char>> {
    v.map_values(|a: String| a@)
}

/// Arguments as character sequences.
pub open spec fn vecs_view(v: Seq<Vec<char>>) -> Seq<Seq<char>> {
    v.map_values(|a: Vec<char>| a@)
}

/// Arguments as character sequences.
pub open spec fn strs_view(v: Seq<&str>) -> Seq<Seq<char>> {
    v.map_values(|a: &str| a@)
}

/// Sequences of different lengths, or whose first characters differ
/// regardless of case, are not equal regardless of case.
proof fn lemma_differ_ic(a: Seq<char>, b: Seq<char>)
    requires
        a.len() != b.len() || (a.len() > 0 && b.len() > 0 && lower_char(a[0]) != lower_char(b[0])),
    ensures
        !eq_ic(a, b),
{
    if eq_ic(a, b) {
        assert(crate::text::lower_seq(a).len() == crate::text::lower_seq(b).len());
        if a.len() > 0 && b.len() > 0 {
            assert(crate::text::lower_seq(a)[0] == crate::text::lower_seq(b)[0]);
        }
    }
}

/// Sequences that differ in length or in their first character
/// (regardless of case) are not equal regardless of case.
proof fn lemma_differ_ic_if(a: Seq<char>, b: Seq<char>)
    ensures
        (a.len() != b.len() || (a.len() > 0 && b.len() > 0 && lower_char(a[0]) != lower_char(b[0]))) ==> !eq_ic(a, b),
{
    if a.len() != b.len() || (a.len() > 0 && b.len() > 0 && lower_char(a[0]) != lower_char(b[0])) {
        lemma_differ_ic(a, b);
    }
}

/// The switch field that a configuration entry of a letter sets, with the
/// value it sets.
proof fn lemma_switch_for_letter(ch: char, on: bool)
    requires
        ch == 's' || ch == 'w' || ch == 'b' || ch == 'p' || ch == 'm',
    ensures
        crate::config::env_overrides::switch_for(if on { seq![ch] } else { seq![ch, '-'] }) == Some((
            if ch == 'w' {
                0int
            } else if ch == 'b' {
                1int
            } else if ch == 's' {
                2int
            } else if ch == 'p' {
                3int
            } else {
                4int
            },
            on,
        )),
{
    reveal_strlit("s");
    reveal_strlit("s-");
    reveal_strlit("w");
    reveal_strlit("w-");
    reveal_strlit("b");
    reveal_strlit("b-");
    reveal_strlit("p");
    reveal_strlit("p-");
    reveal_strlit("m");
    reveal_strlit("m-");
    let e = if on { seq![ch] } else { seq![ch, '-'] };
    assert(e.len() >= 1 && e[0] == ch);
    assert(lower_char(ch) == ch);
    lemma_differ_ic_if(e, "s"@);
    lemma_differ_ic_if(e, "s-"@);
    lemma_differ_ic_if(e, "w"@);
    lemma_differ_ic_if(e, "w-"@);
    lemma_differ_ic_if(e, "b"@);
    lemma_differ_ic_if(e, "b-"@);
    lemma_differ_ic_if(e, "p"@);
    lemma_differ_ic_if(e, "p-"@);
    lemma_differ_ic_if(e, "m"@);
    lemma_differ_ic_if(e, "m-"@);
    assert(lower_char('s') == 's' && lower_char('w') == 'w' && lower_char('b') == 'b' && lower_char('p') == 'p' && lower_char('m') == 'm');
    if on {
        assert(e =~= seq![ch]);
    } else {
        assert(e =~= seq![ch, '-']);
    }
    if ch == 's' {
        if on { assert(e =~= "s"@); } else { assert(e =~= "s-"@); }
    } else if ch == 'w' {
        if on { assert(e =~= "w"@); } else { assert(e =~= "w-"@); }
    } else if ch == 'b' {
        if on { assert(e =~= "b"@); } else { assert(e =~= "b-"@); }
    } else if ch == 'p' {
        if on { assert(e =~= "p"@); } else { assert(e =~= "p-"@); }
    } else {
        if on { assert(e =~= "m"@); } else { assert(e =~= "m-"@); }
    }
    assert(eq_ic(e, e));
}

/// A plain switch named in the `RCDIR` variable or the configuration file
/// (`S`, `W`, `B`, `P`, `M`, or with `-` after the letter to turn it off)
/// acts on a command line that leaves it unset as the same letter does on
/// the command line: after the entry is applied to the configuration
/// (`cfg` becoming `cfg2`), the recurse, wide, bare, timer and
/// multi-threading switches of the resulting command line are those that
/// the letter gives the command line otherwise resulting.
pub proof fn lemma_config_switch_letter_matches_command_line(
    ch: char,
    on: bool,
    c: CommandLine,
    cfg: Config,
    cfg2: Config,
    sw: Switches,
    rest: Seq<char>,
)
    requires
        ch == 's' || ch == 'w' || ch == 'b' || ch == 'p' || ch == 'm',
        c.set_on_command_line == none_set(),
        crate::config::env_overrides::switch_for(if on { seq![ch] } else { seq![ch, '-'] }) matches Some((f, v)) ==> cfg2@
            == crate::config::env_overrides::apply_switch(cfg@, f, v),
        sw.recurse == with_config_defaults(c, cfg).recurse,
        sw.wide_listing == with_config_defaults(c, cfg).wide_listing,
        sw.bare_listing == with_config_defaults(c, cfg).bare_listing,
        sw.perf_timer == with_config_defaults(c, cfg).perf_timer,
        sw.multi_threaded == with_config_defaults(c, cfg).multi_threaded,
    ensures
        crate::config::env_overrides::switch_for(if on { seq![ch] } else { seq![ch, '-'] }) is Some,
        ({
            let r = with_config_defaults(c, cfg2);
            let l = letter_apply(sw, ch, on, rest);
            &&& r.recurse == l.recurse
            &&& r.wide_listing == l.wide_listing
            &&& r.bare_listing == l.bare_listing
            &&& r.perf_timer == l.perf_timer
            &&& r.multi_threaded == l.multi_threaded
        }),
{
    lemma_switch_for_letter(ch, on);
    let e = if on { seq![ch] } else { seq![ch, '-'] };
    let fv = crate::config::env_overrides::switch_for(e)->0;
    let f = fv.0;
    assert(fv.1 == on);
    assert(f == (if ch == 'w' { 0int } else if ch == 'b' { 1int } else if ch == 's' { 2int } else if ch == 'p' { 3int } else { 4int }));
    assert(cfg2@.switches == cfg@.switches.update(f, Some(on)));
    assert(cfg@.switches[0] == cfg.wide_listing);
    assert(cfg2@.switches[0] == cfg2.wide_listing);
    assert(cfg@.switches[1] == cfg.bare_listing);
    assert(cfg2@.switches[1] == cfg2.bare_listing);
    assert(cfg@.switches[2] == cfg.recurse);
    assert(cfg2@.switches[2] == cfg2.recurse);
    assert(cfg@.switches[3] == cfg.perf_timer);
    assert(cfg2@.switches[3] == cfg2.perf_timer);
    assert(cfg@.switches[4] == cfg.multi_threaded);
    assert(cfg2@.switches[4] == cfg2.multi_threaded);
    assert(cfg2.wide_listing == (if f == 0 { Some(on) } else { cfg.wide_listing }));
    assert(cfg2.bare_listing == (if f == 1 { Some(on) } else { cfg.bare_listing }));
    assert(cfg2.recurse == (if f == 2 { Some(on) } else { cfg.recurse }));
    assert(cfg2.perf_timer == (if f == 3 { Some(on) } else { cfg.perf_timer }));
    assert(cfg2.multi_threaded == (if f == 4 { Some(on) } else { cfg.multi_threaded }));
}

} // verus!
