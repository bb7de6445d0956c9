//! The parser: executable code for the rules stated in `command_line`.

use vstd::prelude::*;
use crate::config::Config;
use crate::config::env_overrides::{parse_i32, parse_i32_chars};
use crate::ehm::{AppError, invalid_arg_message};
use crate::file_info::{FILE_ATTRIBUTE_ARCHIVE, FILE_ATTRIBUTE_COMPRESSED, FILE_ATTRIBUTE_DIRECTORY, FILE_ATTRIBUTE_ENCRYPTED, FILE_ATTRIBUTE_HIDDEN, FILE_ATTRIBUTE_INTEGRITY_STREAM, FILE_ATTRIBUTE_NOT_CONTENT_INDEXED, FILE_ATTRIBUTE_NO_SCRUB_DATA, FILE_ATTRIBUTE_OFFLINE, FILE_ATTRIBUTE_PINNED, FILE_ATTRIBUTE_READONLY, FILE_ATTRIBUTE_RECALL_ON_DATA_ACCESS, FILE_ATTRIBUTE_RECALL_ON_OPEN, FILE_ATTRIBUTE_REPARSE_POINT, FILE_ATTRIBUTE_SPARSE_FILE, FILE_ATTRIBUTE_SYSTEM, FILE_ATTRIBUTE_TEMPORARY, FILE_ATTRIBUTE_UNPINNED};
use crate::text::{chars_of, decimal, eq_ic_str, find_ch, find_char, push_char, push_decimal, slice_vec, string_of, to_lower_char, utf8_len_at_least};
use super::{
    attr_parse, attr_scan, attr_switch_flag, byte1_is, command_line_of, cond_val, default_switches,
    flag_apply, flag_index, int_text, is_known_long, long_apply, long_error, long_key, long_value,
    opt_or, or_keep, order_parse, parse_args, with_first, letter_apply, parse_args_from, resolved_size, set_if, short_apply,
    short_error, single_dash_message, SizeFormat, SortDirection, SortOrder, strings_view,
    strs_view, switch_apply, switch_conflict, switch_error, switch_text, Switches, CommandLine,
    time_parse, TimeField, tri_state, value_apply, value_error, value_key, vecs_view,
    with_config_defaults, SetOnCommandLine,
};

verus! {

/// `s` with `text(n)` appended, where `text` is `int_text`.
pub fn push_int(s: &mut String, n: i32)
    ensures
        final(s)@ == old(s)@ + int_text(n as int),
{
    if n < 0 {
        push_char(s, '-');
        let m: i64 = 0 - (n as i64);
        push_decimal(s, m as u64);
        assert(seq!['-'] + decimal((-(n as int)) as nat) =~= seq!['-'].add(decimal((-(n as int)) as nat)));
        assert(old(s)@ + int_text(n as int) =~= old(s)@.push('-') + decimal((-(n as int)) as nat));
    } else {
        push_decimal(s, n as u64);
    }
}

/// An invalid-argument error with the message `a`, the characters `v`, and
/// `b`.
fn invalid_with(a: &str, v: &Vec<char>, b: &str) -> (e: AppError)
    ensures
        invalid_arg_message(e) == Some(a@ + v@ + b@),
{
    let mut m = String::new();
    crate::text::push_str(&mut m, a);
    crate::text::push_chars(&mut m, v);
    crate::text::push_str(&mut m, b);
    AppError::InvalidArg(m)
}

/// An invalid-argument error with the message `a` followed by the
/// characters `v`.
fn invalid_prefixed(a: &str, v: &Vec<char>) -> (e: AppError)
    ensures
        invalid_arg_message(e) == Some(a@ + v@),
{
    let mut m = String::new();
    crate::text::push_str(&mut m, a);
    crate::text::push_chars(&mut m, v);
    AppError::InvalidArg(m)
}

/// An invalid-argument error with an empty message.
fn invalid_empty() -> (e: AppError)
    ensures
        invalid_arg_message(e) == Some(Seq::<char>::empty()),
{
    AppError::InvalidArg(String::new())
}

/// Flags selected by a lowercase `/A` letter (see `attr_switch_flag`).
fn attr_switch_flag_of(c: char) -> (f: u32)
    ensures
        f == attr_switch_flag(c),
{
    if c == 'd' {
        FILE_ATTRIBUTE_DIRECTORY
    } else if c == 'h' {
        FILE_ATTRIBUTE_HIDDEN
    } else if c == 's' {
        FILE_ATTRIBUTE_SYSTEM
    } else if c == 'r' {
        FILE_ATTRIBUTE_READONLY
    } else if c == 'a' {
        FILE_ATTRIBUTE_ARCHIVE
    } else if c == 't' {
        FILE_ATTRIBUTE_TEMPORARY
    } else if c == 'e' {
        FILE_ATTRIBUTE_ENCRYPTED
    } else if c == 'c' {
        FILE_ATTRIBUTE_COMPRESSED
    } else if c == 'p' {
        FILE_ATTRIBUTE_REPARSE_POINT
    } else if c == '0' {
        FILE_ATTRIBUTE_SPARSE_FILE
    } else if c == 'x' {
        FILE_ATTRIBUTE_NOT_CONTENT_INDEXED
    } else if c == 'i' {
        FILE_ATTRIBUTE_INTEGRITY_STREAM
    } else if c == 'b' {
        FILE_ATTRIBUTE_NO_SCRUB_DATA
    } else if c == 'o' {
        FILE_ATTRIBUTE_OFFLINE | FILE_ATTRIBUTE_RECALL_ON_OPEN | FILE_ATTRIBUTE_RECALL_ON_DATA_ACCESS
    } else if c == 'l' {
        FILE_ATTRIBUTE_UNPINNED
    } else if c == 'v' {
        FILE_ATTRIBUTE_PINNED
    } else {
        0
    }
}

/// Whether `name` is one of the long switches (see `is_known_long`).
fn is_recognized_long_switch(name: &Vec<char>) -> (r: bool)
    ensures
        r == is_known_long(name@),
{
    let n = name.len();
    assert(name@.subrange(0, n as int) =~= name@);
    eq_ic_str(name, 0, n, "env") || eq_ic_str(name, 0, n, "config") || eq_ic_str(name, 0, n, "owner")
        || eq_ic_str(name, 0, n, "streams") || eq_ic_str(name, 0, n, "debug") || eq_ic_str(
        name,
        0,
        n,
        "icons",
    ) || eq_ic_str(name, 0, n, "tree") || eq_ic_str(name, 0, n, "depth") || eq_ic_str(
        name,
        0,
        n,
        "treeindent",
    ) || eq_ic_str(name, 0, n, "size") || eq_ic_str(name, 0, n, "set-aliases") || eq_ic_str(
        name,
        0,
        n,
        "get-aliases",
    ) || eq_ic_str(name, 0, n, "remove-aliases") || eq_ic_str(name, 0, n, "whatif")
}

/// The error for a long switch given with a single `-`.
fn reject_single_dash_long_switch(s: &Vec<char>) -> (e: AppError)
    ensures
        invalid_arg_message(e) == Some(single_dash_message(s@)),
{
    let name = match find_ch(s, '=') {
        Some(p) => slice_vec(s, 0, p),
        None => slice_vec(s, 0, s.len()),
    };
    assert(s@.subrange(0, s.len() as int) =~= s@);
    let nl = name.len();
    let lookup = if nl > 0 && name[nl - 1] == '-' {
        slice_vec(&name, 0, nl - 1)
    } else {
        slice_vec(&name, 0, nl)
    };
    assert(name@.subrange(0, nl as int) =~= name@);
    assert(nl > 0 ==> name@.subrange(0, nl - 1) =~= name@.drop_last());
    if is_recognized_long_switch(&lookup) {
        let mut m = String::new();
        crate::text::push_str(&mut m, "Unknown switch: -");
        crate::text::push_chars(&mut m, &name);
        crate::text::push_str(&mut m, ".  Did you mean --");
        crate::text::push_chars(&mut m, &name);
        crate::text::push_str(&mut m, "?");
        AppError::InvalidArg(m)
    } else {
        invalid_with("Unknown switch: -", &name, ".")
    }
}

/// `a` when `cond` holds, else `b` (see `cond_val`).
fn cond_value<T: Copy>(cond: bool, a: T, b: T) -> (r: T)
    ensures
        r == cond_val(cond, a, b),
{
    if cond {
        a
    } else {
        b
    }
}

/// See `set_if`.
fn set_when(cur: bool, cond: bool) -> (r: bool)
    ensures
        r == set_if(cur, cond),
{
    cur || cond
}

/// See `tri_state`.
fn tri_state_of(cur: Option<bool>, on: bool, off: bool) -> (r: Option<bool>)
    ensures
        r == tri_state(cur, on, off),
{
    if on {
        Some(true)
    } else if off {
        Some(false)
    } else {
        cur
    }
}

/// The value held by `o`, or `d` when there is none (see `opt_or`).
fn value_or<T: Copy>(o: Option<T>, d: T) -> (r: T)
    ensures
        r == opt_or(o, d),
{
    match o {
        Some(x) => x,
        None => d,
    }
}

/// Whether the second byte of the UTF-8 encoding of `s` is the ASCII
/// character `b` (see `byte1_is`).
fn second_byte_is(s: &Vec<char>, b: char) -> (r: bool)
    ensures
        r == byte1_is(s@, b),
{
    s.len() >= 2 && (s[0] as u32) < 0x80 && s[1] == b
}

/// `cli` when it is set, else `cfg`.
fn unset_or(cli: Option<bool>, cfg: Option<bool>) -> (r: Option<bool>)
    ensures
        r == (if cli is None {
            cfg
        } else {
            cli
        }),
{
    if cli.is_none() {
        cfg
    } else {
        cli
    }
}

/// `cfg`'s value when `cli` still has its default `unset`, `applies`
/// holds and `cfg` has a value; else `cli`.
fn default_or(cli: i32, unset: i32, applies: bool, cfg: Option<i32>) -> (r: i32)
    ensures
        r == (if cli == unset && applies && cfg is Some {
            cfg->0
        } else {
            cli
        }),
{
    if cli == unset && applies && cfg.is_some() {
        cfg.unwrap()
    } else {
        cli
    }
}

/// `cfg`'s value when `cli` is `SizeFormat::Default` and `cfg` has a value;
/// else `cli`.
fn size_or(cli: SizeFormat, cfg: Option<SizeFormat>) -> (r: SizeFormat)
    ensures
        r == (if cli == SizeFormat::Default && cfg is Some {
            cfg->0
        } else {
            cli
        }),
{
    match cli {
        SizeFormat::Default => value_or(cfg, cli),
        _ => cli,
    }
}

/// Number of the long switch without a value named by `key` (see
/// `flag_index`).
fn flag_index_of(key: &Vec<char>) -> (k: u8)
    ensures
        k as int == flag_index(key@),
{
    reveal(flag_index);
    let n = key.len();
    assert(key@.subrange(0, n as int) =~= key@);
    if eq_ic_str(key, 0, n, "env") {
        1
    } else if eq_ic_str(key, 0, n, "config") {
        2
    } else if eq_ic_str(key, 0, n, "settings") {
        3
    } else if eq_ic_str(key, 0, n, "owner") {
        4
    } else if eq_ic_str(key, 0, n, "streams") {
        5
    } else if eq_ic_str(key, 0, n, "icons") {
        6
    } else if eq_ic_str(key, 0, n, "icons-") {
        7
    } else if eq_ic_str(key, 0, n, "tree") {
        8
    } else if eq_ic_str(key, 0, n, "tree-") {
        9
    } else if eq_ic_str(key, 0, n, "set-aliases") {
        10
    } else if eq_ic_str(key, 0, n, "get-aliases") {
        11
    } else if eq_ic_str(key, 0, n, "remove-aliases") {
        12
    } else if eq_ic_str(key, 0, n, "whatif") {
        13
    } else if eq_ic_str(key, 0, n, "debug") {
        14
    } else {
        0
    }
}

/// Number of the long switch with a value named by `key` (see
/// `value_key`).
fn value_key_of(key: &Vec<char>) -> (k: u8)
    ensures
        k as int == value_key(key@),
{
    reveal(value_key);
    let n = key.len();
    assert(key@.subrange(0, n as int) =~= key@);
    if eq_ic_str(key, 0, n, "depth") {
        1
    } else if eq_ic_str(key, 0, n, "treeindent") {
        2
    } else if eq_ic_str(key, 0, n, "size") {
        3
    } else {
        0
    }
}

/// The error of the long switch with a value numbered `k`, as an
/// invalid-argument error (see `value_error`); `parsed` is the value parsed
/// as an `i32`.
fn value_error_of(k: u8, value: &Vec<char>, parsed: &Option<i32>) -> (r: Option<AppError>)
    requires
        *parsed == parse_i32(value@),
    ensures
        r is None <==> value_error(k as int, value@) is None,
        r is Some ==> invalid_arg_message(r->0) == value_error(k as int, value@),
{
    reveal(value_error);
    let vn = value.len();
    assert(value@.subrange(0, vn as int) =~= value@);
    if k == 1 || k == 2 {
        if parsed.is_none() {
            if k == 1 {
                return Some(invalid_prefixed("Invalid depth value: ", value));
            } else {
                return Some(invalid_prefixed("Invalid tree indent value: ", value));
            }
        }
        let d = parsed.unwrap();
        if k == 1 && d <= 0 {
            let mut m = String::new();
            crate::text::push_str(&mut m, "--Depth must be a positive integer, got ");
            push_int(&mut m, d);
            return Some(AppError::InvalidArg(m));
        }
        if k == 2 && (d < 1 || d > 8) {
            let mut m = String::new();
            crate::text::push_str(&mut m, "--TreeIndent must be between 1 and 8, got ");
            push_int(&mut m, d);
            return Some(AppError::InvalidArg(m));
        }
        None
    } else if k == 3 {
        if eq_ic_str(value, 0, vn, "auto") || eq_ic_str(value, 0, vn, "bytes") {
            None
        } else {
            Some(invalid_with("Invalid --Size value '", value, "'. Use Auto or Bytes"))
        }
    } else {
        Some(invalid_empty())
    }
}

/// A switch's value after the configuration's default (see `or_keep`).
fn cli_or_config(v: bool, from_cli: bool, o: Option<bool>) -> (r: bool)
    ensures
        r == or_keep(v, from_cli, o),
{
    if from_cli {
        v
    } else {
        match o {
            Some(x) => x,
            None => v,
        }
    }
}

impl Default for CommandLine {
    fn default() -> (r: Self)
        ensures
            r == command_line_of(default_switches(), r.masks),
            r.masks@.len() == 0,
    {
        build_command_line(default_switches_of(), Vec::new())
    }
}

/// Parses an `/O` parameter (see `order_parse`).
fn parse_order(arg: &Vec<char>) -> (r: Option<(SortOrder, bool)>)
    ensures
        r == order_parse(arg@),
{
    reveal(order_parse);
    let n = arg.len();
    let start: usize = if n > 0 && arg[0] == ':' {
        1
    } else {
        0
    };
    let ghost s = if n > 0 && arg@[0] == ':' {
        arg@.skip(1)
    } else {
        arg@
    };
    assert(s =~= arg@.skip(start as int));
    let desc = start < n && arg[start] == '-';
    let i: usize = if desc {
        start + 1
    } else {
        start
    };
    assert((if desc { s.skip(1) } else { s }) =~= arg@.skip(i as int));
    if i + 1 != n {
        return None;
    }
    let k = to_lower_char(arg[i]);
    if k == 'n' {
        Some((SortOrder::Name, desc))
    } else if k == 'e' {
        Some((SortOrder::Extension, desc))
    } else if k == 's' {
        Some((SortOrder::Size, desc))
    } else if k == 'd' {
        Some((SortOrder::Date, desc))
    } else {
        None
    }
}

/// Parses a `/T` parameter (see `time_parse`).
fn parse_time(arg: &Vec<char>) -> (r: Option<TimeField>)
    ensures
        r == time_parse(arg@),
{
    reveal(time_parse);
    let n = arg.len();
    if n == 0 {
        return None;
    }
    let mut f = arg[0];
    if f == ':' {
        if n < 2 {
            return None;
        }
        f = arg[1];
    }
    let l = to_lower_char(f);
    if l == 'c' {
        Some(TimeField::Creation)
    } else if l == 'a' {
        Some(TimeField::Access)
    } else if l == 'w' {
        Some(TimeField::Written)
    } else {
        None
    }
}

/// Applies an `/A` parameter to the flag sets `req` and `exc` (see
/// `attr_parse`).
fn parse_attrs(arg: &Vec<char>, req: u32, exc: u32) -> (r: Option<(u32, u32)>)
    ensures
        r == attr_parse(arg@, req, exc),
{
    reveal(attr_parse);
    reveal(attr_scan);
    let n = arg.len();
    let start: usize = if n > 0 && arg[0] == ':' {
        1
    } else {
        0
    };
    assert((if n > 0 && arg@[0] == ':' { arg@.skip(1) } else { arg@ }) =~= arg@.skip(start as int));
    if start == n {
        return None;
    }
    let mut excluding = false;
    let mut r = req;
    let mut x = exc;
    let mut i = start;
    while i < n
        invariant
            start <= i <= n == arg.len(),
            start < n,
            attr_parse(arg@, req, exc) == attr_scan(arg@.skip(i as int), excluding, r, x),
        decreases n - i,
    {
        reveal(attr_scan);
        let ch = to_lower_char(arg[i]);
        assert(arg@.skip(i as int).drop_first() =~= arg@.skip(i + 1));
        assert(arg@.skip(i as int)[0] == arg@[i as int]);
        if ch == '-' {
            if excluding {
                return None;
            }
            excluding = true;
        } else {
            let f = attr_switch_flag_of(ch);
            if f != 0 {
                if excluding {
                    x = x | f;
                } else {
                    r = r | f;
                }
            }
            excluding = false;
        }
        i = i + 1;
    }
    assert(arg@.skip(n as int) =~= Seq::<char>::empty());
    Some((r, x))
}

/// The error of a one-letter switch body (see `short_error`).
fn short_error_of(c: &Switches, s: &Vec<char>) -> (r: Option<AppError>)
    ensures
        r is Some <==> short_error(*c, s@) is Some,
        r is Some ==> invalid_arg_message(r->0) == short_error(*c, s@),
{
    reveal(short_error);
    let n = s.len();
    if n == 0 {
        return Some(invalid_empty());
    }
    let ch = to_lower_char(s[0]);
    let rest = slice_vec(s, 1, n);
    assert(rest@ =~= s@.skip(1));
    let no_order = parse_order(&rest).is_none();
    let no_attrs = parse_attrs(&rest, c.attrs_required, c.attrs_excluded).is_none();
    let no_time = parse_time(&rest).is_none();
    let letter = ch == 's' || ch == 'w' || ch == 'b' || ch == 'p' || ch == 'm' || ch == '?'
        || ch == 'o' || ch == 'a' || ch == 't';
    if !letter || (ch == 'o' && no_order) || (ch == 'a' && no_attrs) || (ch == 't' && no_time) {
        Some(invalid_empty())
    } else {
        None
    }
}

/// `p` with its first entry replaced by `o` (see `with_first`).
fn with_first_of(p: [SortOrder; 5], o: SortOrder) -> (r: [SortOrder; 5])
    ensures
        r == with_first(p, o),
{
    [o, p[1], p[2], p[3], p[4]]
}

/// The effect of a valid one-letter switch body (see `short_apply`).
fn short_apply_of(c: Switches, s: &Vec<char>) -> (r: Switches)
    requires
        s.len() > 0,
    ensures
        r == short_apply(c, s@),
{
    reveal(short_apply);
    let n = s.len();
    let on = !second_byte_is(s, '-');
    let ch = to_lower_char(s[0]);
    let rest = slice_vec(s, 1, n);
    assert(rest@ =~= s@.skip(1));
    letter_apply_of(c, ch, on, &rest)
}

/// The effect of the one-letter switch `ch` (see `letter_apply`).
fn letter_apply_of(c: Switches, ch: char, on: bool, rest: &Vec<char>) -> (r: Switches)
    ensures
        r == letter_apply(c, ch, on, rest@),
{
    let o = value_or(parse_order(rest), (c.sort_order, false));
    let at = value_or(parse_attrs(rest, c.attrs_required, c.attrs_excluded), (c.attrs_required, c.attrs_excluded));
    let t = value_or(parse_time(rest), c.time_field);
    let first = cond_value(ch == 'o', o.0, c.sort_preference[0]);
    let pref = with_first_of(c.sort_preference, first);
    Switches {
        recurse: cond_value(ch == 's', on, c.recurse),
        wide_listing: cond_value(ch == 'w', on, c.wide_listing),
        bare_listing: cond_value(ch == 'b', on, c.bare_listing),
        perf_timer: cond_value(ch == 'p', on, c.perf_timer),
        multi_threaded: cond_value(ch == 'm', on, c.multi_threaded),
        show_help: set_when(c.show_help, ch == '?'),
        sort_order: cond_value(ch == 'o', o.0, c.sort_order),
        sort_direction: cond_value(ch == 'o' && o.1, SortDirection::Descending, c.sort_direction),
        sort_preference: pref,
        attrs_required: cond_value(ch == 'a', at.0, c.attrs_required),
        attrs_excluded: cond_value(ch == 'a', at.1, c.attrs_excluded),
        time_field: cond_value(ch == 't', t, c.time_field),
        set_on_command_line: SetOnCommandLine {
            recurse: c.set_on_command_line.recurse || ch == 's',
            wide_listing: c.set_on_command_line.wide_listing || ch == 'w',
            bare_listing: c.set_on_command_line.bare_listing || ch == 'b',
            perf_timer: c.set_on_command_line.perf_timer || ch == 'p',
            multi_threaded: c.set_on_command_line.multi_threaded || ch == 'm',
            ..c.set_on_command_line
        },
        ..c
    }
}

/// Applies the long switch without a value numbered `k` (see
/// `flag_apply`).
fn flag_switch_of(c: Switches, k: u8) -> (r: Switches)
    ensures
        r == flag_apply(c, k as int),
{
    Switches {
        show_env_help: set_when(c.show_env_help, k == 1),
        show_config: set_when(c.show_config, k == 2),
        show_settings: set_when(c.show_settings, k == 3),
        show_owner: set_when(c.show_owner, k == 4),
        show_streams: set_when(c.show_streams, k == 5),
        icons: tri_state_of(c.icons, k == 6, k == 7),
        tree: tri_state_of(c.tree, k == 8, k == 9),
        set_aliases: set_when(c.set_aliases, k == 10),
        get_aliases: set_when(c.get_aliases, k == 11),
        remove_aliases: set_when(c.remove_aliases, k == 12),
        what_if: set_when(c.what_if, k == 13),
        set_on_command_line: SetOnCommandLine {
            show_owner: c.set_on_command_line.show_owner || k == 4,
            show_streams: c.set_on_command_line.show_streams || k == 5,
            ..c.set_on_command_line
        },
        debug: set_when(c.debug, k == 14),
        ..c
    }
}

/// Applies the valid long switch with a value numbered `k` (see
/// `value_apply`); `parsed` is the value parsed as an `i32`.
fn value_switch_of(c: Switches, k: u8, value: &Vec<char>, parsed: Option<i32>) -> (r: Switches)
    requires
        parsed == parse_i32(value@),
    ensures
        r == value_apply(c, k as int, value@),
{
    let vn = value.len();
    assert(value@.subrange(0, vn as int) =~= value@);
    let auto = eq_ic_str(value, 0, vn, "auto");
    Switches {
        max_depth: cond_value(k == 1, value_or(parsed, c.max_depth), c.max_depth),
        tree_indent: cond_value(k == 2, value_or(parsed, c.tree_indent), c.tree_indent),
        size_format: cond_value(
            k == 3,
            cond_value(auto, SizeFormat::Auto, SizeFormat::Bytes),
            c.size_format,
        ),
        ..c
    }
}

/// The value of a long switch body at argument `idx` (see `long_value`);
/// `p` is the position of the first `=`, if `has_eq`.
fn long_value_of(s: &Vec<char>, has_eq: bool, p: usize, args: &Vec<Vec<char>>, idx: usize) -> (r: Option<(Vec<char>, usize)>)
    requires
        idx < args.len(),
        has_eq <==> find_char(s@, '=') is Some,
        has_eq ==> find_char(s@, '=') == Some(p as int) && p < s.len(),
    ensures
        r is None <==> long_value(s@, vecs_view(args@), idx as int) is None,
        r is Some ==> long_value(s@, vecs_view(args@), idx as int) == Some(((r->0).0@, (r->0).1 as int)),
        r is Some ==> idx <= (r->0).1 < args.len(),
{
    if has_eq {
        let v = slice_vec(s, p + 1, s.len());
        assert(v@ =~= s@.skip(p + 1));
        Some((v, idx))
    } else if idx + 1 < args.len() {
        let next = &args[idx + 1];
        let v = slice_vec(next, 0, next.len());
        assert(v@ =~= next@);
        assert(vecs_view(args@)[idx + 1] == next@);
        Some((v, idx + 1))
    } else {
        None
    }
}

/// Applies a long switch body at argument `idx` (see `long_error` and
/// `long_apply`); gives the index of the last argument used.
fn long_switch_of(c: Switches, s: &Vec<char>, args: &Vec<Vec<char>>, idx: usize) -> (r: Result<(Switches, usize), AppError>)
    requires
        idx < args.len(),
    ensures
        r is Err <==> long_error(s@, vecs_view(args@), idx as int) is Some,
        r is Err ==> invalid_arg_message(r->Err_0) == long_error(s@, vecs_view(args@), idx as int),
        r is Ok ==> long_apply(c, s@, vecs_view(args@), idx as int) == ((r->Ok_0).0, (r->Ok_0).1 as int),
        r is Ok ==> idx <= (r->Ok_0).1 < args.len(),
{
    let n = s.len();
    assert(s@.subrange(0, n as int) =~= s@);
    let eq = find_ch(s, '=');
    let has_eq = eq.is_some();
    let p: usize = value_or(eq, n);
    let key = slice_vec(s, 0, p);
    assert(key@ =~= long_key(s@));
    let fk = flag_index_of(&key);
    if fk != 0 {
        return Ok((flag_switch_of(c, fk), idx));
    }
    let given = long_value_of(s, has_eq, p, args, idx);
    if given.is_none() {
        return Err(invalid_with("Switch --", &key, " requires a value"));
    }
    let (value, j) = given.unwrap();
    let vk = value_key_of(&key);
    let parsed = parse_i32_chars(&value);
    let err = value_error_of(vk, &value, &parsed);
    if err.is_some() {
        return Err(err.unwrap());
    }
    Ok((value_switch_of(c, vk, &value, parsed), j))
}

/// Applies a switch argument that starts with `prefix` (see `switch_error`
/// and `switch_apply`); gives the index of the last argument used.
fn switch_arg_of(c: Switches, arg: &Vec<char>, prefix: char, args: &Vec<Vec<char>>, idx: usize) -> (r: Result<(Switches, usize), AppError>)
    requires
        idx < args.len(),
        arg.len() >= 1,
    ensures
        r is Err <==> switch_error(c, arg@, prefix, vecs_view(args@), idx as int) is Some,
        r is Err ==> invalid_arg_message(r->Err_0) == switch_error(c, arg@, prefix, vecs_view(args@), idx as int),
        r is Ok ==> switch_apply(c, arg@, prefix, vecs_view(args@), idx as int) == ((r->Ok_0).0, (r->Ok_0).1 as int),
        r is Ok ==> idx <= (r->Ok_0).1 < args.len(),
{
    let n = arg.len();
    let dd = prefix == '-' && n > 1 && arg[1] == '-';
    let s = if dd {
        slice_vec(arg, 2, n)
    } else {
        slice_vec(arg, 1, n)
    };
    assert(s@ =~= switch_text(arg@, prefix));
    let three = utf8_len_at_least(&s, 3);
    let colon = second_byte_is(&s, ':');
    let dash = second_byte_is(&s, '-');
    let long = three && !colon && !dash;
    if long && !dd && prefix == '-' {
        return Err(reject_single_dash_long_switch(&s));
    }
    let c1 = Switches { switch_prefix: prefix, ..c };
    if long {
        return long_switch_of(c1, &s, args, idx);
    }
    let err = short_error_of(&c1, &s);
    if err.is_some() {
        return Err(err.unwrap());
    }
    proof {
        reveal(short_error);
    }
    Ok((short_apply_of(c1, &s), idx))
}

/// Checks settings for conflicts (see `switch_conflict`).
fn validate_switch_combinations(sw: &Switches) -> (r: Result<(), AppError>)
    ensures
        r is Ok <==> switch_conflict(*sw) is None,
        r is Err ==> invalid_arg_message(r->Err_0) == switch_conflict(*sw),
{
    reveal(switch_conflict);
    let tree = sw.tree == Some(true);
    let aliases: u8 = (if sw.set_aliases { 1u8 } else { 0u8 }) + (if sw.get_aliases { 1u8 } else { 0u8 }) + (
    if sw.remove_aliases {
        1u8
    } else {
        0u8
    });
    let msg: &str = if aliases > 1 {
        "--set-aliases, --get-aliases, and --remove-aliases are mutually exclusive"
    } else if aliases == 1 && (tree || sw.wide_listing || sw.bare_listing || sw.recurse
        || sw.show_owner || sw.show_streams || sw.show_env_help || sw.show_config || sw.show_settings
        || !(sw.sort_order == SortOrder::Default) || sw.attrs_required != 0 || sw.attrs_excluded
        != 0) {
        "Alias switches cannot be combined with directory listing switches"
    } else if sw.what_if && !sw.set_aliases && !sw.remove_aliases {
        "--whatif is only valid with --set-aliases or --remove-aliases"
    } else if tree && sw.wide_listing {
        "--Tree cannot be combined with /W (wide listing)"
    } else if tree && sw.bare_listing {
        "--Tree cannot be combined with /B (bare listing)"
    } else if tree && sw.recurse {
        "--Tree cannot be combined with /S (recurse)"
    } else if tree && sw.show_owner {
        "--Tree cannot be combined with --Owner"
    } else if tree && sw.size_format == SizeFormat::Bytes {
        "--Tree cannot be combined with --Size=Bytes"
    } else if sw.max_depth > 0 && !tree {
        "--Depth requires --Tree"
    } else if sw.tree_indent != 4 && !tree {
        "--TreeIndent requires --Tree"
    } else {
        return Ok(());
    };
    Err(AppError::InvalidArg(crate::text::string_from(msg)))
}

/// The command line with settings `s` and masks `masks` (see
/// `command_line_of`).
fn build_command_line(s: Switches, masks: Vec<String>) -> (r: CommandLine)
    ensures
        r == command_line_of(s, masks),
{
    CommandLine {
        recurse: s.recurse,
        attrs_required: s.attrs_required,
        attrs_excluded: s.attrs_excluded,
        sort_order: s.sort_order,
        sort_direction: s.sort_direction,
        sort_preference: s.sort_preference,
        masks,
        wide_listing: s.wide_listing,
        bare_listing: s.bare_listing,
        perf_timer: s.perf_timer,
        multi_threaded: s.multi_threaded,
        show_env_help: s.show_env_help,
        show_config: s.show_config,
        show_settings: s.show_settings,
        show_help: s.show_help,
        switch_prefix: s.switch_prefix,
        time_field: s.time_field,
        show_owner: s.show_owner,
        show_streams: s.show_streams,
        icons: s.icons,
        debug: s.debug,
        tree: s.tree,
        max_depth: s.max_depth,
        tree_indent: s.tree_indent,
        size_format: s.size_format,
        set_aliases: s.set_aliases,
        get_aliases: s.get_aliases,
        remove_aliases: s.remove_aliases,
        what_if: s.what_if,
        set_on_command_line: s.set_on_command_line,
    }
}

/// The settings before any argument is applied.
fn default_switches_of() -> (r: Switches)
    ensures
        r == default_switches(),
{
    Switches {
        recurse: false,
        attrs_required: 0,
        attrs_excluded: 0,
        sort_order: SortOrder::Default,
        sort_direction: SortDirection::Ascending,
        sort_preference: [
            SortOrder::Default,
            SortOrder::Name,
            SortOrder::Date,
            SortOrder::Extension,
            SortOrder::Size,
        ],
        wide_listing: false,
        bare_listing: false,
        perf_timer: false,
        multi_threaded: true,
        show_env_help: false,
        show_config: false,
        show_settings: false,
        show_help: false,
        switch_prefix: '-',
        time_field: TimeField::Written,
        show_owner: false,
        show_streams: false,
        icons: None,
        debug: false,
        tree: None,
        max_depth: 0,
        tree_indent: 4,
        size_format: SizeFormat::Default,
        set_aliases: false,
        get_aliases: false,
        remove_aliases: false,
        what_if: false,
        set_on_command_line: SetOnCommandLine {
            recurse: false,
            wide_listing: false,
            bare_listing: false,
            perf_timer: false,
            multi_threaded: false,
            show_owner: false,
            show_streams: false,
        },
    }
}

impl CommandLine {
    /// Parses an argument list without the program name (see `parse_args`):
    /// the command line holds the parsed settings and masks.
    pub fn parse_from(args: &[&str]) -> (r: Result<Self, AppError>)
        ensures
            r is Ok <==> parse_args(strs_view(args@)) is Ok,
            r is Ok ==> r->Ok_0 == command_line_of(parse_args(strs_view(args@))->Ok_0.0, r->Ok_0.masks),
            r is Ok ==> strings_view(r->Ok_0.masks@) == parse_args(strs_view(args@))->Ok_0.1,
            r is Err ==> invalid_arg_message(r->Err_0) == Some(parse_args(strs_view(args@))->Err_0),
    {
        let mut v: Vec<Vec<char>> = Vec::new();
        let mut k: usize = 0;
        while k < args.len()
            invariant
                k <= args.len(),
                vecs_view(v@) == strs_view(args@).take(k as int),
            decreases args.len() - k,
        {
            let a = chars_of(args[k]);
            let ghost before = v@;
            v.push(a);
            assert(vecs_view(v@) =~= vecs_view(before).push(args@[k as int]@));
            assert(strs_view(args@).take(k + 1) =~= strs_view(args@).take(k as int).push(args@[k as int]@));
            k = k + 1;
        }
        assert(strs_view(args@).take(args.len() as int) =~= strs_view(args@));
        let ghost av = vecs_view(v@);
        let mut sw = default_switches_of();
        let mut masks: Vec<String> = Vec::new();
        assert(strings_view(masks@) =~= Seq::<Seq<char>>::empty());
        let mut i: usize = 0;
        while i < v.len()
            invariant
                i <= v.len(),
                av == vecs_view(v@),
                av == strs_view(args@),
                parse_args_from(default_switches(), Seq::empty(), av, 0) == parse_args_from(
                    sw,
                    strings_view(masks@),
                    av,
                    i as int,
                ),
            decreases v.len() - i,
        {
            let arg = &v[i];
            assert(av[i as int] == arg@);
            if arg.len() == 0 {
                i = i + 1;
            } else if arg[0] == '-' || arg[0] == '/' {
                let step = switch_arg_of(sw, arg, arg[0], &v, i);
                if step.is_err() {
                    return Err(step.unwrap_err());
                }
                let (next, j) = step.unwrap();
                sw = next;
                i = j + 1;
            } else {
                let ghost before = masks@;
                masks.push(string_of(arg));
                assert(strings_view(masks@) =~= strings_view(before).push(arg@));
                i = i + 1;
            }
        }
        let checked = validate_switch_combinations(&sw);
        if checked.is_err() {
            return Err(checked.unwrap_err());
        }
        Ok(build_command_line(sw, masks))
    }

    /// Size format in effect (see `resolved_size`).
    pub fn resolved_size_format(&self) -> (r: SizeFormat)
        ensures
            r == resolved_size(*self),
    {
        match self.size_format {
            SizeFormat::Default => {
                if self.tree == Some(true) {
                    SizeFormat::Auto
                } else {
                    SizeFormat::Bytes
                }
            },
            other => other,
        }
    }

    /// Takes switch defaults from the configuration (see
    /// `with_config_defaults`).
    #[verifier::rlimit(60)]
    pub fn apply_config_defaults(&mut self, config: &Config)
        ensures
            *final(self) == with_config_defaults(*old(self), *config),
    {
        let wide = cli_or_config(self.wide_listing, self.set_on_command_line.wide_listing, config.wide_listing);
        let bare = cli_or_config(self.bare_listing, self.set_on_command_line.bare_listing, config.bare_listing);
        let recurse = cli_or_config(self.recurse, self.set_on_command_line.recurse, config.recurse);
        let perf = cli_or_config(self.perf_timer, self.set_on_command_line.perf_timer, config.perf_timer);
        let multi = cli_or_config(self.multi_threaded, self.set_on_command_line.multi_threaded, config.multi_threaded);
        let owner = cli_or_config(self.show_owner, self.set_on_command_line.show_owner, config.show_owner);
        let streams = cli_or_config(self.show_streams, self.set_on_command_line.show_streams, config.show_streams);
        let icons = unset_or(self.icons, config.icons);
        let tree = unset_or(self.tree, config.tree);
        let tree_on = value_or(tree, false);
        let depth = default_or(self.max_depth, 0, tree_on, config.max_depth);
        let indent = default_or(self.tree_indent, 4, tree_on, config.tree_indent);
        let size = size_or(self.size_format, config.size_format);
        let mut masks: Vec<String> = Vec::new();
        std::mem::swap(&mut masks, &mut self.masks);
        *self = CommandLine {
            wide_listing: wide,
            bare_listing: bare,
            recurse,
            perf_timer: perf,
            multi_threaded: multi,
            show_owner: owner,
            show_streams: streams,
            icons,
            tree,
            max_depth: depth,
            tree_indent: indent,
            size_format: size,
            masks,
            ..*self
        };
    }
}

} // verus!
