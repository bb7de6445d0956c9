//! Finding, replacing, appending and removing the alias block in the lines
//! of a PowerShell profile.
//!
//! A block starts at the line holding the header marker, extended upwards
//! over the banner lines right above it, and ends at the first later line
//! holding the footer marker, extended downwards over the banner lines
//! right below it.

use vstd::prelude::*;
use crate::alias_types::AliasBlock;
use crate::command_line::strings_view;
use crate::config::file_reader::{has_utf16_bom, has_utf8_bom, starts_with_utf16_bom, strip_utf8_bom, without_bom};
use crate::ehm::AppError;
use crate::text::{decimal, lines_of, lossy_utf8, text_lines, utf8_lossy_to_string};
use crate::text::{occurs_at, chars_of, find, find_char, find_ch, find_seq, starts_with, string_of_range, trim, trim_range, utf8_len, utf8_len_at_least};

verus! {

/// Marker in the block's header line.
pub const HEADER_MARKER: &'static str = "#  RCDir Aliases";
/// Marker in the block's footer line.
pub const FOOTER_MARKER: &'static str = "#  End RCDir Aliases";
/// Text that makes a line a banner line.
pub const BANNER_MARKER: &'static str = "####";
/// Text that precedes the version in the header line.
pub const VERSION_MARKER: &'static str = "rcdir v";
/// Prefix of a function line.
pub const FUNCTION_PREFIX: &'static str = "function ";

/// `p` occurs in `s`.
pub open spec fn contains(s: Seq<char>, p: Seq<char>) -> bool {
    find(s, p) is Some
}

/// Index of the first line at or after `i` that contains `p`.
pub open spec fn first_containing(lines: Seq<Seq<char>>, p: Seq<char>, i: int) -> Option<int>
    decreases lines.len() - i,
{
    if i < 0 || i >= lines.len() {
        None
    } else if contains(lines[i], p) {
        Some(i)
    } else {
        first_containing(lines, p, i + 1)
    }
}

/// A line that belongs to the banner above a header: not empty, and either
/// holding "####" or a '#' of at most two bytes.
pub open spec fn is_banner_line(l: Seq<char>) -> bool {
    l.len() > 0 && (contains(l, BANNER_MARKER@) || (utf8_len(l) <= 2 && l[0] == '#'))
}

/// Start of a block whose header is at `s`: `s` moved up over banner lines.
pub open spec fn block_start(lines: Seq<Seq<char>>, s: int) -> int
    decreases s,
{
    if s > 0 && is_banner_line(lines[s - 1]) {
        block_start(lines, s - 1)
    } else {
        s
    }
}

/// End of a block whose footer is at `e`: `e` moved down over the lines
/// holding "####".
pub open spec fn block_end(lines: Seq<Seq<char>>, e: int) -> int
    decreases lines.len() - e,
{
    if 0 <= e && e + 1 < lines.len() && contains(lines[e + 1], BANNER_MARKER@) {
        block_end(lines, e + 1)
    } else {
        e
    }
}

/// The version written after "rcdir v" in a header line, trimmed; empty
/// when the line has none.
pub open spec fn header_version(line: Seq<char>) -> Seq<char> {
    match find(line, VERSION_MARKER@) {
        Some(p) => trim(line.skip(p + 7)),
        None => Seq::empty(),
    }
}

/// The name of a function line: the text between "function " and the next
/// space.
pub open spec fn function_name(line: Seq<char>) -> Option<Seq<char>> {
    if starts_with(line, FUNCTION_PREFIX@) {
        let rest = line.skip(9);
        match find_char(rest, ' ') {
            Some(p) => Some(rest.take(p)),
            None => None,
        }
    } else {
        None
    }
}

/// The function lines among `lines[lo..hi]`.
pub open spec fn function_lines_in(lines: Seq<Seq<char>>, lo: int, hi: int) -> Seq<Seq<char>>
    decreases hi - lo,
{
    if hi <= lo {
        Seq::empty()
    } else if starts_with(lines[hi - 1], FUNCTION_PREFIX@) {
        function_lines_in(lines, lo, hi - 1).push(lines[hi - 1])
    } else {
        function_lines_in(lines, lo, hi - 1)
    }
}

/// The function names among `lines[lo..hi]`.
pub open spec fn function_names_in(lines: Seq<Seq<char>>, lo: int, hi: int) -> Seq<Seq<char>>
    decreases hi - lo,
{
    if hi <= lo {
        Seq::empty()
    } else {
        match function_name(lines[hi - 1]) {
            Some(n) => function_names_in(lines, lo, hi - 1).push(n),
            None => function_names_in(lines, lo, hi - 1),
        }
    }
}

/// The first name that is not empty, or empty.
pub open spec fn first_nonempty(names: Seq<Seq<char>>) -> Seq<char>
    decreases names.len(),
{
    if names.len() == 0 {
        Seq::empty()
    } else {
        let r = first_nonempty(names.drop_last());
        if r.len() > 0 {
            r
        } else {
            names.last()
        }
    }
}

/// An alias block as mathematical values.
pub struct BlockView {
    pub start: int,
    pub end: int,
    pub root: Seq<char>,
    pub names: Seq<Seq<char>>,
    pub function_lines: Seq<Seq<char>>,
    pub version: Seq<char>,
    pub found: bool,
}

/// No block.
pub open spec fn no_block() -> BlockView {
    BlockView {
        start: 0,
        end: 0,
        root: Seq::empty(),
        names: Seq::empty(),
        function_lines: Seq::empty(),
        version: Seq::empty(),
        found: false,
    }
}

/// The block whose header line is `lines[i]`: found when a later line holds
/// the footer marker, and then with the functions of its lines.
pub open spec fn block_from_header(lines: Seq<Seq<char>>, i: int) -> BlockView {
    let s = block_start(lines, i);
    let v = header_version(lines[i]);
    match first_containing(lines, FOOTER_MARKER@, i + 1) {
        None => BlockView { start: s, version: v, ..no_block() },
        Some(j) => {
            let e = block_end(lines, j);
            let names = function_names_in(lines, s, e + 1);
            BlockView {
                start: s,
                end: e,
                root: first_nonempty(names),
                names,
                function_lines: function_lines_in(lines, s, e + 1),
                version: v,
                found: true,
            }
        },
    }
}

/// The alias block of a profile: the one whose header is the first line
/// holding the header marker.
pub open spec fn find_block_view(lines: Seq<Seq<char>>) -> BlockView {
    match first_containing(lines, HEADER_MARKER@, 0) {
        None => no_block(),
        Some(i) => block_from_header(lines, i),
    }
}

/// `lines` with `lines[s..=e]` replaced by `new_block`.
pub open spec fn replaced(lines: Seq<Seq<char>>, s: int, e: int, new_block: Seq<Seq<char>>) -> Seq<Seq<char>> {
    lines.take(s) + new_block + lines.skip(e + 1)
}

/// `lines` followed by `new_block`, with an empty line between them when
/// the last line is not empty.
pub open spec fn appended(lines: Seq<Seq<char>>, new_block: Seq<Seq<char>>) -> Seq<Seq<char>> {
    if lines.len() > 0 && lines.last().len() > 0 {
        lines.push(Seq::empty()) + new_block
    } else {
        lines + new_block
    }
}

/// `s` without its leading empty lines.
pub open spec fn drop_leading_empty(s: Seq<Seq<char>>) -> Seq<Seq<char>>
    decreases s.len(),
{
    if s.len() > 0 && s[0].len() == 0 {
        drop_leading_empty(s.drop_first())
    } else {
        s
    }
}

/// `lines` without `lines[s..=e]` and without the empty lines that follow.
pub open spec fn removed(lines: Seq<Seq<char>>, s: int, e: int) -> Seq<Seq<char>> {
    lines.take(s) + drop_leading_empty(lines.skip(e + 1))
}

/// No line of `lines` from index `i` on contains `p`: nothing is found.
proof fn lemma_none_containing(lines: Seq<Seq<char>>, p: Seq<char>, i: int)
    requires
        0 <= i,
        forall|k: int| i <= k < lines.len() ==> !contains(#[trigger] lines[k], p),
    ensures
        first_containing(lines, p, i) is None,
    decreases lines.len() - i,
{
    if i < lines.len() {
        lemma_none_containing(lines, p, i + 1);
    }
}

/// Dropping leading empty lines keeps only lines that were there.
proof fn lemma_drop_leading_empty_keeps(s: Seq<Seq<char>>, p: Seq<char>)
    requires
        forall|k: int| 0 <= k < s.len() ==> !contains(#[trigger] s[k], p),
    ensures
        forall|k: int| 0 <= k < drop_leading_empty(s).len() ==> !contains(#[trigger] drop_leading_empty(s)[k], p),
    decreases s.len(),
{
    if s.len() > 0 && s[0].len() == 0 {
        let t = s.drop_first();
        assert forall|k: int| 0 <= k < t.len() implies !contains(#[trigger] t[k], p) by {
            assert(t[k] == s[k + 1]);
        }
        lemma_drop_leading_empty_keeps(t, p);
        assert(drop_leading_empty(s) == drop_leading_empty(t));
    } else {
        assert(drop_leading_empty(s) == s);
    }
}

/// Removing a block leaves no block when no other line holds the header
/// marker.
pub proof fn lemma_remove_leaves_no_block(lines: Seq<Seq<char>>, s: int, e: int)
    requires
        0 <= s <= e < lines.len(),
        forall|k: int| 0 <= k < lines.len() && (k < s || k > e) ==> !contains(#[trigger] lines[k], HEADER_MARKER@),
    ensures
        !find_block_view(removed(lines, s, e)).found,
{
    let tail = lines.skip(e + 1);
    assert forall|k: int| 0 <= k < tail.len() implies !contains(#[trigger] tail[k], HEADER_MARKER@) by {
        assert(tail[k] == lines[k + e + 1]);
    }
    lemma_drop_leading_empty_keeps(tail, HEADER_MARKER@);
    let r = removed(lines, s, e);
    let d = drop_leading_empty(tail);
    assert forall|k: int| 0 <= k < r.len() implies !contains(#[trigger] r[k], HEADER_MARKER@) by {
        if k < s {
            assert(r[k] == lines[k]);
        } else {
            assert(r[k] == d[k - s]);
        }
    }
    lemma_none_containing(r, HEADER_MARKER@, 0);
}

/// A sequence that holds `p` holds each character of `p`.
pub proof fn lemma_contains_char(s: Seq<char>, p: Seq<char>, k: int)
    requires
        contains(s, p),
        0 <= k < p.len(),
    ensures
        s.contains(p[k]),
{
    crate::text::lemma_find_from_spec(s, p, 0);
    let i = find(s, p)->0;
    assert(s.subrange(i, i + p.len()) == p);
    assert(s[i + k] == s.subrange(i, i + p.len())[k]);
}

/// The first occurrence of `p` from `from` on is at `i` when it occurs
/// there and nowhere between.
pub proof fn lemma_find_first(s: Seq<char>, p: Seq<char>, from: int, i: int)
    requires
        0 <= from <= i,
        crate::text::occurs_at(s, p, i),
        forall|j: int| from <= j < i ==> !crate::text::occurs_at(s, p, j),
    ensures
        crate::text::find_from(s, p, from) == Some(i),
    decreases i - from,
{
    if from < i {
        assert(!crate::text::occurs_at(s, p, from));
        lemma_find_first(s, p, from + 1, i);
    }
}

/// The first line from `i` on that contains `p` is at `j` when `lines[j]`
/// contains it and no line between does.
pub proof fn lemma_first_containing_at(lines: Seq<Seq<char>>, p: Seq<char>, i: int, j: int)
    requires
        0 <= i <= j < lines.len(),
        contains(lines[j], p),
        forall|k: int| i <= k < j ==> !contains(#[trigger] lines[k], p),
    ensures
        first_containing(lines, p, i) == Some(j),
    decreases j - i,
{
    if i < j {
        assert(!contains(lines[i], p));
        lemma_first_containing_at(lines, p, i + 1, j);
    }
}

/// Names of a range are the names of its two halves.
pub proof fn lemma_names_split(lines: Seq<Seq<char>>, lo: int, mid: int, hi: int)
    requires
        lo <= mid <= hi,
    ensures
        function_names_in(lines, lo, hi) == function_names_in(lines, lo, mid) + function_names_in(lines, mid, hi),
    decreases hi - mid,
{
    if hi == mid {
        assert(function_names_in(lines, mid, hi) =~= Seq::<Seq<char>>::empty());
        assert(function_names_in(lines, lo, mid) + Seq::<Seq<char>>::empty() =~= function_names_in(lines, lo, mid));
    } else {
        lemma_names_split(lines, lo, mid, hi - 1);
        match function_name(lines[hi - 1]) {
            Some(n) => {
                assert(function_names_in(lines, lo, hi) =~= function_names_in(lines, lo, mid) + function_names_in(lines, mid, hi));
            },
            None => {},
        }
    }
}

/// Names of a range depend only on the lines in it.
pub proof fn lemma_names_same_lines(a: Seq<Seq<char>>, b: Seq<Seq<char>>, lo: int, hi: int, shift: int)
    requires
        forall|k: int| lo <= k < hi ==> a[k] == b[k + shift],
    ensures
        function_names_in(a, lo, hi) == function_names_in(b, lo + shift, hi + shift),
    decreases hi - lo,
{
    if hi > lo {
        lemma_names_same_lines(a, b, lo, hi - 1, shift);
        assert(a[hi - 1] == b[hi - 1 + shift]);
    }
}

/// The first non-empty name of names that start with a non-empty one is
/// that one.
pub proof fn lemma_first_nonempty_head(names: Seq<Seq<char>>)
    requires
        names.len() > 0,
        names[0].len() > 0,
    ensures
        first_nonempty(names) == names[0],
    decreases names.len(),
{
    if names.len() > 1 {
        lemma_first_nonempty_head(names.drop_last());
        assert(names.drop_last()[0] == names[0]);
    } else {
        assert(names.drop_last().len() == 0);
        assert(first_nonempty(names.drop_last()).len() == 0);
    }
}

impl AliasBlock {
    /// The block as mathematical values.
    pub open spec fn view(&self) -> BlockView {
        BlockView {
            start: self.start_line as int,
            end: self.end_line as int,
            root: self.root_alias@,
            names: strings_view(self.alias_names@),
            function_lines: strings_view(self.function_lines@),
            version: self.version@,
            found: self.found,
        }
    }
}

impl Default for AliasBlock {
    fn default() -> (r: Self)
        ensures
            r@ == no_block(),
    {
        let r = AliasBlock {
            start_line: 0,
            end_line: 0,
            root_alias: String::new(),
            alias_names: Vec::new(),
            function_lines: Vec::new(),
            version: String::new(),
            found: false,
        };
        assert(r@.names =~= Seq::<Seq<char>>::empty());
        assert(r@.function_lines =~= Seq::<Seq<char>>::empty());
        r
    }
}

/// Whether `p` occurs in `line`.
fn line_contains(line: &String, p: &str) -> (r: bool)
    ensures
        r == contains(line@, p@),
{
    let v = chars_of(line.as_str());
    let pv = chars_of(p);
    find_seq(&v, &pv).is_some()
}

/// Whether a line belongs to the banner above a header.
fn is_banner(line: &String) -> (r: bool)
    ensures
        r == is_banner_line(line@),
{
    let v = chars_of(line.as_str());
    if v.len() == 0 {
        return false;
    }
    if line_contains(line, BANNER_MARKER) {
        return true;
    }
    !utf8_len_at_least(&v, 3) && v[0] == '#'
}

/// The version in a header line.
fn version_of(line: &String) -> (r: String)
    ensures
        r@ == header_version(line@),
{
    let v = chars_of(line.as_str());
    let m = chars_of(VERSION_MARKER);
    proof {
        reveal_strlit("rcdir v");
    }
    match find_seq(&v, &m) {
        Some(p) => {
            proof {
                crate::text::lemma_find_from_spec(v@, m@, 0);
                assert(m@.len() == 7);
                assert(occurs_at(v@, m@, p as int));
            }
            let n = v.len();
            assert(p + 7 <= n);
            let q: usize = p + 7;
            let (a, b) = trim_range(&v, q, n);
            assert(v@.subrange(p + 7, v@.len() as int) =~= line@.skip(p + 7));
            string_of_range(&v, a, b)
        },
        None => String::new(),
    }
}

/// The name of a function line.
fn name_of_function_line(line: &String) -> (r: Option<String>)
    ensures
        r matches Some(n) ==> function_name(line@) == Some(n@),
        r is None ==> function_name(line@) is None,
{
    let v = chars_of(line.as_str());
    let pfx = chars_of(FUNCTION_PREFIX);
    proof {
        reveal_strlit("function ");
    }
    if v.len() < 9 || !crate::text::matches_at(&v, &pfx, 0) {
        assert(!starts_with(line@, FUNCTION_PREFIX@)) by {
            if starts_with(line@, FUNCTION_PREFIX@) {
                assert(v@.subrange(0, 9) =~= v@.take(9));
            }
        }
        return None;
    }
    assert(v@.subrange(0, 9) =~= v@.take(9));
    let rest = crate::text::slice_vec(&v, 9, v.len());
    assert(rest@ =~= line@.skip(9));
    match find_ch(&rest, ' ') {
        Some(p) => {
            let n = string_of_range(&rest, 0, p);
            assert(rest@.subrange(0, p as int) =~= rest@.take(p as int));
            Some(n)
        },
        None => None,
    }
}

/// The block whose header line is `lines[i]`.
fn block_at_header(lines: &[String], i: usize) -> (b: AliasBlock)
    requires
        i < lines.len(),
    ensures
        b@ == block_from_header(strings_view(lines@), i as int),
{
    let ghost ls = strings_view(lines@);
    let n = lines.len();
    let mut s = i;
    while s > 0 && is_banner(&lines[s - 1])
        invariant
            s <= i < n == lines@.len(),
            ls == strings_view(lines@),
            block_start(ls, i as int) == block_start(ls, s as int),
        decreases s,
    {
        s = s - 1;
    }
    let version = version_of(&lines[i]);
    let mut j = i + 1;
    proof {
        reveal_strlit("#  End RCDir Aliases");
        reveal_strlit("####");
    }
    while j < n && !line_contains(&lines[j], FOOTER_MARKER)
        invariant
            i < j <= n == lines@.len(),
            ls == strings_view(lines@),
            first_containing(ls, FOOTER_MARKER@, i + 1) == first_containing(ls, FOOTER_MARKER@, j as int),
        decreases n - j,
    {
        j = j + 1;
    }
    if j == n {
        let b = AliasBlock { start_line: s, version, ..AliasBlock::default() };
        return b;
    }
    let mut e = j;
    while e + 1 < n && line_contains(&lines[e + 1], BANNER_MARKER)
        invariant
            j <= e < n == lines@.len(),
            ls == strings_view(lines@),
            block_end(ls, j as int) == block_end(ls, e as int),
        decreases n - e,
    {
        e = e + 1;
    }
    let mut function_lines: Vec<String> = Vec::new();
    let mut names: Vec<String> = Vec::new();
    let mut root = String::new();
    let mut k = s;
    while k <= e
        invariant
            s <= k <= e + 1,
            e < n == lines@.len(),
            ls == strings_view(lines@),
            strings_view(function_lines@) == function_lines_in(ls, s as int, k as int),
            strings_view(names@) == function_names_in(ls, s as int, k as int),
            root@ == first_nonempty(strings_view(names@)),
        decreases e + 1 - k,
    {
        let line = &lines[k];
        let pfx = chars_of(FUNCTION_PREFIX);
        let v = chars_of(line.as_str());
        let is_fn = crate::text::matches_at(&v, &pfx, 0);
        proof {
            reveal_strlit("function ");
            assert(is_fn == starts_with(ls[k as int], FUNCTION_PREFIX@)) by {
                assert(v@.subrange(0, pfx@.len() as int) =~= v@.take(pfx@.len() as int));
            }
        }
        if is_fn {
            let ghost old_fl = function_lines@;
            function_lines.push(line.clone());
            assert(strings_view(function_lines@) =~= strings_view(old_fl).push(ls[k as int]));
        }
        match name_of_function_line(line) {
            Some(nm) => {
                let ghost old_names = names@;
                if root.as_str().is_empty() {
                    root = nm.clone();
                }
                names.push(nm);
                assert(strings_view(names@) =~= strings_view(old_names).push(ls[k as int].skip(9).take(
                    find_char(ls[k as int].skip(9), ' ')->0,
                )));
                assert(strings_view(names@).drop_last() =~= strings_view(old_names));
            },
            None => {},
        }
        k = k + 1;
    }
    AliasBlock {
        start_line: s,
        end_line: e,
        root_alias: root,
        alias_names: names,
        function_lines,
        version,
        found: true,
    }
}

/// Finds the alias block in a profile's lines.
pub fn find_alias_block(lines: &[String]) -> (b: AliasBlock)
    ensures
        b@ == find_block_view(strings_view(lines@)),
{
    let ghost ls = strings_view(lines@);
    let n = lines.len();
    let mut i: usize = 0;
    proof {
        reveal_strlit("#  RCDir Aliases");
    }
    while i < n
        invariant
            i <= n == lines@.len(),
            ls == strings_view(lines@),
            first_containing(ls, HEADER_MARKER@, 0) == first_containing(ls, HEADER_MARKER@, i as int),
        decreases n - i,
    {
        if line_contains(&lines[i], HEADER_MARKER) {
            return block_at_header(lines, i);
        }
        i = i + 1;
    }
    AliasBlock::default()
}

/// Copies `src[lo..hi]` onto the end of `dst`.
fn extend_from(dst: &mut Vec<String>, src: &[String], lo: usize, hi: usize)
    requires
        lo <= hi <= src.len(),
    ensures
        strings_view(final(dst)@) == strings_view(old(dst)@) + strings_view(src@).subrange(lo as int, hi as int),
{
    let mut k = lo;
    while k < hi
        invariant
            lo <= k <= hi <= src.len(),
            strings_view(dst@) == strings_view(old(dst)@) + strings_view(src@).subrange(lo as int, k as int),
        decreases hi - k,
    {
        let ghost before = dst@;
        dst.push(src[k].clone());
        assert(strings_view(dst@) =~= strings_view(before).push(src@[k as int]@));
        assert(strings_view(src@).subrange(lo as int, k + 1) =~= strings_view(src@).subrange(lo as int, k as int).push(src@[k as int]@));
        k = k + 1;
    }
}

/// Replaces the lines of `block` with `new_block`.
pub fn replace_alias_block(lines: &mut Vec<String>, block: &AliasBlock, new_block: &[String])
    requires
        block.start_line <= block.end_line < old(lines).len(),
    ensures
        strings_view(final(lines)@) == replaced(
            strings_view(old(lines)@),
            block.start_line as int,
            block.end_line as int,
            strings_view(new_block@),
        ),
{
    let ghost ls = strings_view(lines@);
    let mut out: Vec<String> = Vec::new();
    extend_from(&mut out, lines.as_slice(), 0, block.start_line);
    extend_from(&mut out, new_block, 0, new_block.len());
    extend_from(&mut out, lines.as_slice(), block.end_line + 1, lines.len());
    assert(strings_view(out@) =~= replaced(ls, block.start_line as int, block.end_line as int, strings_view(new_block@)));
    *lines = out;
}

/// Appends `new_block`, after an empty line when the last line is not empty.
pub fn append_alias_block(lines: &mut Vec<String>, new_block: &[String])
    ensures
        strings_view(final(lines)@) == appended(strings_view(old(lines)@), strings_view(new_block@)),
{
    let ghost ls = strings_view(lines@);
    if lines.len() > 0 && !lines[lines.len() - 1].as_str().is_empty() {
        lines.push(String::new());
        assert(strings_view(lines@) =~= ls.push(Seq::empty()));
    }
    let ghost mid = strings_view(lines@);
    extend_from(lines, new_block, 0, new_block.len());
    assert(strings_view(new_block@).subrange(0, new_block@.len() as int) =~= strings_view(new_block@));
    assert(strings_view(lines@) =~= appended(ls, strings_view(new_block@)));
}

/// Removes the lines of `block` and the empty lines right after them.
pub fn remove_alias_block(lines: &mut Vec<String>, block: &AliasBlock)
    requires
        block.start_line <= block.end_line < old(lines).len(),
    ensures
        strings_view(final(lines)@) == removed(
            strings_view(old(lines)@),
            block.start_line as int,
            block.end_line as int,
        ),
{
    let ghost ls = strings_view(lines@);
    let n = lines.len();
    let mut k = block.end_line + 1;
    while k < n && lines[k].as_str().is_empty()
        invariant
            block.end_line < k <= n == lines@.len(),
            ls == strings_view(lines@),
            drop_leading_empty(ls.skip(block.end_line + 1)) == drop_leading_empty(ls.skip(k as int)),
        decreases n - k,
    {
        assert(ls.skip(k as int).drop_first() =~= ls.skip(k + 1));
        k = k + 1;
    }
    assert(drop_leading_empty(ls.skip(k as int)) == ls.skip(k as int));
    let mut out: Vec<String> = Vec::new();
    extend_from(&mut out, lines.as_slice(), 0, block.start_line);
    extend_from(&mut out, lines.as_slice(), k, n);
    assert(strings_view(out@) =~= removed(ls, block.start_line as int, block.end_line as int));
    *lines = out;
}

/// Message for a profile in UTF-16.
pub open spec fn utf16_profile_message(path: Seq<char>) -> Seq<char> {
    "Profile file is UTF-16 encoded: "@ + path + "\nConvert to UTF-8 before using alias commands."@
}

/// The lines of a profile from its bytes, and whether it began with a
/// UTF-8 byte-order mark.  A UTF-16 profile is refused; bytes that are not
/// valid UTF-8 are decoded with replacement characters.
pub fn decode_profile_bytes(bytes: &[u8], path: &str) -> (r: Result<(Vec<String>, bool), AppError>)
    ensures
        has_utf16_bom(bytes@) ==> (r matches Err(AppError::InvalidArg(m)) && m@ == utf16_profile_message(path@)),
        !has_utf16_bom(bytes@) ==> (r matches Ok((lines, bom)) && bom == has_utf8_bom(bytes@)
            && lines@.map_values(|l: String| l@) == text_lines(lossy_utf8(without_bom(bytes@)))),
        !has_utf16_bom(bytes@) && vstd::utf8::valid_utf8(without_bom(bytes@)) ==> (r matches Ok((lines, _))
            && lines@.map_values(|l: String| l@) == text_lines(vstd::utf8::decode_utf8(without_bom(bytes@)))),
{
    if starts_with_utf16_bom(bytes) {
        let mut m = crate::text::string_from("Profile file is UTF-16 encoded: ");
        crate::text::push_str(&mut m, path);
        crate::text::push_str(&mut m, "\nConvert to UTF-8 before using alias commands.");
        return Err(AppError::InvalidArg(m));
    }
    let (body, bom) = strip_utf8_bom(bytes);
    let text = utf8_lossy_to_string(body);
    Ok((lines_of(text.as_str()), bom))
}

/// `lines` joined with CR LF.
pub open spec fn crlf_joined(lines: Seq<Seq<char>>) -> Seq<char>
    decreases lines.len(),
{
    if lines.len() == 0 {
        Seq::empty()
    } else if lines.len() == 1 {
        lines[0]
    } else {
        crlf_joined(lines.drop_last()) + "\r\n"@ + lines.last()
    }
}

/// The text written for a profile: its lines joined with CR LF, ending in
/// a line break.
pub open spec fn profile_text_of(lines: Seq<Seq<char>>) -> Seq<char> {
    let c = crlf_joined(lines);
    if c.len() > 0 && c.last() == '\n' {
        c
    } else {
        c + "\r\n"@
    }
}

/// The text written for a profile with `lines`.
pub fn profile_text(lines: &[String]) -> (r: String)
    ensures
        r@ == profile_text_of(lines@.map_values(|l: String| l@)),
{
    proof {
        reveal_strlit("\r\n");
    }
    let ghost all = lines@.map_values(|l: String| l@);
    let mut s = String::new();
    let mut k: usize = 0;
    while k < lines.len()
        invariant
            k <= lines.len(),
            all == lines@.map_values(|l: String| l@),
            s@ == crlf_joined(all.take(k as int)),
        decreases lines.len() - k,
    {
        let ghost prev = all.take(k as int);
        if k > 0 {
            crate::text::push_str(&mut s, "\r\n");
        }
        crate::text::push_str(&mut s, lines[k].as_str());
        proof {
            let next = all.take(k + 1);
            assert(next.drop_last() =~= prev);
            assert(next.last() == lines@[k as int]@);
            if k == 0 {
                assert(crlf_joined(prev) =~= Seq::<char>::empty());
            }
        }
        k = k + 1;
        assert(s@ =~= crlf_joined(all.take(k as int)));
    }
    assert(all.take(lines@.len() as int) =~= all);
    let n = s.unicode_len();
    if !(n > 0 && s.get_char(n - 1) == '\n') {
        crate::text::push_str(&mut s, "\r\n");
    }
    s
}

/// `n` in decimal, padded on the left with zeros to `w` digits.
pub open spec fn zero_padded(n: nat, w: nat) -> Seq<char> {
    let d = decimal(n);
    if d.len() >= w {
        d
    } else {
        Seq::new((w - d.len()) as nat, |i: int| '0') + d
    }
}

/// Appends `n` in decimal, padded on the left with zeros to `w` digits.
fn push_zero_padded(s: &mut String, n: u64, w: usize)
    ensures
        final(s)@ == old(s)@ + zero_padded(n as nat, w as nat),
{
    let mut digits = String::new();
    crate::text::push_decimal(&mut digits, n);
    assert(digits@ == decimal(n as nat));
    let len = digits.unicode_len();
    let mut k: usize = len;
    let ghost start = s@;
    while k < w
        invariant
            len == decimal(n as nat).len(),
            len <= k <= w || (k == len && len >= w),
            s@ == start + Seq::new((k - len) as nat, |i: int| '0'),
        decreases w - k,
    {
        crate::text::push_char(s, '0');
        k = k + 1;
        assert(s@ =~= start + Seq::new((k - len) as nat, |i: int| '0'));
    }
    crate::text::push_str(s, digits.as_str());
    proof {
        if len >= w {
            assert(s@ =~= start + decimal(n as nat));
        } else {
            assert(k == w);
            assert(s@ =~= start + (Seq::new((w - len) as nat, |i: int| '0') + decimal(n as nat)));
        }
    }
}

/// Name of the backup of a profile named `file_name`, taken at the given
/// local time: `<name>.<YYYY-MM-DD-HH-MM-SS>.bak`.
pub fn backup_file_name(file_name: &str, year: u16, month: u16, day: u16, hour: u16, minute: u16, second: u16) -> (r: String)
    ensures
        r@ == file_name@ + "."@ + zero_padded(year as nat, 4) + "-"@ + zero_padded(month as nat, 2) + "-"@
            + zero_padded(day as nat, 2) + "-"@ + zero_padded(hour as nat, 2) + "-"@ + zero_padded(minute as nat, 2)
            + "-"@ + zero_padded(second as nat, 2) + ".bak"@,
{
    proof {
        reveal_strlit(".");
        reveal_strlit("-");
        reveal_strlit(".bak");
    }
    let mut s = crate::text::string_from(file_name);
    crate::text::push_str(&mut s, ".");
    push_zero_padded(&mut s, year as u64, 4);
    crate::text::push_str(&mut s, "-");
    push_zero_padded(&mut s, month as u64, 2);
    crate::text::push_str(&mut s, "-");
    push_zero_padded(&mut s, day as u64, 2);
    crate::text::push_str(&mut s, "-");
    push_zero_padded(&mut s, hour as u64, 2);
    crate::text::push_str(&mut s, "-");
    push_zero_padded(&mut s, minute as u64, 2);
    crate::text::push_str(&mut s, "-");
    push_zero_padded(&mut s, second as u64, 2);
    crate::text::push_str(&mut s, ".bak");
    s
}

/// Each line followed by CR LF.
pub open spec fn crlf_terminated(lines: Seq<Seq<char>>) -> Seq<char>
    decreases lines.len(),
{
    if lines.len() == 0 {
        Seq::empty()
    } else {
        crlf_terminated(lines.drop_last()) + lines.last() + "\r\n"@
    }
}

/// Joined lines with a final CR LF are the lines each terminated.
proof fn lemma_joined_terminated(lines: Seq<Seq<char>>)
    requires
        lines.len() >= 1,
    ensures
        crlf_joined(lines) + "\r\n"@ == crlf_terminated(lines),
    decreases lines.len(),
{
    if lines.len() == 1 {
        assert(lines.drop_last() =~= Seq::<Seq<char>>::empty());
        assert(crlf_terminated(lines.drop_last()) =~= Seq::<char>::empty());
        assert(crlf_terminated(lines) =~= lines[0] + "\r\n"@);
    } else {
        lemma_joined_terminated(lines.drop_last());
        assert(crlf_joined(lines) + "\r\n"@ =~= (crlf_joined(lines.drop_last()) + "\r\n"@) + lines.last() + "\r\n"@);
    }
}

/// The terminated lines, taken apart at the front.
proof fn lemma_terminated_front(lines: Seq<Seq<char>>)
    requires
        lines.len() >= 1,
    ensures
        crlf_terminated(lines) == lines[0] + "\r\n"@ + crlf_terminated(lines.drop_first()),
    decreases lines.len(),
{
    if lines.len() == 1 {
        assert(lines.drop_last() =~= Seq::<Seq<char>>::empty());
        assert(lines.drop_first() =~= Seq::<Seq<char>>::empty());
        assert(crlf_terminated(lines.drop_last()) =~= Seq::<char>::empty());
        assert(crlf_terminated(lines.drop_first()) =~= Seq::<char>::empty());
        assert(crlf_terminated(lines) =~= lines[0] + "\r\n"@);
    } else {
        lemma_terminated_front(lines.drop_last());
        assert(lines.drop_last().drop_first() =~= lines.drop_first().drop_last());
        assert(lines.drop_first().last() == lines.last());
        assert(crlf_terminated(lines) =~= lines[0] + "\r\n"@ + crlf_terminated(lines.drop_first()));
    }
}

/// Scanning a line with no line feed up to the line feed that ends it.
proof fn lemma_scan_line(s: Seq<char>, start: int, i: int, j: int)
    requires
        0 <= start <= i <= j < s.len(),
        s[j] == '\n',
        forall|k: int| i <= k < j ==> s[k] != '\n',
    ensures
        crate::text::lines_from(s, start, i) == seq![crate::text::strip_cr(s.subrange(start, j))]
            + crate::text::lines_from(s, j + 1, j + 1),
    decreases j - i,
{
    if i < j {
        lemma_scan_line(s, start, i + 1, j);
    }
}

/// Text that ends with terminated lines reads back as those lines.
proof fn lemma_read_terminated(s: Seq<char>, p: int, lines: Seq<Seq<char>>)
    requires
        0 <= p <= s.len(),
        s.subrange(p, s.len() as int) == crlf_terminated(lines),
        forall|i: int| 0 <= i < lines.len() ==> !(#[trigger] lines[i]).contains('\n'),
    ensures
        crate::text::lines_from(s, p, p) == lines,
    decreases lines.len(),
{
    reveal_strlit("\r\n");
    if lines.len() == 0 {
        assert(s.subrange(p, s.len() as int).len() == 0);
    } else {
        lemma_terminated_front(lines);
        let l = lines[0];
        let j = p + l.len() + 1;
        let rest = crlf_terminated(lines.drop_first());
        let whole = s.subrange(p, s.len() as int);
        assert(whole == l + "\r\n"@ + rest);
        assert(whole.len() == l.len() + 2 + rest.len());
        assert forall|k: int| p <= k < j implies s[k] != '\n' by {
            assert(s[k] == s.subrange(p, s.len() as int)[k - p]);
            if k < p + l.len() {
                assert(s.subrange(p, s.len() as int)[k - p] == l[k - p]);
                if l[k - p] == '\n' {
                    assert(l.contains('\n'));
                }
            } else {
                assert(s.subrange(p, s.len() as int)[k - p] == '\r');
            }
        }
        assert(s[j] == s.subrange(p, s.len() as int)[j - p]);
        assert(s.subrange(p, s.len() as int)[j - p] == '\n');
        lemma_scan_line(s, p, p, j);
        assert(s.subrange(p, j) =~= l.push('\r'));
        assert(crate::text::strip_cr(s.subrange(p, j)) =~= l);
        assert forall|k: int| 0 <= k < rest.len() implies s.subrange(j + 1, s.len() as int)[k] == rest[k] by {
            assert(s.subrange(j + 1, s.len() as int)[k] == whole[j + 1 + k - p]);
            assert(whole[l.len() + 2 + k] == rest[k]);
        }
        assert(s.subrange(j + 1, s.len() as int) =~= rest);
        assert forall|i: int| 0 <= i < lines.drop_first().len() implies !(#[trigger] lines.drop_first()[i]).contains('\n') by {
            assert(lines.drop_first()[i] == lines[i + 1]);
        }
        lemma_read_terminated(s, j + 1, lines.drop_first());
        assert(seq![l] + lines.drop_first() =~= lines);
    }
}

/// Reading back a written profile gives its lines again, when no line
/// holds a line feed and the last line is not an empty one after others.
pub proof fn lemma_profile_text_read_back(lines: Seq<Seq<char>>)
    requires
        lines.len() >= 1,
        forall|i: int| 0 <= i < lines.len() ==> !(#[trigger] lines[i]).contains('\n'),
        lines.len() == 1 || lines.last().len() > 0,
    ensures
        text_lines(profile_text_of(lines)) == lines,
{
    reveal_strlit("\r\n");
    let c = crlf_joined(lines);
    if lines.len() == 1 {
        assert(c == lines[0]);
    } else {
        assert(c == crlf_joined(lines.drop_last()) + "\r\n"@ + lines.last());
        assert(c.last() == lines.last().last());
        assert(lines.last().contains(lines.last().last()));
    }
    if c.len() > 0 {
        assert(c.last() != '\n') by {
            if lines.len() == 1 {
                assert(lines[0].contains(c.last()));
            }
        }
    }
    assert(profile_text_of(lines) == c + "\r\n"@);
    lemma_joined_terminated(lines);
    let t = crlf_terminated(lines);
    assert(t.subrange(0, t.len() as int) =~= t);
    lemma_read_terminated(t, 0, lines);
}

/// A found line is inside the range searched.
pub proof fn lemma_first_containing_range(lines: Seq<Seq<char>>, p: Seq<char>, i: int)
    requires
        0 <= i,
    ensures
        first_containing(lines, p, i) matches Some(j) ==> i <= j < lines.len(),
    decreases lines.len() - i,
{
    if i < lines.len() && !contains(lines[i], p) {
        lemma_first_containing_range(lines, p, i + 1);
    }
}

/// A block's start is at or above its header.
proof fn lemma_block_start_range(lines: Seq<Seq<char>>, s: int)
    requires
        0 <= s,
    ensures
        0 <= block_start(lines, s) <= s,
    decreases s,
{
    if s > 0 && is_banner_line(lines[s - 1]) {
        lemma_block_start_range(lines, s - 1);
    }
}

/// A block's end is at or below its footer, inside the lines.
proof fn lemma_block_end_range(lines: Seq<Seq<char>>, e: int)
    requires
        0 <= e < lines.len(),
    ensures
        e <= block_end(lines, e) < lines.len(),
    decreases lines.len() - e,
{
    if e + 1 < lines.len() && contains(lines[e + 1], BANNER_MARKER@) {
        lemma_block_end_range(lines, e + 1);
    }
}

/// A found block lies inside the lines, its start before its end.
pub proof fn lemma_found_block_in_range(lines: Seq<Seq<char>>)
    ensures
        find_block_view(lines).found ==> 0 <= find_block_view(lines).start <= find_block_view(lines).end < lines.len(),
{
    lemma_first_containing_range(lines, HEADER_MARKER@, 0);
    if let Some(i) = first_containing(lines, HEADER_MARKER@, 0) {
        lemma_block_start_range(lines, i);
        lemma_first_containing_range(lines, FOOTER_MARKER@, i + 1);
        if let Some(j) = first_containing(lines, FOOTER_MARKER@, i + 1) {
            lemma_block_end_range(lines, j);
        }
    }
}

/// Writes `new_block` into a profile's lines: in place of its alias block,
/// or appended when it has none.  Returns whether a block was replaced.
pub fn apply_alias_block(lines: &mut Vec<String>, new_block: &[String]) -> (replaced_existing: bool)
    ensures
        replaced_existing == find_block_view(strings_view(old(lines)@)).found,
        replaced_existing ==> strings_view(final(lines)@) == replaced(
            strings_view(old(lines)@),
            find_block_view(strings_view(old(lines)@)).start,
            find_block_view(strings_view(old(lines)@)).end,
            strings_view(new_block@),
        ),
        !replaced_existing ==> strings_view(final(lines)@) == appended(strings_view(old(lines)@), strings_view(new_block@)),
{
    let existing = find_alias_block(lines.as_slice());
    proof {
        lemma_found_block_in_range(strings_view(lines@));
    }
    if existing.found {
        replace_alias_block(lines, &existing, new_block);
        true
    } else {
        append_alias_block(lines, new_block);
        false
    }
}

/// Removes a profile's alias block, if it has one.  Returns whether it had.
pub fn strip_alias_block(lines: &mut Vec<String>) -> (had_block: bool)
    ensures
        had_block == find_block_view(strings_view(old(lines)@)).found,
        had_block ==> strings_view(final(lines)@) == removed(
            strings_view(old(lines)@),
            find_block_view(strings_view(old(lines)@)).start,
            find_block_view(strings_view(old(lines)@)).end,
        ),
        !had_block ==> final(lines)@ == old(lines)@,
{
    let existing = find_alias_block(lines.as_slice());
    proof {
        lemma_found_block_in_range(strings_view(lines@));
    }
    if existing.found {
        remove_alias_block(lines, &existing);
        true
    } else {
        false
    }
}

} // verus!
