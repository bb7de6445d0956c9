//! Generation of the alias block written to a PowerShell profile.
//!
//! The block is framed by banner lines holding the header and footer
//! markers that `profile_file_manager` looks for, and holds one function
//! line for the root alias and one for each enabled sub-alias.

use vstd::prelude::*;
use crate::alias_types::{AliasConfig, AliasDefinition};
use crate::profile_file_manager::{appended, block_end, block_start, contains, find_block_view, first_containing, function_name, function_names_in, is_banner_line, lemma_contains_char, lemma_find_first, lemma_first_containing_at, lemma_first_nonempty_head, lemma_names_same_lines, lemma_names_split, BANNER_MARKER, FOOTER_MARKER, FUNCTION_PREFIX, HEADER_MARKER};
use crate::text::{find_from, occurs_at, starts_with, utf8_len};
use crate::text::{push_str, string_from};

verus! {

/// Version written into the block header.
pub const VERSION_STRING: &'static str = "1.0.0";

/// The banner line above and below the markers.
pub const BANNER_LINE: &'static str = "################################################################################";

/// A sub-alias as mathematical values: name, flags, description, enabled.
pub open spec fn alias_def_view(d: AliasDefinition) -> (Seq<char>, Seq<char>, Seq<char>, bool) {
    (d.name@, d.flags@, d.description@, d.enabled)
}

/// The function line that defines `name` as `body`.
pub open spec fn function_line(name: Seq<char>, body: Seq<char>) -> Seq<char> {
    "function "@ + name + " { "@ + body + " }"@
}

/// The function lines of the enabled sub-aliases among `subs[..k]`; each
/// calls the root alias with its flags.
pub open spec fn sub_alias_lines(root: Seq<char>, subs: Seq<(Seq<char>, Seq<char>, Seq<char>, bool)>, k: int) -> Seq<Seq<char>>
    decreases k,
{
    if k <= 0 {
        Seq::empty()
    } else if subs[k - 1].3 {
        sub_alias_lines(root, subs, k - 1).push(
            function_line(subs[k - 1].0, root + " "@ + subs[k - 1].1 + " @args"@),
        )
    } else {
        sub_alias_lines(root, subs, k - 1)
    }
}

/// The header: banner, the header marker with the version, banner.
pub open spec fn block_header() -> Seq<Seq<char>> {
    seq![
        BANNER_LINE@,
        "#"@,
        HEADER_MARKER@ + " -- Generated by rcdir v"@ + VERSION_STRING@,
        "#"@,
        BANNER_LINE@,
        Seq::empty(),
    ]
}

/// The footer: banner, the footer marker, banner.
pub open spec fn block_footer() -> Seq<Seq<char>> {
    seq![Seq::empty(), BANNER_LINE@, FOOTER_MARKER@, BANNER_LINE@]
}

/// The alias block for a root alias, its invocation and its sub-aliases.
pub open spec fn alias_block(
    root: Seq<char>,
    invocation: Seq<char>,
    subs: Seq<(Seq<char>, Seq<char>, Seq<char>, bool)>,
) -> Seq<Seq<char>> {
    block_header() + seq![function_line(root, invocation + " @args"@)] + sub_alias_lines(
        root,
        subs,
        subs.len() as int,
    ) + block_footer()
}

/// Names of the enabled sub-aliases among `subs[..k]`.
pub open spec fn enabled_names(subs: Seq<(Seq<char>, Seq<char>, Seq<char>, bool)>, k: int) -> Seq<Seq<char>>
    decreases k,
{
    if k <= 0 {
        Seq::empty()
    } else if subs[k - 1].3 {
        enabled_names(subs, k - 1).push(subs[k - 1].0)
    } else {
        enabled_names(subs, k - 1)
    }
}

/// Text without spaces and without '#'.
pub open spec fn plain_text(s: Seq<char>) -> bool {
    !s.contains(' ') && !s.contains('#')
}

/// Every sub-alias name is plain text and no flags hold '#'.
pub open spec fn plain_subs(subs: Seq<(Seq<char>, Seq<char>, Seq<char>, bool)>) -> bool {
    forall|j: int| 0 <= j < subs.len() ==> plain_text(#[trigger] subs[j].0) && !subs[j].1.contains('#')
}

/// Neither part holds `c`, so their concatenation does not.
proof fn lemma_concat_lacks(a: Seq<char>, b: Seq<char>, c: char)
    requires
        !a.contains(c),
        !b.contains(c),
    ensures
        !(a + b).contains(c),
{
    if (a + b).contains(c) {
        let i = choose|i: int| 0 <= i < (a + b).len() && (a + b)[i] == c;
        if i < a.len() {
            assert(a[i] == c);
        } else {
            assert(b[i - a.len()] == c);
        }
    }
}

/// The banner line: eighty '#'.
proof fn lemma_banner()
    ensures
        BANNER_LINE@.len() == 80,
        forall|i: int| 0 <= i < 80 ==> BANNER_LINE@[i] == '#',
        !BANNER_LINE@.contains(' '),
        contains(BANNER_LINE@, BANNER_MARKER@),
        is_banner_line(BANNER_LINE@),
        !starts_with(BANNER_LINE@, FUNCTION_PREFIX@),
{
    reveal_strlit("################################################################################");
    reveal_strlit("####");
    reveal_strlit("function ");
    assert(BANNER_LINE@.subrange(0, 4) =~= BANNER_MARKER@);
    assert(occurs_at(BANNER_LINE@, BANNER_MARKER@, 0));
    assert(find_from(BANNER_LINE@, BANNER_MARKER@, 0) == Some(0int));
    if starts_with(BANNER_LINE@, FUNCTION_PREFIX@) {
        assert(BANNER_LINE@.take(9)[0] == FUNCTION_PREFIX@[0]);
    }
}

/// A line shorter than `p` does not hold it.
proof fn lemma_short_lacks(s: Seq<char>, p: Seq<char>)
    requires
        s.len() < p.len(),
    ensures
        !contains(s, p),
{
    assert(find_from(s, p, 0) is None);
}

/// A line without the character at `k` of `p` does not hold `p`.
proof fn lemma_lacks_char(s: Seq<char>, p: Seq<char>, k: int)
    requires
        0 <= k < p.len(),
        !s.contains(p[k]),
    ensures
        !contains(s, p),
{
    if contains(s, p) {
        lemma_contains_char(s, p, k);
    }
}

/// What the search for blocks sees in a function line.
proof fn lemma_function_line(name: Seq<char>, body: Seq<char>)
    requires
        plain_text(name),
        !body.contains('#'),
    ensures
        function_name(function_line(name, body)) == Some(name),
        !function_line(name, body).contains('#'),
{
    reveal_strlit("function ");
    reveal_strlit(" { ");
    reveal_strlit(" }");
    let l = function_line(name, body);
    assert(l.take(9) =~= FUNCTION_PREFIX@);
    let rest = l.skip(9);
    assert(rest =~= name + " { "@ + body + " }"@);
    let sp = seq![' '];
    assert(rest.subrange(name.len() as int, name.len() + 1int) =~= sp);
    assert forall|j: int| 0 <= j < name.len() implies !occurs_at(rest, sp, j) by {
        if occurs_at(rest, sp, j) {
            assert(rest.subrange(j, j + 1)[0] == ' ');
            assert(name[j] == ' ');
        }
    }
    lemma_find_first(rest, sp, 0, name.len() as int);
    assert(rest.take(name.len() as int) =~= name);
    assert(!"function "@.contains('#'));
    assert(!" { "@.contains('#'));
    assert(!" }"@.contains('#'));
    lemma_concat_lacks("function "@, name, '#');
    lemma_concat_lacks("function "@ + name, " { "@, '#');
    lemma_concat_lacks("function "@ + name + " { "@, body, '#');
    lemma_concat_lacks("function "@ + name + " { "@ + body, " }"@, '#');
}

/// The sub-alias lines hold no '#', and their names are the enabled ones.
proof fn lemma_sub_lines(root: Seq<char>, subs: Seq<(Seq<char>, Seq<char>, Seq<char>, bool)>, k: int)
    requires
        0 <= k <= subs.len(),
        plain_text(root),
        plain_subs(subs),
    ensures
        forall|j: int| 0 <= j < sub_alias_lines(root, subs, k).len() ==> !(#[trigger] sub_alias_lines(root, subs, k)[j]).contains('#'),
        function_names_in(sub_alias_lines(root, subs, k), 0, sub_alias_lines(root, subs, k).len() as int)
            == enabled_names(subs, k),
    decreases k,
{
    if k > 0 {
        lemma_sub_lines(root, subs, k - 1);
        let prev = sub_alias_lines(root, subs, k - 1);
        if subs[k - 1].3 {
            let body = root + " "@ + subs[k - 1].1 + " @args"@;
            reveal_strlit(" ");
            reveal_strlit(" @args");
            assert(!" "@.contains('#'));
            assert(!" @args"@.contains('#'));
            lemma_concat_lacks(root, " "@, '#');
            lemma_concat_lacks(root + " "@, subs[k - 1].1, '#');
            lemma_concat_lacks(root + " "@ + subs[k - 1].1, " @args"@, '#');
            lemma_function_line(subs[k - 1].0, body);
            let cur = sub_alias_lines(root, subs, k);
            assert(cur == prev.push(function_line(subs[k - 1].0, body)));
            lemma_names_split(cur, 0, prev.len() as int, cur.len() as int);
            lemma_names_same_lines(cur, prev, 0, prev.len() as int, 0);
            assert(cur[prev.len() as int] == function_line(subs[k - 1].0, body));
            assert(function_names_in(cur, prev.len() as int, prev.len() as int) =~= Seq::<Seq<char>>::empty());
            assert(function_names_in(cur, prev.len() as int, cur.len() as int) =~= seq![subs[k - 1].0]);
        }
    }
}

/// The lines of a generated block, by position.
proof fn lemma_block_shape(root: Seq<char>, invocation: Seq<char>, subs: Seq<(Seq<char>, Seq<char>, Seq<char>, bool)>)
    ensures
        ({
            let g = alias_block(root, invocation, subs);
            let sl = sub_alias_lines(root, subs, subs.len() as int);
            let m = sl.len() as int;
            &&& g.len() == 11 + m
            &&& g[0] == BANNER_LINE@
            &&& g[1] == "#"@
            &&& g[2] == HEADER_MARKER@ + " -- Generated by rcdir v"@ + VERSION_STRING@
            &&& g[3] == "#"@
            &&& g[4] == BANNER_LINE@
            &&& g[5] == Seq::<char>::empty()
            &&& g[6] == function_line(root, invocation + " @args"@)
            &&& (forall|j: int| 0 <= j < m ==> g[7 + j] == sl[j])
            &&& g[7 + m] == Seq::<char>::empty()
            &&& g[8 + m] == BANNER_LINE@
            &&& g[9 + m] == FOOTER_MARKER@
            &&& g[10 + m] == BANNER_LINE@
        }),
{
}

/// The function names of a generated block: the root alias, then the
/// enabled sub-aliases.
proof fn lemma_block_names(root: Seq<char>, invocation: Seq<char>, subs: Seq<(Seq<char>, Seq<char>, Seq<char>, bool)>)
    requires
        plain_text(root),
        !invocation.contains('#'),
        plain_subs(subs),
    ensures
        function_names_in(alias_block(root, invocation, subs), 0, alias_block(root, invocation, subs).len() as int)
            == seq![root] + enabled_names(subs, subs.len() as int),
        forall|j: int| 0 <= j < sub_alias_lines(root, subs, subs.len() as int).len()
            ==> !(#[trigger] sub_alias_lines(root, subs, subs.len() as int)[j]).contains('#'),
        !function_line(root, invocation + " @args"@).contains('#'),
{
    lemma_sub_lines(root, subs, subs.len() as int);
    lemma_block_shape(root, invocation, subs);
    let g = alias_block(root, invocation, subs);
    let sl = sub_alias_lines(root, subs, subs.len() as int);
    let m = sl.len() as int;
    let header_line = HEADER_MARKER@ + " -- Generated by rcdir v"@ + VERSION_STRING@;
    reveal_strlit("#");
    reveal_strlit("#  RCDir Aliases");
    reveal_strlit("#  End RCDir Aliases");
    reveal_strlit(" @args");
    reveal_strlit("function ");
    lemma_banner();
    assert(!" @args"@.contains('#'));
    lemma_concat_lacks(invocation, " @args"@, '#');
    lemma_function_line(root, invocation + " @args"@);
    assert(!starts_with("#"@, FUNCTION_PREFIX@));
    assert(!starts_with(Seq::<char>::empty(), FUNCTION_PREFIX@));
    assert(!starts_with(header_line, FUNCTION_PREFIX@)) by {
        if starts_with(header_line, FUNCTION_PREFIX@) {
            assert(header_line.take(9)[0] == FUNCTION_PREFIX@[0]);
        }
    }
    assert(!starts_with(FOOTER_MARKER@, FUNCTION_PREFIX@)) by {
        if starts_with(FOOTER_MARKER@, FUNCTION_PREFIX@) {
            assert(FOOTER_MARKER@.take(9)[0] == FUNCTION_PREFIX@[0]);
        }
    }
    assert(function_name(g[0]) is None);
    assert(function_name(g[1]) is None);
    assert(function_name(g[2]) is None);
    assert(function_name(g[3]) is None);
    assert(function_name(g[4]) is None);
    assert(function_name(g[5]) is None);
    assert(function_name(g[7 + m]) is None);
    assert(function_name(g[8 + m]) is None);
    assert(function_name(g[9 + m]) is None);
    assert(function_name(g[10 + m]) is None);
    lemma_names_split(g, 0, 6, 11 + m);
    lemma_names_split(g, 6, 7, 11 + m);
    lemma_names_split(g, 7, 7 + m, 11 + m);
    assert(function_names_in(g, 0, 0) =~= Seq::<Seq<char>>::empty());
    assert(function_names_in(g, 0, 1) =~= Seq::<Seq<char>>::empty());
    assert(function_names_in(g, 0, 2) =~= Seq::<Seq<char>>::empty());
    assert(function_names_in(g, 0, 3) =~= Seq::<Seq<char>>::empty());
    assert(function_names_in(g, 0, 4) =~= Seq::<Seq<char>>::empty());
    assert(function_names_in(g, 0, 5) =~= Seq::<Seq<char>>::empty());
    assert(function_names_in(g, 0, 6) =~= Seq::<Seq<char>>::empty());
    assert(function_names_in(g, 6, 6) =~= Seq::<Seq<char>>::empty());
    assert(function_names_in(g, 6, 7) =~= seq![root]);
    lemma_names_same_lines(g, sl, 7, 7 + m, -7);
    assert(function_names_in(g, 7 + m, 7 + m) =~= Seq::<Seq<char>>::empty());
    assert(function_names_in(g, 7 + m, 8 + m) =~= Seq::<Seq<char>>::empty());
    assert(function_names_in(g, 7 + m, 9 + m) =~= Seq::<Seq<char>>::empty());
    assert(function_names_in(g, 7 + m, 10 + m) =~= Seq::<Seq<char>>::empty());
    assert(function_names_in(g, 7 + m, 11 + m) =~= Seq::<Seq<char>>::empty());
    assert(function_names_in(g, 0, 11 + m) =~= seq![root] + enabled_names(subs, subs.len() as int));
}

/// A generated block between lines `pre` and `post` is the block found,
/// when `pre` holds no header, its last line is not a banner line, and the
/// first line of `post` holds no "####".
#[verifier::rlimit(100)]
proof fn lemma_block_found_between(
    pre: Seq<Seq<char>>,
    root: Seq<char>,
    invocation: Seq<char>,
    subs: Seq<(Seq<char>, Seq<char>, Seq<char>, bool)>,
    post: Seq<Seq<char>>,
)
    requires
        forall|k: int| 0 <= k < pre.len() ==> !contains(#[trigger] pre[k], HEADER_MARKER@),
        pre.len() > 0 ==> !is_banner_line(pre.last()),
        post.len() > 0 ==> !contains(post[0], BANNER_MARKER@),
        root.len() > 0,
        plain_text(root),
        !invocation.contains('#'),
        plain_subs(subs),
    ensures
        ({
            let g = alias_block(root, invocation, subs);
            let b = find_block_view(pre + g + post);
            &&& b.found
            &&& b.start == pre.len()
            &&& b.end == pre.len() + g.len() - 1
            &&& b.root == root
            &&& b.names == seq![root] + enabled_names(subs, subs.len() as int)
        }),
{
    lemma_block_names(root, invocation, subs);
    lemma_block_shape(root, invocation, subs);
    let g = alias_block(root, invocation, subs);
    let all = pre + g + post;
    let sl = sub_alias_lines(root, subs, subs.len() as int);
    let m = sl.len() as int;
    let header_line = HEADER_MARKER@ + " -- Generated by rcdir v"@ + VERSION_STRING@;
    let root_line = function_line(root, invocation + " @args"@);
    reveal_strlit("#");
    reveal_strlit("#  RCDir Aliases");
    reveal_strlit("#  End RCDir Aliases");
    lemma_banner();
    let off = pre.len() as int;
    assert(forall|k: int| 0 <= k < g.len() ==> all[off + k] == g[k]);
    assert(forall|k: int| 0 <= k < pre.len() ==> all[k] == pre[k]);
    // The header is the first line holding the header marker.
    lemma_short_lacks(Seq::empty(), HEADER_MARKER@);
    lemma_short_lacks("#"@, HEADER_MARKER@);
    lemma_lacks_char(BANNER_LINE@, HEADER_MARKER@, 1);
    assert forall|k: int| 0 <= k < off + 2 implies !contains(#[trigger] all[k], HEADER_MARKER@) by {
        if k < off {
            assert(all[k] == pre[k]);
        } else if k == off {
            assert(all[k] == g[0]);
        } else {
            assert(all[k] == g[1]);
        }
    }
    assert(all[off + 2] == header_line);
    assert(header_line.subrange(0, 16) =~= HEADER_MARKER@);
    assert(find_from(header_line, HEADER_MARKER@, 0) == Some(0int));
    lemma_first_containing_at(all, HEADER_MARKER@, 0, off + 2);
    // The block starts right after the old lines.
    assert(utf8_len("#"@.drop_last()) == 0);
    assert(is_banner_line("#"@));
    assert(all[off + 1] == g[1]);
    assert(all[off] == g[0]);
    assert(block_start(all, off) == off) by {
        if off > 0 {
            assert(all[off - 1] == pre.last());
        }
    }
    assert(block_start(all, off + 1) == off);
    assert(block_start(all, off + 2) == off);
    // The footer is the first line after the header holding the footer marker.
    lemma_short_lacks(Seq::empty(), FOOTER_MARKER@);
    lemma_short_lacks("#"@, FOOTER_MARKER@);
    lemma_lacks_char(BANNER_LINE@, FOOTER_MARKER@, 1);
    lemma_lacks_char(root_line, FOOTER_MARKER@, 0);
    assert forall|k: int| off + 3 <= k < off + 9 + m implies !contains(#[trigger] all[k], FOOTER_MARKER@) by {
        let i = k - off;
        assert(all[k] == g[i]);
        if 7 <= i < 7 + m {
            assert(g[i] == sl[i - 7]);
            assert(!sl[i - 7].contains('#'));
            lemma_lacks_char(sl[i - 7], FOOTER_MARKER@, 0);
        }
    }
    assert(all[off + 9 + m] == FOOTER_MARKER@);
    assert(FOOTER_MARKER@.subrange(0, 20) =~= FOOTER_MARKER@);
    assert(find_from(FOOTER_MARKER@, FOOTER_MARKER@, 0) == Some(0int));
    lemma_first_containing_at(all, FOOTER_MARKER@, off + 3, off + 9 + m);
    // The block ends at the banner below the footer.
    assert(all[off + 10 + m] == BANNER_LINE@);
    assert(block_end(all, off + 10 + m) == off + 10 + m) by {
        if off + 11 + m < all.len() {
            assert(all[off + 11 + m] == post[0]);
        }
    }
    assert(block_end(all, off + 9 + m) == off + 10 + m);
    // The function names are those of the block.
    lemma_names_same_lines(all, g, off, off + 11 + m, -off);
    let names = function_names_in(all, off, off + 11 + m);
    assert(names == seq![root] + enabled_names(subs, subs.len() as int));
    assert(names[0] == root);
    lemma_first_nonempty_head(names);
}

/// Appending a generated block to a profile without a block gives a
/// profile whose block is found right after the old lines, ends at the
/// last line, and names the root alias and then the enabled sub-aliases.
/// Names are free of spaces and '#', and the old lines hold no header.
pub proof fn lemma_appended_block_found(
    lines: Seq<Seq<char>>,
    root: Seq<char>,
    invocation: Seq<char>,
    subs: Seq<(Seq<char>, Seq<char>, Seq<char>, bool)>,
)
    requires
        forall|k: int| 0 <= k < lines.len() ==> !contains(#[trigger] lines[k], HEADER_MARKER@),
        root.len() > 0,
        plain_text(root),
        !invocation.contains('#'),
        plain_subs(subs),
    ensures
        ({
            let g = alias_block(root, invocation, subs);
            let all = appended(lines, g);
            let b = find_block_view(all);
            &&& b.found
            &&& b.start == all.len() - g.len()
            &&& b.end == all.len() - 1
            &&& b.root == root
            &&& b.names == seq![root] + enabled_names(subs, subs.len() as int)
        }),
{
    let g = alias_block(root, invocation, subs);
    let pre = if lines.len() > 0 && lines.last().len() > 0 {
        lines.push(Seq::empty())
    } else {
        lines
    };
    assert forall|k: int| 0 <= k < pre.len() implies !contains(#[trigger] pre[k], HEADER_MARKER@) by {
        if k < lines.len() {
            assert(pre[k] == lines[k]);
        } else {
            reveal_strlit("#  RCDir Aliases");
            lemma_short_lacks(Seq::empty(), HEADER_MARKER@);
        }
    }
    assert(appended(lines, g) =~= pre + g + Seq::<Seq<char>>::empty());
    lemma_block_found_between(pre, root, invocation, subs, Seq::empty());
}

/// Replacing a profile's block by a generated one gives a profile whose
/// block is the new one, in the old one's place, naming the root alias and
/// then the enabled sub-aliases.  The lines before the old block hold no
/// header and do not end in a banner line, and the line after it holds no
/// "####"; names are free of spaces and '#'.
pub proof fn lemma_replaced_block_found(
    lines: Seq<Seq<char>>,
    s: int,
    e: int,
    root: Seq<char>,
    invocation: Seq<char>,
    subs: Seq<(Seq<char>, Seq<char>, Seq<char>, bool)>,
)
    requires
        0 <= s <= e < lines.len(),
        forall|k: int| 0 <= k < s ==> !contains(#[trigger] lines[k], HEADER_MARKER@),
        s > 0 ==> !is_banner_line(lines[s - 1]),
        e + 1 < lines.len() ==> !contains(lines[e + 1], BANNER_MARKER@),
        root.len() > 0,
        plain_text(root),
        !invocation.contains('#'),
        plain_subs(subs),
    ensures
        ({
            let g = alias_block(root, invocation, subs);
            let b = find_block_view(crate::profile_file_manager::replaced(lines, s, e, g));
            &&& b.found
            &&& b.start == s
            &&& b.end == s + g.len() - 1
            &&& b.root == root
            &&& b.names == seq![root] + enabled_names(subs, subs.len() as int)
        }),
{
    let pre = lines.take(s);
    let post = lines.skip(e + 1);
    assert forall|k: int| 0 <= k < pre.len() implies !contains(#[trigger] pre[k], HEADER_MARKER@) by {
        assert(pre[k] == lines[k]);
    }
    if s > 0 {
        assert(pre.last() == lines[s - 1]);
    }
    if post.len() > 0 {
        assert(post[0] == lines[e + 1]);
    }
    lemma_block_found_between(pre, root, invocation, subs, post);
}

/// Lines before the first one holding `p` do not hold it.
proof fn lemma_before_first_containing(lines: Seq<Seq<char>>, p: Seq<char>, i: int, j: int)
    requires
        0 <= i,
        first_containing(lines, p, i) == Some(j),
    ensures
        forall|k: int| i <= k < j ==> !contains(#[trigger] lines[k], p),
    decreases lines.len() - i,
{
    if i < lines.len() && !contains(lines[i], p) {
        lemma_before_first_containing(lines, p, i + 1, j);
    }
}

/// The line above a block's start is no banner line.
proof fn lemma_block_start_stops(lines: Seq<Seq<char>>, s: int)
    requires
        0 <= s < lines.len(),
    ensures
        0 <= block_start(lines, s) <= s,
        block_start(lines, s) > 0 ==> !is_banner_line(lines[block_start(lines, s) - 1]),
    decreases s,
{
    if s > 0 && is_banner_line(lines[s - 1]) {
        lemma_block_start_stops(lines, s - 1);
    }
}

/// The line below a block's end holds no "####".
proof fn lemma_block_end_stops(lines: Seq<Seq<char>>, e: int)
    requires
        0 <= e < lines.len(),
    ensures
        e <= block_end(lines, e) < lines.len(),
        block_end(lines, e) + 1 < lines.len() ==> !contains(lines[block_end(lines, e) + 1], BANNER_MARKER@),
    decreases lines.len() - e,
{
    if e + 1 < lines.len() && contains(lines[e + 1], BANNER_MARKER@) {
        lemma_block_end_stops(lines, e + 1);
    }
}

/// Writing a generated block into a profile (in place of its block, or
/// appended when it has none) gives a profile whose block is found and
/// names the root alias and then the enabled sub-aliases.  The profile
/// holds either a complete block or no header at all; names are free of
/// spaces and '#'.
pub proof fn lemma_applied_block_found(
    lines: Seq<Seq<char>>,
    root: Seq<char>,
    invocation: Seq<char>,
    subs: Seq<(Seq<char>, Seq<char>, Seq<char>, bool)>,
)
    requires
        find_block_view(lines).found || forall|k: int| 0 <= k < lines.len() ==> !contains(#[trigger] lines[k], HEADER_MARKER@),
        root.len() > 0,
        plain_text(root),
        !invocation.contains('#'),
        plain_subs(subs),
    ensures
        ({
            let g = alias_block(root, invocation, subs);
            let old_b = find_block_view(lines);
            let written = if old_b.found {
                crate::profile_file_manager::replaced(lines, old_b.start, old_b.end, g)
            } else {
                appended(lines, g)
            };
            let b = find_block_view(written);
            &&& b.found
            &&& b.root == root
            &&& b.names == seq![root] + enabled_names(subs, subs.len() as int)
        }),
{
    let old_b = find_block_view(lines);
    if old_b.found {
        let i = first_containing(lines, HEADER_MARKER@, 0)->0;
        crate::profile_file_manager::lemma_found_block_in_range(lines);
        lemma_before_first_containing(lines, HEADER_MARKER@, 0, i);
        crate::profile_file_manager::lemma_first_containing_range(lines, HEADER_MARKER@, 0);
        lemma_block_start_stops(lines, i);
        let j = first_containing(lines, FOOTER_MARKER@, i + 1)->0;
        crate::profile_file_manager::lemma_first_containing_range(lines, FOOTER_MARKER@, i + 1);
        lemma_block_end_stops(lines, j);
        lemma_replaced_block_found(lines, old_b.start, old_b.end, root, invocation, subs);
    } else {
        lemma_appended_block_found(lines, root, invocation, subs);
    }
}

/// The function line that defines `name` as `body`.
fn make_function_line(name: &str, body: &String) -> (r: String)
    ensures
        r@ == function_line(name@, body@),
{
    let mut s = String::new();
    push_str(&mut s, "function ");
    push_str(&mut s, name);
    push_str(&mut s, " { ");
    push_str(&mut s, body.as_str());
    push_str(&mut s, " }");
    proof {
        reveal_strlit("function ");
        reveal_strlit(" { ");
        reveal_strlit(" }");
    }
    assert(s@ =~= function_line(name@, body@));
    s
}

/// Generates the alias block of `config`.
pub fn generate(config: &AliasConfig) -> (r: Vec<String>)
    ensures
        r@.map_values(|l: String| l@) == alias_block(
            config.root_alias@,
            config.rcdir_invocation@,
            config.sub_aliases@.map_values(|d: AliasDefinition| alias_def_view(d)),
        ),
{
    let ghost subs = config.sub_aliases@.map_values(|d: AliasDefinition| alias_def_view(d));
    let ghost root = config.root_alias@;
    let mut out: Vec<String> = Vec::new();
    out.push(string_from(BANNER_LINE));
    out.push(string_from("#"));
    let mut h = String::new();
    push_str(&mut h, HEADER_MARKER);
    push_str(&mut h, " -- Generated by rcdir v");
    push_str(&mut h, VERSION_STRING);
    out.push(h);
    out.push(string_from("#"));
    out.push(string_from(BANNER_LINE));
    out.push(String::new());
    assert(out@.map_values(|l: String| l@) =~= block_header());
    let mut body = String::new();
    push_str(&mut body, config.rcdir_invocation.as_str());
    push_str(&mut body, " @args");
    out.push(make_function_line(config.root_alias.as_str(), &body));
    let ghost head = block_header() + seq![function_line(root, config.rcdir_invocation@ + " @args"@)];
    assert(out@.map_values(|l: String| l@) =~= head);
    let mut k: usize = 0;
    while k < config.sub_aliases.len()
        invariant
            k <= config.sub_aliases.len(),
            subs == config.sub_aliases@.map_values(|d: AliasDefinition| alias_def_view(d)),
            root == config.root_alias@,
            out@.map_values(|l: String| l@) == head + sub_alias_lines(root, subs, k as int),
        decreases config.sub_aliases.len() - k,
    {
        let d = &config.sub_aliases[k];
        if d.enabled {
            let mut b = String::new();
            push_str(&mut b, config.root_alias.as_str());
            push_str(&mut b, " ");
            push_str(&mut b, d.flags.as_str());
            push_str(&mut b, " @args");
            let ghost before = out@;
            out.push(make_function_line(d.name.as_str(), &b));
            assert(out@.map_values(|l: String| l@) =~= before.map_values(|l: String| l@).push(
                function_line(subs[k as int].0, root + " "@ + subs[k as int].1 + " @args"@),
            ));
        }
        k = k + 1;
    }
    let ghost mid = out@;
    out.push(String::new());
    out.push(string_from(BANNER_LINE));
    out.push(string_from(FOOTER_MARKER));
    out.push(string_from(BANNER_LINE));
    assert(out@.map_values(|l: String| l@) =~= mid.map_values(|l: String| l@) + block_footer());
    out
}

} // verus!
