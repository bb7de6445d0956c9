//! Grouping of file masks by the directory they list.
//!
//! A mask is split into a directory and a file specification: a bare mask
//! belongs to the current directory (or names a subdirectory to list), a
//! qualified one is made absolute and split at its last separator.  Masks
//! of the same directory (compared without regard to ASCII case) share one
//! group, in the order of first appearance.
//!
//! Paths follow Windows conventions: `\` and `/` separate components, `X:`
//! names a drive, and a path is absolute when it starts with a drive and a
//! separator or with two separators.  A root-relative path keeps the drive
//! of the directory it is joined to.  `.` components are not resolved.
//! What the file system says (whether a path is a directory, the canonical
//! form of a path) comes from a `FileSystemQuery`.

use vstd::prelude::*;
use crate::command_line::strings_view;
use crate::text::{chars_of, lower_char, lower_range, lower_seq, push_char, push_str, string_of, string_of_range, string_from, to_lower_char};

verus! {

/// A mask with no path separator and no drive letter.
pub open spec fn pure_mask(m: Seq<char>) -> bool {
    &&& !m.contains('\\')
    &&& !m.contains('/')
    &&& !(m.len() >= 2 && m[1] == ':' && (('a' <= m[0] && m[0] <= 'z') || ('A' <= m[0] && m[0] <= 'Z')))
}

/// Whether `mask` is a bare file mask, to be looked up in the current
/// directory.
pub fn is_pure_mask(mask: &str) -> (r: bool)
    ensures
        r == pure_mask(mask@),
{
    let v = chars_of(mask);
    let mut i: usize = 0;
    while i < v.len()
        invariant
            i <= v.len(),
            v@ == mask@,
            forall|j: int| 0 <= j < i ==> v@[j] != '\\' && v@[j] != '/',
        decreases v.len() - i,
    {
        if v[i] == '\\' || v[i] == '/' {
            assert(v@.contains(v@[i as int]));
            return false;
        }
        i = i + 1;
    }
    if v.len() >= 2 && v[1] == ':' && (('a' <= v[0] && v[0] <= 'z') || ('A' <= v[0] && v[0] <= 'Z')) {
        return false;
    }
    true
}

/// Key under which a directory is grouped: lowercase, ending in '\'.
pub open spec fn dir_key(dir: Seq<char>) -> Seq<char> {
    let l = lower_seq(dir);
    if l.len() > 0 && l.last() == '\\' {
        l
    } else {
        l.push('\\')
    }
}

/// A group as mathematical values: directory and file specifications.
pub open spec fn group_view(g: (String, Vec<String>)) -> (Seq<char>, Seq<Seq<char>>) {
    (g.0@, strings_view(g.1@))
}

/// Groups as mathematical values.
pub open spec fn groups_view(gs: Seq<(String, Vec<String>)>) -> Seq<(Seq<char>, Seq<Seq<char>>)> {
    gs.map_values(|g: (String, Vec<String>)| group_view(g))
}

/// Index entries as mathematical values.
pub open spec fn index_view(ix: Seq<(String, usize)>) -> Seq<(Seq<char>, usize)> {
    ix.map_values(|e: (String, usize)| (e.0@, e.1))
}

/// Every index entry points at an existing group.
pub open spec fn index_ok(ix: Seq<(Seq<char>, usize)>, n: int) -> bool {
    forall|k: int| 0 <= k < ix.len() ==> #[trigger] ix[k].1 < n
}

/// Position of the first index entry with key `key`.
pub open spec fn first_key(ix: Seq<(Seq<char>, usize)>, key: Seq<char>, i: int) -> Option<int>
    decreases ix.len() - i,
{
    if i < 0 || i >= ix.len() {
        None
    } else if ix[i].0 == key {
        Some(i)
    } else {
        first_key(ix, key, i + 1)
    }
}

/// Groups after adding `spec` for `dir`: appended to the group of the same
/// directory key, or as a new group.
pub open spec fn groups_after_add(
    gs: Seq<(Seq<char>, Seq<Seq<char>>)>,
    ix: Seq<(Seq<char>, usize)>,
    dir: Seq<char>,
    spec: Seq<char>,
) -> Seq<(Seq<char>, Seq<Seq<char>>)> {
    match first_key(ix, dir_key(dir), 0) {
        Some(k) => gs.update(ix[k].1 as int, (gs[ix[k].1 as int].0, gs[ix[k].1 as int].1.push(spec))),
        None => gs.push((dir, seq![spec])),
    }
}

/// Index after adding a mask for `dir`.
pub open spec fn index_after_add(ix: Seq<(Seq<char>, usize)>, n: int, dir: Seq<char>) -> Seq<(Seq<char>, usize)> {
    match first_key(ix, dir_key(dir), 0) {
        Some(k) => ix,
        None => ix.push((dir_key(dir), n as usize)),
    }
}

/// The group key of `dir`.
fn make_dir_key(dir: &String) -> (r: String)
    ensures
        r@ == dir_key(dir@),
{
    let v = chars_of(dir.as_str());
    let l = lower_range(&v, 0, v.len());
    assert(v@.subrange(0, v@.len() as int) =~= v@);
    let mut s = string_of(&l);
    if l.len() == 0 || l[l.len() - 1] != '\\' {
        push_char(&mut s, '\\');
    }
    s
}

/// Adds the file specification `spec` of directory `dir` to the groups.
pub fn add_mask_to_groups(
    dir: String,
    spec: String,
    groups: &mut Vec<(String, Vec<String>)>,
    dir_to_index: &mut Vec<(String, usize)>,
)
    requires
        index_ok(index_view(old(dir_to_index)@), old(groups).len() as int),
    ensures
        groups_view(final(groups)@) == groups_after_add(
            groups_view(old(groups)@),
            index_view(old(dir_to_index)@),
            dir@,
            spec@,
        ),
        index_view(final(dir_to_index)@) == index_after_add(
            index_view(old(dir_to_index)@),
            old(groups).len() as int,
            dir@,
        ),
        index_ok(index_view(final(dir_to_index)@), final(groups).len() as int),
{
    let key = make_dir_key(&dir);
    let ghost ix = index_view(dir_to_index@);
    let ghost gs = groups_view(groups@);
    let kv = chars_of(key.as_str());
    let mut k: usize = 0;
    while k < dir_to_index.len()
        invariant
            k <= dir_to_index.len(),
            ix == index_view(dir_to_index@),
            gs == groups_view(groups@),
            gs == groups_view(old(groups)@),
            ix == index_view(old(dir_to_index)@),
            index_ok(ix, groups.len() as int),
            key@ == dir_key(dir@),
            kv@ == key@,
            first_key(ix, key@, 0) == first_key(ix, key@, k as int),
        decreases dir_to_index.len() - k,
    {
        let ev = chars_of(dir_to_index[k].0.as_str());
        if crate::text::eq_range(&ev, 0, ev.len(), &kv) {
            assert(ev@.subrange(0, ev@.len() as int) =~= ev@);
            let idx = dir_to_index[k].1;
            assert(ix[k as int].1 == idx);
            let ghost before = groups@[idx as int].1@;
            groups[idx].1.push(spec);
            assert(strings_view(groups@[idx as int].1@) =~= strings_view(before).push(spec@));
            assert(groups_view(groups@) =~= gs.update(idx as int, (gs[idx as int].0, gs[idx as int].1.push(spec@))));
            return;
        }
        assert(ev@.subrange(0, ev@.len() as int) =~= ev@);
        k = k + 1;
    }
    let n = groups.len();
    dir_to_index.push((key, n));
    let mut specs: Vec<String> = Vec::new();
    specs.push(spec);
    assert(strings_view(specs@) =~= seq![spec@]);
    groups.push((dir, specs));
    assert(groups_view(groups@) =~= gs.push((dir@, seq![spec@])));
    assert(index_view(dir_to_index@) =~= ix.push((key@, n)));
}

/// Groups after adding the split masks `splits[..k]` in order.
pub open spec fn grouped(
    gs: Seq<(Seq<char>, Seq<Seq<char>>)>,
    ix: Seq<(Seq<char>, usize)>,
    splits: Seq<(Seq<char>, Seq<char>)>,
) -> Seq<(Seq<char>, Seq<Seq<char>>)>
    decreases splits.len(),
{
    if splits.len() == 0 {
        gs
    } else {
        let d = splits[0].0;
        let f = splits[0].1;
        grouped(groups_after_add(gs, ix, d, f), index_after_add(ix, gs.len() as int, d), splits.drop_first())
    }
}

/// The listing groups of masks already split into a directory and a file
/// specification, in order of first appearance; with no masks, the current
/// directory with "*".
pub fn group_split_masks(cwd: String, splits: Vec<(String, String)>) -> (r: Vec<(String, Vec<String>)>)
    requires
        splits.len() < usize::MAX,
    ensures
        splits.len() == 0 ==> groups_view(r@) == seq![(cwd@, seq!["*"@])],
        splits.len() > 0 ==> groups_view(r@) == grouped(
            Seq::empty(),
            Seq::empty(),
            splits@.map_values(|p: (String, String)| (p.0@, p.1@)),
        ),
{
    let mut groups: Vec<(String, Vec<String>)> = Vec::new();
    if splits.len() == 0 {
        let mut specs: Vec<String> = Vec::new();
        specs.push(string_from("*"));
        assert(strings_view(specs@) =~= seq!["*"@]);
        groups.push((cwd, specs));
        assert(groups_view(groups@) =~= seq![(cwd@, seq!["*"@])]);
        return groups;
    }
    let ghost all = splits@.map_values(|p: (String, String)| (p.0@, p.1@));
    let mut index: Vec<(String, usize)> = Vec::new();
    let mut rest = splits;
    assert(groups_view(groups@) =~= Seq::<(Seq<char>, Seq<Seq<char>>)>::empty());
    assert(index_view(index@) =~= Seq::<(Seq<char>, usize)>::empty());
    while rest.len() > 0
        invariant
            index_ok(index_view(index@), groups.len() as int),
            grouped(groups_view(groups@), index_view(index@), rest@.map_values(|p: (String, String)| (p.0@, p.1@)))
                == grouped(Seq::empty(), Seq::empty(), all),
        decreases rest.len(),
    {
        let ghost r0 = rest@;
        let (d, f) = rest.remove(0);
        assert(rest@.map_values(|p: (String, String)| (p.0@, p.1@)) =~= r0.map_values(|p: (String, String)| (p.0@, p.1@)).drop_first());
        add_mask_to_groups(d, f, &mut groups, &mut index);
    }
    groups
}

/// Number of file specifications held by the groups.
pub open spec fn spec_count(gs: Seq<(Seq<char>, Seq<Seq<char>>)>) -> nat
    decreases gs.len(),
{
    if gs.len() == 0 {
        0
    } else {
        spec_count(gs.drop_last()) + gs.last().1.len()
    }
}

/// A found index entry is inside the index.
proof fn lemma_first_key_range(ix: Seq<(Seq<char>, usize)>, key: Seq<char>, i: int)
    requires
        0 <= i,
    ensures
        first_key(ix, key, i) matches Some(k) ==> i <= k < ix.len(),
    decreases ix.len() - i,
{
    if i < ix.len() && ix[i].0 != key {
        lemma_first_key_range(ix, key, i + 1);
    }
}

/// Adding one specification to a group adds one to the count.
proof fn lemma_count_update(gs: Seq<(Seq<char>, Seq<Seq<char>>)>, i: int, x: Seq<char>)
    requires
        0 <= i < gs.len(),
    ensures
        spec_count(gs.update(i, (gs[i].0, gs[i].1.push(x)))) == spec_count(gs) + 1,
    decreases gs.len(),
{
    let u = gs.update(i, (gs[i].0, gs[i].1.push(x)));
    if i == gs.len() - 1 {
        assert(u.drop_last() =~= gs.drop_last());
    } else {
        lemma_count_update(gs.drop_last(), i, x);
        assert(u.drop_last() =~= gs.drop_last().update(i, (gs[i].0, gs[i].1.push(x))));
    }
}

/// Grouping adds every split to the count.
proof fn lemma_count_grouped(
    gs: Seq<(Seq<char>, Seq<Seq<char>>)>,
    ix: Seq<(Seq<char>, usize)>,
    splits: Seq<(Seq<char>, Seq<char>)>,
)
    requires
        index_ok(ix, gs.len() as int),
    ensures
        spec_count(grouped(gs, ix, splits)) == spec_count(gs) + splits.len(),
    decreases splits.len(),
{
    if splits.len() > 0 {
        let d = splits[0].0;
        let f = splits[0].1;
        lemma_first_key_range(ix, dir_key(d), 0);
        let g2 = groups_after_add(gs, ix, d, f);
        let ix2 = index_after_add(ix, gs.len() as int, d);
        match first_key(ix, dir_key(d), 0) {
            Some(k) => {
                lemma_count_update(gs, ix[k].1 as int, f);
            },
            None => {
                assert(g2.drop_last() =~= gs);
                assert forall|k: int| 0 <= k < ix2.len() implies #[trigger] ix2[k].1 < g2.len() by {
                    if k < ix.len() {
                        assert(ix2[k] == ix[k]);
                    }
                }
            },
        }
        lemma_count_grouped(g2, ix2, splits.drop_first());
    }
}

/// Grouping neither loses nor repeats a mask: the groups together hold
/// exactly as many file specifications as there were split masks.
pub proof fn lemma_grouping_keeps_every_mask(splits: Seq<(Seq<char>, Seq<char>)>)
    ensures
        spec_count(grouped(Seq::empty(), Seq::empty(), splits)) == splits.len(),
{
    lemma_count_grouped(Seq::empty(), Seq::empty(), splits);
}

/// No two groups have the same directory key.
pub open spec fn distinct_dirs(gs: Seq<(Seq<char>, Seq<Seq<char>>)>) -> bool {
    forall|a: int, b: int| 0 <= a < b < gs.len() ==> dir_key(#[trigger] gs[a].0) != dir_key(#[trigger] gs[b].0)
}

/// The index lists each group's key at its position, and keys are distinct.
spec fn index_matches(gs: Seq<(Seq<char>, Seq<Seq<char>>)>, ix: Seq<(Seq<char>, usize)>) -> bool {
    &&& ix.len() == gs.len()
    &&& forall|k: int| 0 <= k < ix.len() ==> (#[trigger] ix[k]).0 == dir_key(gs[k].0) && ix[k].1 as int == k
    &&& distinct_dirs(gs)
}

/// What `first_key` finds, and what it not finding means.
proof fn lemma_first_key_found(ix: Seq<(Seq<char>, usize)>, key: Seq<char>, i: int)
    requires
        0 <= i,
    ensures
        first_key(ix, key, i) matches Some(k) ==> i <= k < ix.len() && ix[k].0 == key,
        first_key(ix, key, i) is None ==> forall|k: int| i <= k < ix.len() ==> (#[trigger] ix[k]).0 != key,
    decreases ix.len() - i,
{
    if i < ix.len() && ix[i].0 != key {
        lemma_first_key_found(ix, key, i + 1);
    }
}

/// Grouping keeps earlier groups (their directories and, as a prefix,
/// their specifications), keeps directory keys distinct, and puts each
/// split's specification into the group of its directory key.
proof fn lemma_grouped_places(
    gs: Seq<(Seq<char>, Seq<Seq<char>>)>,
    ix: Seq<(Seq<char>, usize)>,
    splits: Seq<(Seq<char>, Seq<char>)>,
)
    requires
        index_matches(gs, ix),
        gs.len() + splits.len() <= usize::MAX,
    ensures
        ({
            let r = grouped(gs, ix, splits);
            &&& r.len() >= gs.len()
            &&& forall|a: int| 0 <= a < gs.len() ==> (#[trigger] r[a]).0 == gs[a].0 && r[a].1.len() >= gs[a].1.len()
                && r[a].1.take(gs[a].1.len() as int) == gs[a].1
            &&& distinct_dirs(r)
            &&& forall|i: int| 0 <= i < splits.len() ==> exists|a: int| 0 <= a < r.len() && dir_key(r[a].0) == dir_key(
                (#[trigger] splits[i]).0) && r[a].1.contains(splits[i].1)
        }),
    decreases splits.len(),
{
    let r = grouped(gs, ix, splits);
    if splits.len() == 0 {
        assert forall|a: int| 0 <= a < gs.len() implies (#[trigger] r[a]).0 == gs[a].0 && r[a].1.len() >= gs[a].1.len()
            && r[a].1.take(gs[a].1.len() as int) == gs[a].1 by {
            assert(gs[a].1.take(gs[a].1.len() as int) =~= gs[a].1);
        }
    } else {
        let d = splits[0].0;
        let f = splits[0].1;
        let key = dir_key(d);
        lemma_first_key_found(ix, key, 0);
        let g2 = groups_after_add(gs, ix, d, f);
        let ix2 = index_after_add(ix, gs.len() as int, d);
        let a0: int = match first_key(ix, key, 0) {
            Some(k) => k,
            None => gs.len() as int,
        };
        match first_key(ix, key, 0) {
            Some(k) => {
                assert(ix[k].1 as int == k);
                assert(g2 == gs.update(k, (gs[k].0, gs[k].1.push(f))));
                assert forall|a: int, b: int| 0 <= a < b < g2.len() implies dir_key(#[trigger] g2[a].0) != dir_key(#[trigger] g2[b].0) by {
                    assert(g2[a].0 == gs[a].0);
                    assert(g2[b].0 == gs[b].0);
                }
                assert(index_matches(g2, ix2));
            },
            None => {
                assert(g2 == gs.push((d, seq![f])));
                assert(ix2 == ix.push((key, gs.len() as usize)));
                assert forall|a: int, b: int| 0 <= a < b < g2.len() implies dir_key(#[trigger] g2[a].0) != dir_key(#[trigger] g2[b].0) by {
                    if b == gs.len() {
                        assert(ix[a].0 == dir_key(gs[a].0));
                    } else {
                        assert(g2[a].0 == gs[a].0);
                        assert(g2[b].0 == gs[b].0);
                    }
                }
                assert forall|k: int| 0 <= k < ix2.len() implies (#[trigger] ix2[k]).0 == dir_key(g2[k].0) && ix2[k].1 as int == k by {
                    if k < ix.len() {
                        assert(ix2[k] == ix[k]);
                    }
                }
                assert(index_matches(g2, ix2));
            },
        }
        assert(0 <= a0 < g2.len() && g2[a0].0 == d || dir_key(g2[a0].0) == key);
        assert(g2[a0].1.contains(f)) by {
            assert(g2[a0].1[g2[a0].1.len() - 1] == f);
        }
        lemma_grouped_places(g2, ix2, splits.drop_first());
        assert(r == grouped(g2, ix2, splits.drop_first()));
        assert forall|a: int| 0 <= a < gs.len() implies (#[trigger] r[a]).0 == gs[a].0 && r[a].1.len() >= gs[a].1.len()
            && r[a].1.take(gs[a].1.len() as int) == gs[a].1 by {
            assert(r[a].1.take(g2[a].1.len() as int) == g2[a].1);
            assert(g2[a].1.take(gs[a].1.len() as int) =~= gs[a].1);
            assert(r[a].1.take(gs[a].1.len() as int) =~= r[a].1.take(g2[a].1.len() as int).take(gs[a].1.len() as int));
        }
        assert forall|i: int| 0 <= i < splits.len() implies exists|a: int| 0 <= a < r.len() && dir_key(r[a].0) == dir_key(
            (#[trigger] splits[i]).0) && r[a].1.contains(splits[i].1) by {
            if i == 0 {
                let p = g2[a0].1;
                let j = choose|j: int| 0 <= j < p.len() && p[j] == f;
                assert(r[a0].1.take(p.len() as int) == p);
                assert(r[a0].1[j] == r[a0].1.take(p.len() as int)[j]);
                assert(r[a0].1.contains(f));
                assert(dir_key(r[a0].0) == dir_key(splits[0].0));
            } else {
                assert(splits[i] == splits.drop_first()[i - 1]);
            }
        }
    }
}

/// Masks are grouped by directory: no two groups have the same directory
/// key (lowercase, ending in a separator), and each split mask's file
/// specification is in the group whose directory has its directory's key.
pub proof fn lemma_groups_by_directory(splits: Seq<(Seq<char>, Seq<char>)>)
    requires
        splits.len() <= usize::MAX,
    ensures
        distinct_dirs(grouped(Seq::empty(), Seq::empty(), splits)),
        forall|i: int| 0 <= i < splits.len() ==> exists|a: int|
            0 <= a < grouped(Seq::empty(), Seq::empty(), splits).len()
                && dir_key(grouped(Seq::empty(), Seq::empty(), splits)[a].0) == dir_key((#[trigger] splits[i]).0)
                && grouped(Seq::empty(), Seq::empty(), splits)[a].1.contains(splits[i].1),
{
    lemma_grouped_places(Seq::empty(), Seq::empty(), splits);
}

/// `name` matches the wildcard `mask`, ignoring ASCII case: `*` stands for
/// any run of characters and `?` for any one character.
pub open spec fn wildcard_match(mask: Seq<char>, name: Seq<char>) -> bool
    decreases mask.len() + name.len(),
{
    if mask.len() == 0 {
        name.len() == 0
    } else if mask[0] == '*' {
        wildcard_match(mask.drop_first(), name) || (name.len() > 0 && wildcard_match(mask, name.drop_first()))
    } else if name.len() == 0 {
        false
    } else if mask[0] == '?' || lower_char(mask[0]) == lower_char(name[0]) {
        wildcard_match(mask.drop_first(), name.drop_first())
    } else {
        false
    }
}

/// Whether `name[j..]` matches `mask[i..]`.
fn match_from(mask: &Vec<char>, i: usize, name: &Vec<char>, j: usize) -> (r: bool)
    requires
        i <= mask.len(),
        j <= name.len(),
    ensures
        r == wildcard_match(mask@.skip(i as int), name@.skip(j as int)),
    decreases mask.len() - i + name.len() - j,
{
    let ghost m = mask@.skip(i as int);
    let ghost n = name@.skip(j as int);
    if i == mask.len() {
        return j == name.len();
    }
    assert(m.drop_first() =~= mask@.skip(i + 1));
    assert(j < name.len() ==> n.drop_first() =~= name@.skip(j + 1));
    if mask[i] == '*' {
        if match_from(mask, i + 1, name, j) {
            return true;
        }
        return j < name.len() && match_from(mask, i, name, j + 1);
    }
    if j == name.len() {
        return false;
    }
    if mask[i] == '?' || to_lower_char(mask[i]) == to_lower_char(name[j]) {
        return match_from(mask, i + 1, name, j + 1);
    }
    false
}

/// Whether the file name `name` matches the wildcard mask `mask`.
pub fn mask_matches(name: &str, mask: &str) -> (r: bool)
    ensures
        r == wildcard_match(mask@, name@),
{
    let m = chars_of(mask);
    let n = chars_of(name);
    assert(m@.skip(0) =~= m@);
    assert(n@.skip(0) =~= n@);
    match_from(&m, 0, &n, 0)
}


/// File-system questions that splitting a mask asks.
pub trait FileSystemQuery {
    /// Whether `path` is an existing directory.
    fn is_dir(&self, path: &str) -> bool;

    /// The canonical, absolute form of `path`, if it can be had.
    fn canonicalize(&self, path: &str) -> Option<String>;
}

/// A path separator.
pub open spec fn is_sep(c: char) -> bool {
    c == '\\' || c == '/'
}

/// `p` starts with a drive letter and a colon.
pub open spec fn has_drive(p: Seq<char>) -> bool {
    p.len() >= 2 && p[1] == ':' && (('a' <= p[0] && p[0] <= 'z') || ('A' <= p[0] && p[0] <= 'Z'))
}

/// `p` is absolute: a drive and a separator, or two leading separators.
pub open spec fn is_absolute_path(p: Seq<char>) -> bool {
    ||| has_drive(p) && p.len() >= 3 && is_sep(p[2])
    ||| p.len() >= 2 && is_sep(p[0]) && is_sep(p[1])
}

/// `p` appended to `base` as a path component: a path with a drive
/// replaces `base`, a root-relative path keeps only the drive of `base`,
/// and a relative path is joined with a separator where `base` needs one.
pub open spec fn push_path(base: Seq<char>, p: Seq<char>) -> Seq<char> {
    if has_drive(p) {
        p
    } else if p.len() > 0 && is_sep(p[0]) {
        (if has_drive(base) { base.take(2) } else { Seq::empty() }) + p
    } else if base.len() == 0 || is_sep(base.last()) || (base.len() == 2 && has_drive(base)) {
        base + p
    } else {
        base + seq!['\\'] + p
    }
}

/// Length of the drive and root at the start of `p`.
pub open spec fn root_len(p: Seq<char>) -> int {
    if has_drive(p) {
        if p.len() >= 3 && is_sep(p[2]) { 3 } else { 2 }
    } else if p.len() >= 1 && is_sep(p[0]) {
        1
    } else {
        0
    }
}

/// `p` without trailing separators, never shorter than `floor`.
pub open spec fn trim_end(p: Seq<char>, floor: int) -> Seq<char>
    decreases p.len(),
{
    if p.len() > floor && p.len() > 0 && is_sep(p.last()) {
        trim_end(p.drop_last(), floor)
    } else {
        p
    }
}

/// Index of the last separator in `p[lo..hi]`.
pub open spec fn last_sep_in(p: Seq<char>, lo: int, hi: int) -> Option<int>
    decreases hi - lo,
{
    if hi <= lo {
        None
    } else if is_sep(p[hi - 1]) {
        Some(hi - 1)
    } else {
        last_sep_in(p, lo, hi - 1)
    }
}

/// The last component of `p`; none when `p` is only a root or ends in `..`.
pub open spec fn file_part(p: Seq<char>) -> Option<Seq<char>> {
    let r = root_len(p);
    let t = trim_end(p, r);
    if t.len() <= r {
        None
    } else {
        let comp = match last_sep_in(t, r, t.len() as int) {
            Some(k) => t.skip(k + 1),
            None => t.skip(r),
        };
        if comp == ".."@ {
            None
        } else {
            Some(comp)
        }
    }
}

/// `p` without its last component; none when `p` is only a root.
pub open spec fn dir_part(p: Seq<char>) -> Option<Seq<char>> {
    let r = root_len(p);
    let t = trim_end(p, r);
    if t.len() <= r {
        None
    } else {
        match last_sep_in(t, r, t.len() as int) {
            Some(k) => Some(trim_end(t.take(k), r)),
            None => Some(t.take(r)),
        }
    }
}

/// `p` without a leading `\\?\`.
pub open spec fn strip_verbatim(p: Seq<char>) -> Seq<char> {
    if crate::text::starts_with(p, "\\\\?\\"@) {
        p.skip(4)
    } else {
        p
    }
}

/// `m` holds a wildcard.
pub open spec fn has_wildcard(m: Seq<char>) -> bool {
    m.contains('*') || m.contains('?')
}

/// The split of a bare mask, given whether the directory of that name
/// under `cwd` exists.
pub open spec fn pure_split(mask: Seq<char>, cwd: Seq<char>, is_dir: bool) -> (Seq<char>, Seq<char>) {
    if !has_wildcard(mask) && is_dir {
        (push_path(cwd, mask), "*"@)
    } else {
        (cwd, mask)
    }
}

/// The absolute form of a qualified mask, given what canonicalising the
/// joined path gave.
pub open spec fn qualified_path(mask: Seq<char>, cwd: Seq<char>, canonical: Option<Seq<char>>) -> Seq<char> {
    if is_absolute_path(mask) {
        mask
    } else {
        match canonical {
            Some(c) => strip_verbatim(c),
            None => push_path(cwd, mask),
        }
    }
}

/// The split of a qualified mask whose absolute form is `abs`, given
/// whether `abs` is an existing directory.
pub open spec fn qualified_split(mask: Seq<char>, abs: Seq<char>, is_dir: bool) -> (Seq<char>, Seq<char>) {
    if (mask.len() > 0 && is_sep(mask.last())) || is_dir {
        (abs, "*"@)
    } else {
        (
            match dir_part(abs) {
                Some(d) => d,
                None => "."@,
            },
            match file_part(abs) {
                Some(f) => f,
                None => "*"@,
            },
        )
    }
}

/// The split of `mask`, given the file system's answers.
pub open spec fn split_outcome(
    mask: Seq<char>,
    cwd: Seq<char>,
    canonical: Option<Seq<char>>,
    is_dir: bool,
) -> (Seq<char>, Seq<char>) {
    if pure_mask(mask) {
        pure_split(mask, cwd, is_dir)
    } else {
        qualified_split(mask, qualified_path(mask, cwd, canonical), is_dir)
    }
}

/// `out` is the split of `mask` for some answers of the file system.
pub open spec fn split_possible(mask: Seq<char>, cwd: Seq<char>, out: (Seq<char>, Seq<char>)) -> bool {
    exists|c: Option<Seq<char>>, d: bool| out == split_outcome(mask, cwd, c, d)
}

/// A prefix of `p` has the same last separator in a range inside it.
proof fn lemma_last_sep_take(p: Seq<char>, n: int, lo: int, hi: int)
    requires
        0 <= lo,
        0 <= hi <= n <= p.len(),
    ensures
        last_sep_in(p.take(n), lo, hi) == last_sep_in(p, lo, hi),
    decreases hi - lo,
{
    if hi > lo {
        assert(p.take(n)[hi - 1] == p[hi - 1]);
        lemma_last_sep_take(p, n, lo, hi - 1);
    }
}

/// Whether `c` separates path components.
fn sep_char(c: char) -> (r: bool)
    ensures
        r == is_sep(c),
{
    c == '\\' || c == '/'
}

/// Whether `v` starts with a drive letter and a colon.
fn drive_of(v: &Vec<char>) -> (r: bool)
    ensures
        r == has_drive(v@),
{
    v.len() >= 2 && v[1] == ':' && (('a' <= v[0] && v[0] <= 'z') || ('A' <= v[0] && v[0] <= 'Z'))
}

/// Length of the drive and root at the start of `v`.
fn root_len_of(v: &Vec<char>) -> (r: usize)
    ensures
        r == root_len(v@),
        r <= v.len(),
{
    if drive_of(v) {
        if v.len() >= 3 && sep_char(v[2]) {
            3
        } else {
            2
        }
    } else if v.len() >= 1 && sep_char(v[0]) {
        1
    } else {
        0
    }
}

/// Length of `v[..hi]` without its trailing separators, never below
/// `floor`.
fn trimmed_len(v: &Vec<char>, floor: usize, hi: usize) -> (r: usize)
    requires
        hi <= v.len(),
    ensures
        r <= hi,
        v@.take(r as int) == trim_end(v@.take(hi as int), floor as int),
{
    let mut n = hi;
    while n > floor && sep_char(v[n - 1])
        invariant
            n <= hi <= v.len(),
            trim_end(v@.take(n as int), floor as int) == trim_end(v@.take(hi as int), floor as int),
        decreases n,
    {
        assert(v@.take(n as int).drop_last() =~= v@.take(n - 1));
        n = n - 1;
    }
    n
}

/// Index of the last separator in `v[lo..hi]`.
fn last_sep_of(v: &Vec<char>, lo: usize, hi: usize) -> (r: Option<usize>)
    requires
        lo <= hi <= v.len(),
    ensures
        match r {
            Some(k) => last_sep_in(v@, lo as int, hi as int) == Some(k as int) && lo <= k < hi,
            None => last_sep_in(v@, lo as int, hi as int) is None,
        },
{
    let mut n = hi;
    while n > lo
        invariant
            lo <= n <= hi <= v.len(),
            last_sep_in(v@, lo as int, hi as int) == last_sep_in(v@, lo as int, n as int),
        decreases n,
    {
        if sep_char(v[n - 1]) {
            return Some(n - 1);
        }
        n = n - 1;
    }
    None
}

/// The directory and the file parts of `path`: "." when it has no
/// directory part, "*" when it has no file name.
fn split_path(path: &str) -> (r: (String, String))
    ensures
        r.0@ == (match dir_part(path@) {
            Some(d) => d,
            None => "."@,
        }),
        r.1@ == (match file_part(path@) {
            Some(f) => f,
            None => "*"@,
        }),
{
    proof {
        reveal_strlit(".");
        reveal_strlit("*");
        reveal_strlit("..");
    }
    let v = chars_of(path);
    assert(v@.take(v@.len() as int) =~= v@);
    let r = root_len_of(&v);
    let tl = trimmed_len(&v, r, v.len());
    let ghost t = v@.take(tl as int);
    if tl <= r {
        return (string_from("."), string_from("*"));
    }
    proof {
        lemma_last_sep_take(v@, tl as int, r as int, tl as int);
    }
    let (dir, lo) = match last_sep_of(&v, r, tl) {
        Some(k) => {
            let dl = trimmed_len(&v, r, k);
            assert(t.take(k as int) =~= v@.take(k as int));
            (string_of_range(&v, 0, dl), k + 1)
        },
        None => {
            assert(t.take(r as int) =~= v@.subrange(0, r as int));
            (string_of_range(&v, 0, r), r)
        },
    };
    assert(t.skip(lo as int) =~= v@.subrange(lo as int, tl as int));
    let is_up = tl - lo == 2 && v[lo] == '.' && v[lo + 1] == '.';
    proof {
        let sub = v@.subrange(lo as int, tl as int);
        if is_up {
            assert(sub =~= ".."@);
        } else if sub == ".."@ {
            assert(sub[0] == '.' && sub[1] == '.');
        }
    }
    let file = if is_up {
        string_from("*")
    } else {
        string_of_range(&v, lo, tl)
    };
    (dir, file)
}

/// Whether `v` holds `c`.
fn holds_char(v: &Vec<char>, c: char) -> (r: bool)
    ensures
        r == v@.contains(c),
{
    let mut i: usize = 0;
    while i < v.len()
        invariant
            i <= v.len(),
            forall|j: int| 0 <= j < i ==> v@[j] != c,
        decreases v.len() - i,
    {
        if v[i] == c {
            assert(v@[i as int] == c);
            return true;
        }
        i = i + 1;
    }
    false
}

/// `p` appended to `base` as a path component.
pub fn push_path_str(base: &str, p: &str) -> (r: String)
    ensures
        r@ == push_path(base@, p@),
{
    let bv = chars_of(base);
    let pv = chars_of(p);
    if drive_of(&pv) {
        return string_from(p);
    }
    if pv.len() > 0 && sep_char(pv[0]) {
        let mut s = if drive_of(&bv) {
            string_of_range(&bv, 0, 2)
        } else {
            String::new()
        };
        assert(bv@.subrange(0, 2) =~= bv@.take(2));
        push_str(&mut s, p);
        return s;
    }
    let mut s = string_from(base);
    if !(bv.len() == 0 || sep_char(bv[bv.len() - 1]) || (bv.len() == 2 && drive_of(&bv))) {
        push_char(&mut s, '\\');
    }
    push_str(&mut s, p);
    assert(s@ =~= push_path(base@, p@));
    s
}

/// `path` without a leading `\\?\`.
pub fn strip_extended_length_prefix(path: String) -> (r: String)
    ensures
        r@ == strip_verbatim(path@),
{
    proof {
        reveal_strlit("\\\\?\\");
    }
    let v = chars_of(path.as_str());
    if v.len() >= 4 && v[0] == '\\' && v[1] == '\\' && v[2] == '?' && v[3] == '\\' {
        assert(v@.subrange(0, 4) =~= "\\\\?\\"@);
        string_of_range(&v, 4, v.len())
    } else {
        proof {
            if v@.len() >= 4 {
                assert(v@.subrange(0, 4) != "\\\\?\\"@ || !(v@.subrange(0, 4)[0] == '\\' && v@.subrange(0, 4)[1] == '\\' && v@.subrange(0, 4)[2] == '?' && v@.subrange(0, 4)[3] == '\\'));
            }
        }
        path
    }
}

/// The directory to list and the file specification of a bare mask: the
/// subdirectory of that name when the mask has no wildcard and such a
/// directory exists, else the current directory and the mask.
pub fn split_pure_mask<F: FileSystemQuery>(mask: &str, cwd: &str, fs: &F) -> (r: (String, String))
    ensures
        exists|d: bool| (r.0@, r.1@) == pure_split(mask@, cwd@, d),
{
    let mv = chars_of(mask);
    if !holds_char(&mv, '*') && !holds_char(&mv, '?') {
        let candidate = push_path_str(cwd, mask);
        if fs.is_dir(candidate.as_str()) {
            proof {
                reveal_strlit("*");
            }
            assert((candidate@, "*"@) == pure_split(mask@, cwd@, true));
            return (candidate, string_from("*"));
        }
        assert((cwd@, mask@) == pure_split(mask@, cwd@, false));
        return (string_from(cwd), string_from(mask));
    }
    assert((cwd@, mask@) == pure_split(mask@, cwd@, false));
    (string_from(cwd), string_from(mask))
}

/// The directory to list and the file specification of a qualified mask:
/// the mask made absolute (against `cwd`, then canonicalised where the
/// file system can), listed whole when it ends in a separator or is a
/// directory, else split at its last separator.
pub fn split_qualified_mask<F: FileSystemQuery>(mask: &str, cwd: &str, fs: &F) -> (r: (String, String))
    ensures
        exists|c: Option<Seq<char>>, d: bool|
            (r.0@, r.1@) == qualified_split(mask@, qualified_path(mask@, cwd@, c), d),
{
    let mv = chars_of(mask);
    let absolute = (drive_of(&mv) && mv.len() >= 3 && sep_char(mv[2])) || (mv.len() >= 2 && sep_char(mv[0]) && sep_char(mv[1]));
    let ghost mut c: Option<Seq<char>> = None;
    let abs = if absolute {
        string_from(mask)
    } else {
        let joined = push_path_str(cwd, mask);
        match fs.canonicalize(joined.as_str()) {
            Some(canonical) => {
                proof {
                    c = Some(canonical@);
                }
                strip_extended_length_prefix(canonical)
            },
            None => joined,
        }
    };
    assert(abs@ == qualified_path(mask@, cwd@, c));
    let is_dir = if mv.len() > 0 && sep_char(mv[mv.len() - 1]) {
        true
    } else {
        fs.is_dir(abs.as_str())
    };
    if is_dir {
        proof {
            reveal_strlit("*");
        }
        assert((abs@, "*"@) == qualified_split(mask@, qualified_path(mask@, cwd@, c), true));
        (abs, string_from("*"))
    } else {
        let (d, f) = split_path(abs.as_str());
        assert((d@, f@) == qualified_split(mask@, qualified_path(mask@, cwd@, c), false));
        (d, f)
    }
}

/// The directory to list and the file specification of `mask`.
pub fn split_mask_into_dir_and_filespec<F: FileSystemQuery>(mask: &str, cwd: &str, fs: &F) -> (r: (String, String))
    ensures
        split_possible(mask@, cwd@, (r.0@, r.1@)),
{
    if is_pure_mask(mask) {
        let r = split_pure_mask(mask, cwd, fs);
        let ghost d = choose|d: bool| (r.0@, r.1@) == pure_split(mask@, cwd@, d);
        assert((r.0@, r.1@) == split_outcome(mask@, cwd@, None, d));
        r
    } else {
        let r = split_qualified_mask(mask, cwd, fs);
        let ghost (c, d) = choose|c: Option<Seq<char>>, d: bool|
            (r.0@, r.1@) == qualified_split(mask@, qualified_path(mask@, cwd@, c), d);
        assert((r.0@, r.1@) == split_outcome(mask@, cwd@, c, d));
        r
    }
}

/// The listing groups of `masks`: each mask split against `cwd`, masks of
/// the same directory in one group, in order of first appearance; with no
/// masks, `cwd` with "*".
pub fn group_masks_with_cwd_and_fs<F: FileSystemQuery>(masks: &[String], cwd: &str, fs: &F) -> (r: Vec<(String, Vec<String>)>)
    requires
        masks.len() < usize::MAX,
    ensures
        masks.len() == 0 ==> groups_view(r@) == seq![(cwd@, seq!["*"@])],
        masks.len() > 0 ==> exists|outs: Seq<(Seq<char>, Seq<char>)>|
            {
                &&& outs.len() == masks.len()
                &&& forall|i: int| 0 <= i < outs.len() ==> split_possible(masks@[i]@, cwd@, #[trigger] outs[i])
                &&& groups_view(r@) == grouped(Seq::empty(), Seq::empty(), outs)
            },
{
    let mut splits: Vec<(String, String)> = Vec::new();
    let mut k: usize = 0;
    while k < masks.len()
        invariant
            k <= masks.len(),
            splits.len() == k,
            forall|j: int| 0 <= j < k ==> split_possible(masks@[j]@, cwd@, (#[trigger] splits@[j].0@, splits@[j].1@)),
        decreases masks.len() - k,
    {
        let s = split_mask_into_dir_and_filespec(masks[k].as_str(), cwd, fs);
        splits.push(s);
        k = k + 1;
    }
    let ghost outs = splits@.map_values(|p: (String, String)| (p.0@, p.1@));
    assert forall|i: int| 0 <= i < outs.len() implies split_possible(masks@[i]@, cwd@, #[trigger] outs[i]) by {
        assert(outs[i] == (splits@[i].0@, splits@[i].1@));
    }
    let r = group_split_masks(string_from(cwd), splits);
    r
}

} // verus!
