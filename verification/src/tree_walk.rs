//! The decisions of a recursive listing: which entries of a directory are
//! subdirectories to descend into (and, in tree mode, which of them still
//! have to join the directory's entries so the tree shows them), whether
//! the walk goes below a directory, and whether an entry is the last one
//! the tree shows at its level.
//!
//! Directory names are compared by their Unicode lowercase form.

use vstd::prelude::*;
use crate::file_info::{FileInfo, FILE_ATTRIBUTE_DIRECTORY, FILE_ATTRIBUTE_REPARSE_POINT};

verus! {

/// What `str::to_lowercase` makes of `s`.
pub uninterp spec fn unicode_lowercase(s: Seq<char>) -> Seq<char>;

/// `str::to_lowercase`.  Trusted: the result is `unicode_lowercase` of the
/// text; the case mapping itself is not stated.
#[verifier::external_body]
fn to_lowercase(s: &str) -> (r: String)
    ensures
        r@ == unicode_lowercase(s@),
{
    s.to_lowercase()
}

/// `.` or `..`.
pub open spec fn is_dot_name(n: Seq<char>) -> bool {
    n == seq!['.'] || n == seq!['.', '.']
}

/// An entry found in a directory names a subdirectory to descend into.
pub open spec fn descends(name: Seq<char>, attrs: u32) -> bool {
    !is_dot_name(name) && attrs & FILE_ATTRIBUTE_DIRECTORY != 0
}

/// Lowercase names of the directories among `matches[..k]`.
pub open spec fn dir_keys(matches: Seq<FileInfo>, k: int) -> Set<Seq<char>>
    decreases k,
{
    if k <= 0 {
        Set::empty()
    } else if matches[k - 1].file_attributes & FILE_ATTRIBUTE_DIRECTORY != 0 {
        dir_keys(matches, k - 1).insert(unicode_lowercase(matches[k - 1].file_name@))
    } else {
        dir_keys(matches, k - 1)
    }
}

/// The plan for `found[k..]`: for each subdirectory, its index and, in
/// tree mode, whether it joins the entries (its lowercase name not yet
/// among `seen`, which then takes it in).
pub open spec fn plan_from(found: Seq<(Seq<char>, u32)>, k: int, seen: Set<Seq<char>>, tree: bool) -> Seq<(int, bool)>
    decreases found.len() - k,
{
    if k < 0 || k >= found.len() {
        Seq::empty()
    } else if descends(found[k].0, found[k].1) {
        let key = unicode_lowercase(found[k].0);
        let add = tree && !seen.contains(key);
        seq![(k, add)] + plan_from(found, k + 1, if add { seen.insert(key) } else { seen }, tree)
    } else {
        plan_from(found, k + 1, seen, tree)
    }
}

/// The subdirectories among the entries `found` of a directory whose
/// entries so far are `matches`: each with its index in `found`, in order,
/// and whether it is to join the entries (in tree mode, when no entry of
/// that name, ignoring case, is there yet).
pub open spec fn subdirectory_plan(matches: Seq<FileInfo>, found: Seq<(Seq<char>, u32)>, tree: bool) -> Seq<(int, bool)> {
    plan_from(found, 0, dir_keys(matches, matches.len() as int), tree)
}

/// `keys` as a set of character sequences.
spec fn key_set(keys: Seq<String>) -> Set<Seq<char>> {
    Set::new(|k: Seq<char>| exists|i: int| 0 <= i < keys.len() && (#[trigger] keys[i])@ == k)
}

/// Whether `keys` holds `key`.
fn holds_key(keys: &Vec<String>, key: &String) -> (r: bool)
    ensures
        r == key_set(keys@).contains(key@),
{
    let kv = crate::text::chars_of(key.as_str());
    let mut i: usize = 0;
    while i < keys.len()
        invariant
            i <= keys.len(),
            kv@ == key@,
            forall|j: int| 0 <= j < i ==> keys@[j]@ != key@,
        decreases keys.len() - i,
    {
        let ev = crate::text::chars_of(keys[i].as_str());
        assert(ev@.subrange(0, ev@.len() as int) =~= ev@);
        if crate::text::eq_range(&ev, 0, ev.len(), &kv) {
            assert(keys@[i as int]@ == key@);
            return true;
        }
        i = i + 1;
    }
    false
}

/// The subdirectories to descend into (see `subdirectory_plan`).
pub fn plan_subdirectories(matches: &[FileInfo], found: &[(String, u32)], tree: bool) -> (r: Vec<(usize, bool)>)
    ensures
        r@.map_values(|p: (usize, bool)| (p.0 as int, p.1)) == subdirectory_plan(
            matches@,
            found@.map_values(|e: (String, u32)| (e.0@, e.1)),
            tree,
        ),
{
    let ghost fv = found@.map_values(|e: (String, u32)| (e.0@, e.1));
    let mut seen: Vec<String> = Vec::new();
    let mut i: usize = 0;
    while i < matches.len()
        invariant
            i <= matches.len(),
            key_set(seen@) == dir_keys(matches@, i as int),
        decreases matches.len() - i,
    {
        if matches[i].file_attributes & FILE_ATTRIBUTE_DIRECTORY != 0 {
            let key = to_lowercase(matches[i].file_name.as_str());
            let ghost before = seen@;
            seen.push(key);
            assert(key_set(seen@) =~= key_set(before).insert(unicode_lowercase(matches@[i as int].file_name@))) by {
                assert forall|k: Seq<char>| key_set(seen@).contains(k) implies key_set(before).insert(
                    unicode_lowercase(matches@[i as int].file_name@),
                ).contains(k) by {
                    let j = choose|j: int| 0 <= j < seen@.len() && (#[trigger] seen@[j])@ == k;
                    if j < before.len() {
                        assert(before[j] == seen@[j]);
                    }
                }
                assert forall|k: Seq<char>| key_set(before).insert(unicode_lowercase(matches@[i as int].file_name@)).contains(k)
                    implies key_set(seen@).contains(k) by {
                    if key_set(before).contains(k) {
                        let j = choose|j: int| 0 <= j < before.len() && (#[trigger] before[j])@ == k;
                        assert(seen@[j] == before[j]);
                    } else {
                        assert(seen@[before.len() as int]@ == k);
                    }
                }
            }
        }
        i = i + 1;
    }
    assert(matches@.len() == matches.len());
    let mut plan: Vec<(usize, bool)> = Vec::new();
    let mut k: usize = 0;
    while k < found.len()
        invariant
            k <= found.len(),
            fv == found@.map_values(|e: (String, u32)| (e.0@, e.1)),
            plan@.map_values(|p: (usize, bool)| (p.0 as int, p.1)) + plan_from(fv, k as int, key_set(seen@), tree)
                == subdirectory_plan(matches@, fv, tree),
        decreases found.len() - k,
    {
        let ghost before_plan = plan@.map_values(|p: (usize, bool)| (p.0 as int, p.1));
        let ghost before_seen = key_set(seen@);
        let name = &found[k].0;
        let attrs = found[k].1;
        assert(fv[k as int] == (name@, attrs));
        let nv = crate::text::chars_of(name.as_str());
        let dots = (nv.len() == 1 && nv[0] == '.') || (nv.len() == 2 && nv[0] == '.' && nv[1] == '.');
        proof {
            if dots {
                assert(nv@ =~= seq!['.'] || nv@ =~= seq!['.', '.']);
            } else {
                assert(nv@ != seq!['.'] && nv@ != seq!['.', '.']) by {
                    if nv@ == seq!['.'] {
                        assert(nv@[0] == '.');
                    }
                    if nv@ == seq!['.', '.'] {
                        assert(nv@[0] == '.' && nv@[1] == '.');
                    }
                }
            }
        }
        if !dots && attrs & FILE_ATTRIBUTE_DIRECTORY != 0 {
            let key = to_lowercase(name.as_str());
            let add = tree && !holds_key(&seen, &key);
            plan.push((k, add));
            assert(plan@.map_values(|p: (usize, bool)| (p.0 as int, p.1)) =~= before_plan.push((k as int, add)));
            if add {
                let ghost s0 = seen@;
                seen.push(key);
                assert(key_set(seen@) =~= before_seen.insert(key@)) by {
                    assert forall|x: Seq<char>| key_set(seen@).contains(x) implies before_seen.insert(key@).contains(x) by {
                        let j = choose|j: int| 0 <= j < seen@.len() && (#[trigger] seen@[j])@ == x;
                        if j < s0.len() {
                            assert(s0[j] == seen@[j]);
                        }
                    }
                    assert forall|x: Seq<char>| before_seen.insert(key@).contains(x) implies key_set(seen@).contains(x) by {
                        if before_seen.contains(x) {
                            let j = choose|j: int| 0 <= j < s0.len() && (#[trigger] s0[j])@ == x;
                            assert(seen@[j] == s0[j]);
                        } else {
                            assert(seen@[s0.len() as int]@ == x);
                        }
                    }
                }
            }
            assert(before_plan + plan_from(fv, k as int, before_seen, tree) =~= plan@.map_values(
                |p: (usize, bool)| (p.0 as int, p.1),
            ) + plan_from(fv, k + 1, key_set(seen@), tree));
        }
        k = k + 1;
    }
    plan
}

/// Whether the walk goes below a directory entry at tree depth `depth`:
/// not through a junction or link, and not past a positive depth limit.
pub open spec fn descend_ok(max_depth: i32, depth: int, attrs: u32) -> bool {
    !(max_depth > 0 && depth + 1 >= max_depth) && attrs & FILE_ATTRIBUTE_REPARSE_POINT == 0
}

/// Whether the walk goes below the directory `entry` at tree depth `depth`.
pub fn should_descend(max_depth: i32, depth: usize, entry: &FileInfo) -> (r: bool)
    ensures
        r == descend_ok(max_depth, depth as int, entry.file_attributes),
{
    let limited = max_depth > 0 && depth >= (max_depth - 1) as usize;
    !limited && entry.file_attributes & FILE_ATTRIBUTE_REPARSE_POINT == 0
}

/// Whether the tree shows an entry: files always; directories unless
/// pruning is on and the walk found nothing below them (`child_visible`
/// is what the walk found, none when the directory has no walked child).
pub open spec fn shown(is_dir: bool, pruning: bool, child_visible: Option<bool>) -> bool {
    !is_dir || !pruning || child_visible != Some(false)
}

/// Whether the tree shows an entry (see `shown`).
pub fn entry_visible(is_dir: bool, pruning: bool, child_visible: Option<bool>) -> (r: bool)
    ensures
        r == shown(is_dir, pruning, child_visible),
{
    !is_dir || !pruning || !matches!(child_visible, Some(false))
}

/// Whether entry `current` is the last one the tree shows at its level:
/// no later entry is shown.
pub fn is_last_visible_entry(visible: &[bool], current: usize) -> (r: bool)
    requires
        current < visible.len(),
    ensures
        r == forall|j: int| current < j < visible.len() ==> !visible@[j],
{
    let mut j = current + 1;
    while j < visible.len()
        invariant
            current < j <= visible.len(),
            forall|k: int| current < k < j ==> !visible@[k],
        decreases visible.len() - j,
    {
        if visible[j] {
            return false;
        }
        j = j + 1;
    }
    true
}

/// Pruning is on in tree mode when some file specification is not `*`:
/// directories with nothing matching below them are then left out.
pub open spec fn pruning_on(tree: bool, specs: Seq<Seq<char>>) -> bool {
    tree && exists|i: int| 0 <= i < specs.len() && specs[i] != seq!['*']
}

/// Whether a tree listing of `specs` prunes directories without matches.
pub fn pruning_active(tree: bool, specs: &[String]) -> (r: bool)
    ensures
        r == pruning_on(tree, specs@.map_values(|s: String| s@)),
{
    let ghost sv = specs@.map_values(|s: String| s@);
    if !tree {
        return false;
    }
    let mut i: usize = 0;
    while i < specs.len()
        invariant
            tree,
            i <= specs.len(),
            sv == specs@.map_values(|s: String| s@),
            forall|j: int| 0 <= j < i ==> sv[j] == seq!['*'],
        decreases specs.len() - i,
    {
        let v = crate::text::chars_of(specs[i].as_str());
        if !(v.len() == 1 && v[0] == '*') {
            proof {
                assert(sv[i as int] == v@);
                if v@ == seq!['*'] {
                    assert(v@[0] == '*');
                }
                assert(sv[i as int] != seq!['*']);
                assert(0 <= (i as int) < sv.len() && sv[i as int] != seq!['*']);
            }
            return true;
        }
        assert(v@ =~= seq!['*']);
        assert(sv[i as int] == v@);
        i = i + 1;
    }
    false
}

/// A directory stays in a pruned tree when it holds matching files or a
/// subdirectory that stays.
pub fn node_visible(file_count: u32, children_visible: &[bool]) -> (r: bool)
    ensures
        r == (file_count > 0 || children_visible@.contains(true)),
{
    if file_count > 0 {
        return true;
    }
    let mut k: usize = 0;
    while k < children_visible.len()
        invariant
            k <= children_visible.len(),
            forall|j: int| 0 <= j < k ==> !children_visible@[j],
        decreases children_visible.len() - k,
    {
        if children_visible[k] {
            assert(children_visible@[k as int] == true);
            return true;
        }
        k = k + 1;
    }
    false
}

} // verus!
