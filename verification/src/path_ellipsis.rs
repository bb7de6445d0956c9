//! Shortening of long paths for display, with an ellipsis in the middle.
//!
//! Widths are counted in characters.

use vstd::prelude::*;
use crate::text::{chars_of, find_char, find_ch, push_char, push_chars, slice_vec, string_of};

verus! {

/// The ellipsis character shown between the kept parts.
pub const ELLIPSIS: char = '\u{2026}';

/// A path split for display as `prefix`, ellipsis, `suffix`.
#[derive(Debug, Clone, PartialEq, Eq)]
pub struct EllipsizedPath {
    pub prefix: String,
    pub suffix: String,
    /// Whether anything was left out.
    pub truncated: bool,
}

/// The pieces of `s` between backslashes.
pub open spec fn split_backslash(s: Seq<char>) -> Seq<Seq<char>>
    decreases s.len(),
{
    match find_char(s, '\\') {
        Some(i) => if 0 <= i < s.len() {
            seq![s.take(i)] + split_backslash(s.skip(i + 1))
        } else {
            seq![s]
        },
        None => seq![s],
    }
}

/// `a`, a backslash and `b`.
pub open spec fn join2(a: Seq<char>, b: Seq<char>) -> Seq<char> {
    a.push('\\') + b
}

/// A candidate prefix and suffix fit in `w` and are shorter than the path.
pub open spec fn fits(prefix: Seq<char>, suffix: Seq<char>, w: int, path: Seq<char>) -> bool {
    let total = prefix.len() + 3 + suffix.len();
    total <= w && total < path.len()
}

/// The display form of `path` in `w` characters, as (prefix, suffix, truncated):
/// the path itself when it fits or has fewer than three components; else
/// the first two components and the last two, the first two and the last,
/// or the first and the last, whichever fits first; else the last component
/// alone, cut to `w - 1` characters when it does not fit, and nothing below
/// two characters.
pub open spec fn ellipsized(path: Seq<char>, w: int) -> (Seq<char>, Seq<char>, bool) {
    let cs = split_backslash(path);
    let n = cs.len();
    let leaf = cs[n - 1];
    if path.len() <= w || n < 3 {
        (path, Seq::empty(), false)
    } else if n >= 4 && fits(join2(cs[0], cs[1]), join2(cs[n - 2], leaf), w, path) {
        (join2(cs[0], cs[1]).push('\\'), seq!['\\'] + join2(cs[n - 2], leaf), true)
    } else if fits(join2(cs[0], cs[1]), leaf, w, path) {
        (join2(cs[0], cs[1]).push('\\'), seq!['\\'] + leaf, true)
    } else if fits(cs[0], leaf, w, path) {
        (cs[0].push('\\'), seq!['\\'] + leaf, true)
    } else if leaf.len() <= w {
        (leaf, Seq::empty(), false)
    } else if w >= 2 {
        (leaf.take(w - 1), Seq::empty(), true)
    } else {
        (Seq::empty(), Seq::empty(), true)
    }
}

/// Splitting yields at least one piece.
proof fn lemma_split_nonempty(s: Seq<char>)
    ensures
        split_backslash(s).len() >= 1,
    decreases s.len(),
{
    match find_char(s, '\\') {
        Some(i) => if 0 <= i < s.len() {
            lemma_split_nonempty(s.skip(i + 1));
        },
        None => {},
    }
}

/// The pieces of `v` between backslashes.
fn split_pieces(v: &Vec<char>) -> (r: Vec<Vec<char>>)
    ensures
        r@.map_values(|p: Vec<char>| p@) == split_backslash(v@),
        forall|k: int| 0 <= k < r@.len() ==> (#[trigger] r@[k]).len() <= v.len(),
    decreases v.len(),
{
    match find_ch(v, '\\') {
        Some(i) => {
            let head = slice_vec(v, 0, i);
            let tail = slice_vec(v, i + 1, v.len());
            assert(head@ =~= v@.take(i as int));
            assert(tail@ =~= v@.skip(i + 1));
            let rest = split_pieces(&tail);
            let mut r: Vec<Vec<char>> = Vec::new();
            r.push(head);
            let mut k: usize = 0;
            while k < rest.len()
                invariant
                    k <= rest.len(),
                    r@.len() == k + 1,
                    r@[0]@ == v@.take(i as int),
                    forall|j: int| 0 < j <= k ==> r@[j]@ == (#[trigger] rest@[j - 1])@,
                    forall|j: int| 0 <= j < r@.len() ==> (#[trigger] r@[j]).len() <= v.len(),
                    forall|j: int| 0 <= j < rest@.len() ==> (#[trigger] rest@[j]).len() <= tail.len(),
                    tail.len() < v.len(),
                decreases rest.len() - k,
            {
                r.push(rest[k].clone());
                k = k + 1;
            }
            assert(r@.map_values(|p: Vec<char>| p@) =~= seq![v@.take(i as int)] + rest@.map_values(|p: Vec<char>| p@));
            r
        },
        None => {
            let mut r: Vec<Vec<char>> = Vec::new();
            r.push(v.clone());
            assert(r@.map_values(|p: Vec<char>| p@) =~= seq![v@]);
            r
        },
    }
}

/// `a`, a backslash and `b`.
fn join_pieces(a: &Vec<char>, b: &Vec<char>) -> (r: Vec<char>)
    ensures
        r@ == join2(a@, b@),
{
    let mut r = a.clone();
    r.push('\\');
    let mut k: usize = 0;
    while k < b.len()
        invariant
            k <= b.len(),
            r@ == a@.push('\\') + b@.take(k as int),
        decreases b.len() - k,
    {
        r.push(b[k]);
        k = k + 1;
        assert(r@ =~= a@.push('\\') + b@.take(k as int));
    }
    assert(b@.take(b@.len() as int) =~= b@);
    r
}

/// Shortens `target_path` for display in `available_width` characters.
pub fn ellipsize_path(target_path: &str, available_width: usize) -> (r: EllipsizedPath)
    requires
        target_path@.len() < usize::MAX / 64,
    ensures
        (r.prefix@, r.suffix@, r.truncated) == ellipsized(target_path@, available_width as int),
{
    let v = chars_of(target_path);
    let total = v.len();
    let ghost path = target_path@;
    let pieces = split_pieces(&v);
    proof {
        lemma_split_nonempty(path);
    }
    let ghost cs = split_backslash(path);
    assert(pieces@.len() == cs.len());
    let n = pieces.len();
    if total <= available_width || n < 3 {
        return EllipsizedPath { prefix: string_of(&v), suffix: String::new(), truncated: false };
    }
    let leaf = &pieces[n - 1];
    assert(leaf@ == cs[n - 1]);
    assert(pieces@[0]@ == cs[0]);
    assert(pieces@[1]@ == cs[1]);
    assert(pieces@[n - 2]@ == cs[n - 2]);
    let first_two = join_pieces(&pieces[0], &pieces[1]);
    let leaf_len = leaf.len();
    let first_two_len = first_two.len();
    if n >= 4 {
        let last_two = join_pieces(&pieces[n - 2], leaf);
        let last_two_len = last_two.len();
        let t = first_two_len + 3 + last_two_len;
        if t <= available_width && t < total {
            let mut p = first_two.clone();
            p.push('\\');
            let mut s: Vec<char> = Vec::new();
            s.push('\\');
            let mut sv = string_of(&s);
            push_chars(&mut sv, &last_two);
            assert(sv@ =~= seq!['\\'] + last_two@);
            return EllipsizedPath { prefix: string_of(&p), suffix: sv, truncated: true };
        }
    }
    let t2 = first_two_len + 3 + leaf_len;
    if t2 <= available_width && t2 < total {
        let mut p = first_two.clone();
        p.push('\\');
        let mut sv = String::new();
        push_char(&mut sv, '\\');
        push_chars(&mut sv, leaf);
        assert(sv@ =~= seq!['\\'] + leaf@);
        return EllipsizedPath { prefix: string_of(&p), suffix: sv, truncated: true };
    }
    let first_len = pieces[0].len();
    let t3 = first_len + 3 + leaf_len;
    if t3 <= available_width && t3 < total {
        let mut p = pieces[0].clone();
        p.push('\\');
        let mut sv = String::new();
        push_char(&mut sv, '\\');
        push_chars(&mut sv, leaf);
        assert(sv@ =~= seq!['\\'] + leaf@);
        return EllipsizedPath { prefix: string_of(&p), suffix: sv, truncated: true };
    }
    if leaf_len <= available_width {
        return EllipsizedPath { prefix: string_of(leaf), suffix: String::new(), truncated: false };
    }
    if available_width >= 2 {
        let cut = slice_vec(leaf, 0, available_width - 1);
        assert(cut@ =~= leaf@.take(available_width - 1));
        return EllipsizedPath { prefix: string_of(&cut), suffix: String::new(), truncated: true };
    }
    EllipsizedPath { prefix: String::new(), suffix: String::new(), truncated: true }
}

} // verus!
