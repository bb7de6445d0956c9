//! Reordering of listing entries.

use vstd::prelude::*;
use crate::command_line::{CommandLine, SortDirection, SortOrder, TimeField};
use crate::file_info::{FileInfo, FILE_ATTRIBUTE_DIRECTORY};
use crate::text::chars_of;

verus! {

/// `perm` is a permutation of `0..n`: every entry is below `n` and no two
/// entries are equal.
pub open spec fn is_permutation(perm: Seq<usize>, n: int) -> bool {
    &&& perm.len() == n
    &&& forall|i: int| 0 <= i < n ==> #[trigger] perm[i] < n
    &&& forall|i: int, j: int| 0 <= i < j < n ==> perm[i] != perm[j]
}

/// Rearranges `items` so that position `i` receives the element that was
/// at position `perm[i]`.
pub fn apply_permutation<T>(items: &mut Vec<T>, perm: Vec<usize>)
    requires
        is_permutation(perm@, old(items).len() as int),
    ensures
        final(items).len() == old(items).len(),
        forall|i: int| 0 <= i < perm.len() ==> final(items)@[i] == old(items)@[perm@[i] as int],
{
    let n = items.len();
    let ghost orig = items@;
    let mut rev: Vec<Option<T>> = Vec::new();
    while items.len() > 0
        invariant
            rev.len() + items.len() == n,
            n == orig.len(),
            items@ == orig.take(items.len() as int),
            forall|k: int| 0 <= k < rev.len() ==> #[trigger] rev@[k] == Some(orig[n - 1 - k]),
        decreases items.len(),
    {
        let x = items.pop().unwrap();
        rev.push(Some(x));
        assert(items@ =~= orig.take(items.len() as int));
    }
    let mut i: usize = 0;
    while i < n
        invariant
            i <= n == orig.len() == perm.len() == rev.len(),
            is_permutation(perm@, n as int),
            items.len() == i,
            forall|k: int| 0 <= k < i ==> #[trigger] items@[k] == orig[perm@[k] as int],
            forall|j: int| i <= j < n ==> #[trigger] rev@[n - 1 - perm@[j]] == Some(orig[perm@[j] as int]),
        decreases n - i,
    {
        let idx = n - 1 - perm[i];
        let x = rev[idx].take();
        assert(x == Some(orig[perm@[i as int] as int]));
        items.push(x.unwrap());
        assert forall|j: int| i + 1 <= j < n implies #[trigger] rev@[n - 1 - perm@[j]] == Some(orig[perm@[j] as int]) by {
            assert(perm@[j] != perm@[i as int]);
        }
        i = i + 1;
    }
}

/// Result of comparing two entries.
#[derive(Debug, Clone, Copy, PartialEq, Eq, Structural)]
pub enum Order {
    Less,
    Equal,
    Greater,
}

/// Orders names the way the platform's file lists do (without regard to
/// case); implemented where the platform's collation is available.
pub trait NameCollator {
    /// `r` is an answer this collation can give comparing `a` with `b`; an
    /// implementation that says nothing more allows every answer.
    open spec fn collates(&self, a: Seq<char>, b: Seq<char>, r: Order) -> bool {
        true
    }

    /// How `a` orders against `b`.
    fn compare_names(&self, a: &str, b: &str) -> (r: Order)
        ensures
            self.collates(a@, b@, r),
    ;
}

/// The answer of the collation comparing `a` with `b`.
pub open spec fn name_order<C: NameCollator>(c: &C, a: Seq<char>, b: Seq<char>) -> Order {
    choose|r: Order| c.collates(a, b, r)
}

/// `o` puts the first before or level with the second.
pub open spec fn not_after(o: Order) -> bool {
    o != Order::Greater
}

/// The collation answers each comparison one way, and its answers form a
/// total preorder: swapping the names reverses the answer, and "not
/// after" chains.
pub open spec fn is_collation<C: NameCollator>(c: &C) -> bool {
    &&& forall|a: Seq<char>, b: Seq<char>| c.collates(a, b, #[trigger] name_order(c, a, b))
    &&& forall|a: Seq<char>, b: Seq<char>, r1: Order, r2: Order|
        #[trigger] c.collates(a, b, r1) && #[trigger] c.collates(a, b, r2) ==> r1 == r2
    &&& forall|a: Seq<char>, b: Seq<char>| #[trigger] name_order(c, b, a) == reversed(name_order(c, a, b))
    &&& forall|a: Seq<char>, b: Seq<char>, d: Seq<char>|
        not_after(#[trigger] name_order(c, a, b)) && not_after(#[trigger] name_order(c, b, d)) ==> not_after(
            name_order(c, a, d),
        )
}

/// What sorting compares of an entry, as values.
pub struct KeyView {
    pub name: Seq<char>,
    pub ext: Seq<char>,
    pub is_dir: bool,
    pub size: u64,
    pub creation: u64,
    pub written: u64,
    pub access: u64,
}

/// What sorting compares of `f`.
pub open spec fn entry_key(f: FileInfo) -> KeyView {
    KeyView {
        name: f.file_name@,
        ext: extension_spec(f.file_name@),
        is_dir: entry_is_dir(f),
        size: f.file_size,
        creation: f.creation_time,
        written: f.last_write_time,
        access: f.last_access_time,
    }
}

/// How two entries order by one sort attribute.
pub open spec fn attr_order<C: NameCollator>(c: &C, attr: SortOrder, field: TimeField, a: KeyView, b: KeyView) -> Order {
    match attr {
        SortOrder::Default | SortOrder::Name => name_order(c, a.name, b.name),
        SortOrder::Extension => name_order(c, a.ext, b.ext),
        SortOrder::Size => order_of(a.size, b.size),
        SortOrder::Date => match field {
            TimeField::Creation => order_of(a.creation, b.creation),
            TimeField::Access => order_of(a.access, b.access),
            TimeField::Written => order_of(a.written, b.written),
        },
    }
}

/// The attribute at position `idx` of the sort preference, in the
/// requested direction for the first one.
pub open spec fn level_order<C: NameCollator>(c: &C, cmd: &CommandLine, idx: int, a: KeyView, b: KeyView) -> Order {
    let o = attr_order(c, cmd.sort_preference[idx], cmd.time_field, a, b);
    if idx == 0 && cmd.sort_direction == SortDirection::Descending {
        reversed(o)
    } else {
        o
    }
}

/// How two entries order by the sort attributes from position `idx` on:
/// the first that tells them apart decides.
pub open spec fn chain_order<C: NameCollator>(c: &C, cmd: &CommandLine, idx: int, a: KeyView, b: KeyView) -> Order
    decreases 5 - idx,
{
    if idx < 0 || idx >= 5 {
        Order::Equal
    } else {
        let o = level_order(c, cmd, idx, a, b);
        if o == Order::Equal {
            chain_order(c, cmd, idx + 1, a, b)
        } else {
            o
        }
    }
}

/// How two entries order in a listing: directories before files, then
/// by the sort attributes of `cmd` in turn, only the first one in the
/// requested direction.
pub open spec fn entry_order<C: NameCollator>(c: &C, cmd: &CommandLine, a: KeyView, b: KeyView) -> Order {
    if a.is_dir != b.is_dir {
        if a.is_dir {
            Order::Less
        } else {
            Order::Greater
        }
    } else {
        chain_order(c, cmd, 0, a, b)
    }
}

/// A collation's answer for a pair, once given, is its `name_order`.
proof fn lemma_collates_is_order<C: NameCollator>(c: &C, a: Seq<char>, b: Seq<char>, r: Order)
    requires
        is_collation(c),
        c.collates(a, b, r),
    ensures
        name_order(c, a, b) == r,
{
    let q = name_order(c, a, b);
    assert(c.collates(a, b, q));
}

/// Names under a collation: strictly before then not after is strictly
/// before, and level twice is level.
proof fn lemma_name_order_strict<C: NameCollator>(c: &C, a: Seq<char>, b: Seq<char>, d: Seq<char>)
    requires
        is_collation(c),
    ensures
        name_order(c, a, b) == Order::Less && not_after(name_order(c, b, d)) ==> name_order(c, a, d) == Order::Less,
        not_after(name_order(c, a, b)) && name_order(c, b, d) == Order::Less ==> name_order(c, a, d) == Order::Less,
        name_order(c, a, b) == Order::Equal && name_order(c, b, d) == Order::Equal ==> name_order(c, a, d) == Order::Equal,
        not_after(name_order(c, a, b)) && not_after(name_order(c, b, d)) ==> not_after(name_order(c, a, d)),
{
    let ab = name_order(c, a, b);
    let bd = name_order(c, b, d);
    let ad = name_order(c, a, d);
    let ba = name_order(c, b, a);
    let db = name_order(c, d, b);
    let da = name_order(c, d, a);
    assert(ba == reversed(ab));
    assert(db == reversed(bd));
    assert(da == reversed(ad));
    if not_after(ab) && not_after(bd) {
        assert(not_after(ad));
    }
    if not_after(bd) && not_after(da) {
        assert(not_after(name_order(c, b, a)));
    }
    if not_after(da) && not_after(ab) {
        assert(not_after(name_order(c, d, b)));
    }
}

/// One attribute orders as a total preorder under a collation.
proof fn lemma_level_order<C: NameCollator>(c: &C, cmd: &CommandLine, idx: int, a: KeyView, b: KeyView, d: KeyView)
    requires
        is_collation(c),
        0 <= idx < 5,
    ensures
        level_order(c, cmd, idx, b, a) == reversed(level_order(c, cmd, idx, a, b)),
        level_order(c, cmd, idx, a, b) == Order::Less && not_after(level_order(c, cmd, idx, b, d))
            ==> level_order(c, cmd, idx, a, d) == Order::Less,
        not_after(level_order(c, cmd, idx, a, b)) && level_order(c, cmd, idx, b, d) == Order::Less
            ==> level_order(c, cmd, idx, a, d) == Order::Less,
        level_order(c, cmd, idx, a, b) == Order::Equal && level_order(c, cmd, idx, b, d) == Order::Equal
            ==> level_order(c, cmd, idx, a, d) == Order::Equal,
{
    lemma_name_order_strict(c, a.name, b.name, d.name);
    lemma_name_order_strict(c, d.name, b.name, a.name);
    lemma_name_order_strict(c, a.ext, b.ext, d.ext);
    lemma_name_order_strict(c, d.ext, b.ext, a.ext);
    assert(name_order(c, b.name, a.name) == reversed(name_order(c, a.name, b.name)));
    assert(name_order(c, d.name, b.name) == reversed(name_order(c, b.name, d.name)));
    assert(name_order(c, d.name, a.name) == reversed(name_order(c, a.name, d.name)));
    assert(name_order(c, b.ext, a.ext) == reversed(name_order(c, a.ext, b.ext)));
    assert(name_order(c, d.ext, b.ext) == reversed(name_order(c, b.ext, d.ext)));
    assert(name_order(c, d.ext, a.ext) == reversed(name_order(c, a.ext, d.ext)));
}

/// The attribute chain from `idx` on orders as a total preorder.
proof fn lemma_chain_order<C: NameCollator>(c: &C, cmd: &CommandLine, idx: int, a: KeyView, b: KeyView, d: KeyView)
    requires
        is_collation(c),
        0 <= idx,
    ensures
        chain_order(c, cmd, idx, b, a) == reversed(chain_order(c, cmd, idx, a, b)),
        not_after(chain_order(c, cmd, idx, a, b)) && not_after(chain_order(c, cmd, idx, b, d))
            ==> not_after(chain_order(c, cmd, idx, a, d)),
        chain_order(c, cmd, idx, a, b) == Order::Less && not_after(chain_order(c, cmd, idx, b, d))
            ==> chain_order(c, cmd, idx, a, d) == Order::Less,
    decreases 5 - idx,
{
    if idx < 5 {
        lemma_chain_order(c, cmd, idx + 1, a, b, d);
        lemma_level_order(c, cmd, idx, a, b, d);
        lemma_level_order(c, cmd, idx, b, a, d);
    }
}

/// Entries order as a total preorder under a collation.
pub proof fn lemma_entry_order<C: NameCollator>(c: &C, cmd: &CommandLine, a: KeyView, b: KeyView, d: KeyView)
    requires
        is_collation(c),
    ensures
        entry_order(c, cmd, b, a) == reversed(entry_order(c, cmd, a, b)),
        not_after(entry_order(c, cmd, a, b)) && not_after(entry_order(c, cmd, b, d))
            ==> not_after(entry_order(c, cmd, a, d)),
        entry_order(c, cmd, a, b) == Order::Less && not_after(entry_order(c, cmd, b, d))
            ==> entry_order(c, cmd, a, d) == Order::Less,
{
    lemma_chain_order(c, cmd, 0, a, b, d);
}

/// Character-by-character order of two sequences by code point, a proper
/// prefix first.
pub open spec fn lex_order(a: Seq<char>, b: Seq<char>) -> Order
    decreases a.len(),
{
    if a.len() == 0 {
        if b.len() == 0 {
            Order::Equal
        } else {
            Order::Less
        }
    } else if b.len() == 0 {
        Order::Greater
    } else if (a[0] as u32) < (b[0] as u32) {
        Order::Less
    } else if (a[0] as u32) > (b[0] as u32) {
        Order::Greater
    } else {
        lex_order(a.drop_first(), b.drop_first())
    }
}

/// Swapping the sequences reverses their order.
proof fn lemma_lex_reverse(a: Seq<char>, b: Seq<char>)
    ensures
        lex_order(b, a) == reversed(lex_order(a, b)),
    decreases a.len(),
{
    if a.len() > 0 && b.len() > 0 && (a[0] as u32) == (b[0] as u32) {
        lemma_lex_reverse(a.drop_first(), b.drop_first());
    }
}

/// "Not after" chains for the code-point order.
proof fn lemma_lex_chain(a: Seq<char>, b: Seq<char>, d: Seq<char>)
    requires
        not_after(lex_order(a, b)),
        not_after(lex_order(b, d)),
    ensures
        not_after(lex_order(a, d)),
    decreases a.len(),
{
    if a.len() > 0 && b.len() > 0 && d.len() > 0 && (a[0] as u32) == (b[0] as u32) && (b[0] as u32) == (d[0] as u32) {
        lemma_lex_chain(a.drop_first(), b.drop_first(), d.drop_first());
    }
}

/// No dot in `s[lo..hi]` leaves the last dot before `hi` where it was
/// before `lo`.
proof fn lemma_last_dot_skips(s: Seq<char>, lo: int, hi: int)
    requires
        0 <= lo <= hi <= s.len(),
        forall|j: int| lo <= j < hi ==> s[j] != '.',
    ensures
        last_dot(s, hi) == last_dot(s, lo),
    decreases hi - lo,
{
    if hi > lo {
        lemma_last_dot_skips(s, lo, hi - 1);
    }
}

/// The extension compared when sorting is the text from the name's last
/// dot on: a name `a` + "." + `b`, where `b` holds no dot, has extension
/// "." + `b` (so "backup.tar.gz" has ".gz"); a name without a dot has none.
pub proof fn lemma_extension_from_last_dot(a: Seq<char>, b: Seq<char>)
    ensures
        !b.contains('.') ==> extension_spec(a + seq!['.'] + b) == seq!['.'] + b,
        !a.contains('.') ==> extension_spec(a) == Seq::<char>::empty(),
{
    let s = a + seq!['.'] + b;
    if !b.contains('.') {
        assert forall|j: int| a.len() + 1 <= j < s.len() implies s[j] != '.' by {
            assert(s[j] == b[j - a.len() - 1]);
            if s[j] == '.' {
                assert(b.contains(b[j - a.len() - 1]));
            }
        }
        lemma_last_dot_skips(s, (a.len() + 1) as int, s.len() as int);
        assert(s[a.len() as int] == '.');
        assert(last_dot(s, (a.len() + 1) as int) == Some(a.len() as int));
        assert(s.skip(a.len() as int) =~= seq!['.'] + b);
    }
    if !a.contains('.') {
        assert forall|j: int| 0 <= j < a.len() implies a[j] != '.' by {
            if a[j] == '.' {
                assert(a.contains(a[j]));
            }
        }
        lemma_last_dot_skips(a, 0, a.len() as int);
    }
}

/// Names compared code point by code point after ASCII lowercasing: a
/// collation that works everywhere, for platforms without their own.
pub struct OrdinalIgnoreCaseCollator;

impl NameCollator for OrdinalIgnoreCaseCollator {
    open spec fn collates(&self, a: Seq<char>, b: Seq<char>, r: Order) -> bool {
        r == lex_order(crate::text::lower_seq(a), crate::text::lower_seq(b))
    }

    fn compare_names(&self, a: &str, b: &str) -> (r: Order) {
        let va = crate::text::lower_str(a);
        let vb = crate::text::lower_str(b);
        let x = chars_of(va.as_str());
        let y = chars_of(vb.as_str());
        assert(x@.skip(0) =~= x@);
        assert(y@.skip(0) =~= y@);
        let mut i: usize = 0;
        while i < x.len() && i < y.len()
            invariant
                i <= x.len(),
                i <= y.len(),
                x@ == crate::text::lower_seq(a@),
                y@ == crate::text::lower_seq(b@),
                lex_order(x@, y@) == lex_order(x@.skip(i as int), y@.skip(i as int)),
            decreases x.len() - i,
        {
            let ghost xs = x@.skip(i as int);
            let ghost ys = y@.skip(i as int);
            assert(xs[0] == x@[i as int] && ys[0] == y@[i as int]);
            if (x[i] as u32) < (y[i] as u32) {
                return Order::Less;
            }
            if (x[i] as u32) > (y[i] as u32) {
                return Order::Greater;
            }
            assert(xs.drop_first() =~= x@.skip(i + 1));
            assert(ys.drop_first() =~= y@.skip(i + 1));
            i = i + 1;
        }
        assert(i == x.len() ==> x@.skip(i as int).len() == 0);
        assert(i == y.len() ==> y@.skip(i as int).len() == 0);
        if i == x.len() {
            if i == y.len() {
                Order::Equal
            } else {
                Order::Less
            }
        } else {
            Order::Greater
        }
    }
}

/// The code-point collation after ASCII lowercasing is a total preorder.
pub proof fn lemma_ordinal_collation()
    ensures
        is_collation(&OrdinalIgnoreCaseCollator),
{
    let c = OrdinalIgnoreCaseCollator;
    assert forall|a: Seq<char>, b: Seq<char>| #[trigger] name_order(&c, a, b) == lex_order(
        crate::text::lower_seq(a),
        crate::text::lower_seq(b),
    ) by {
        assert(c.collates(a, b, lex_order(crate::text::lower_seq(a), crate::text::lower_seq(b))));
    }
    assert forall|a: Seq<char>, b: Seq<char>| #[trigger] name_order(&c, b, a) == reversed(name_order(&c, a, b)) by {
        lemma_lex_reverse(crate::text::lower_seq(a), crate::text::lower_seq(b));
        assert(name_order(&c, a, b) == lex_order(crate::text::lower_seq(a), crate::text::lower_seq(b)));
        assert(name_order(&c, b, a) == lex_order(crate::text::lower_seq(b), crate::text::lower_seq(a)));
    }
    assert forall|a: Seq<char>, b: Seq<char>, d: Seq<char>|
        not_after(#[trigger] name_order(&c, a, b)) && not_after(#[trigger] name_order(&c, b, d)) implies not_after(
        name_order(&c, a, d),
    ) by {
        assert(name_order(&c, a, b) == lex_order(crate::text::lower_seq(a), crate::text::lower_seq(b)));
        assert(name_order(&c, b, d) == lex_order(crate::text::lower_seq(b), crate::text::lower_seq(d)));
        assert(name_order(&c, a, d) == lex_order(crate::text::lower_seq(a), crate::text::lower_seq(d)));
        lemma_lex_chain(crate::text::lower_seq(a), crate::text::lower_seq(b), crate::text::lower_seq(d));
    }
}

/// What sorting compares of an entry.
struct SortKey {
    name: String,
    ext: String,
    is_dir: bool,
    file_size: u64,
    creation_time: u64,
    last_write_time: u64,
    last_access_time: u64,
}

/// What a key compares, as values.
spec fn key_view(k: SortKey) -> KeyView {
    KeyView {
        name: k.name@,
        ext: k.ext@,
        is_dir: k.is_dir,
        size: k.file_size,
        creation: k.creation_time,
        written: k.last_write_time,
        access: k.last_access_time,
    }
}

/// The entry is a directory.
pub open spec fn entry_is_dir(f: FileInfo) -> bool {
    f.file_attributes & FILE_ATTRIBUTE_DIRECTORY != 0
}

/// The opposite order.
pub open spec fn reversed(o: Order) -> Order {
    match o {
        Order::Less => Order::Greater,
        Order::Equal => Order::Equal,
        Order::Greater => Order::Less,
    }
}

/// How two numbers order.
pub open spec fn order_of(a: u64, b: u64) -> Order {
    if a < b {
        Order::Less
    } else if a == b {
        Order::Equal
    } else {
        Order::Greater
    }
}

/// How two numbers order.
fn compare_u64(a: u64, b: u64) -> (r: Order)
    ensures
        r == order_of(a, b),
{
    if a < b {
        Order::Less
    } else if a == b {
        Order::Equal
    } else {
        Order::Greater
    }
}

/// Index of the last '.' in `s[..hi]`.
pub open spec fn last_dot(s: Seq<char>, hi: int) -> Option<int>
    decreases hi,
{
    if hi <= 0 {
        None
    } else if s[hi - 1] == '.' {
        Some(hi - 1)
    } else {
        last_dot(s, hi - 1)
    }
}

/// The extension of a name: from its last dot on, or empty.
pub open spec fn extension_spec(name: Seq<char>) -> Seq<char> {
    match last_dot(name, name.len() as int) {
        Some(i) => name.skip(i),
        None => Seq::empty(),
    }
}

/// The extension of a name: from its last dot on, or empty.
fn extension_of(name: &str) -> (r: String)
    ensures
        r@ == extension_spec(name@),
{
    let v = chars_of(name);
    let mut i = v.len();
    while i > 0
        invariant
            i <= v.len(),
            v@ == name@,
            last_dot(v@, v@.len() as int) == last_dot(v@, i as int),
        decreases i,
    {
        if v[i - 1] == '.' {
            let r = crate::text::string_of_range(&v, i - 1, v.len());
            assert(r@ =~= v@.skip(i - 1));
            return r;
        }
        i = i - 1;
    }
    let r = String::new();
    assert(r@ =~= extension_spec(name@));
    r
}

impl SortKey {
    /// The key of an entry.
    fn from_file_info(f: &FileInfo) -> (k: SortKey)
        ensures
            k.is_dir == entry_is_dir(*f),
            k.file_size == f.file_size,
            k.creation_time == f.creation_time,
            k.last_write_time == f.last_write_time,
            k.last_access_time == f.last_access_time,
            k.ext@ == extension_spec(f.file_name@),
            key_view(k) == entry_key(*f),
    {
        SortKey {
            name: f.file_name.clone(),
            ext: extension_of(f.file_name.as_str()),
            is_dir: f.file_attributes & FILE_ATTRIBUTE_DIRECTORY != 0,
            file_size: f.file_size,
            creation_time: f.creation_time,
            last_write_time: f.last_write_time,
            last_access_time: f.last_access_time,
        }
    }
}

/// How two entries order by the selected time.
fn compare_dates(lhs: &SortKey, rhs: &SortKey, field: TimeField) -> (r: Order)
    ensures
        r == match field {
            TimeField::Creation => order_of(lhs.creation_time, rhs.creation_time),
            TimeField::Access => order_of(lhs.last_access_time, rhs.last_access_time),
            TimeField::Written => order_of(lhs.last_write_time, rhs.last_write_time),
        },
{
    match field {
        TimeField::Creation => compare_u64(lhs.creation_time, rhs.creation_time),
        TimeField::Access => compare_u64(lhs.last_access_time, rhs.last_access_time),
        TimeField::Written => compare_u64(lhs.last_write_time, rhs.last_write_time),
    }
}

/// How two entries order: directories before files, then by the sort
/// attributes of `cmd` in turn until one tells them apart; only the first
/// attribute follows the requested direction.
fn compare_keyed<C: NameCollator>(lhs: &SortKey, rhs: &SortKey, cmd: &CommandLine, collator: &C) -> (r: Order)
    ensures
        r == Order::Less ==> key_precedes(*lhs, *rhs, cmd),
        r != Order::Less ==> key_precedes(*rhs, *lhs, cmd),
        is_collation(collator) ==> r == entry_order(collator, cmd, key_view(*lhs), key_view(*rhs)),
{
    if lhs.is_dir != rhs.is_dir {
        return if lhs.is_dir {
            Order::Less
        } else {
            Order::Greater
        };
    }
    let mut idx: usize = 0;
    while idx < 5
        invariant
            idx <= 5,
            lhs.is_dir == rhs.is_dir,
            idx > 0 ==> key_primary(*lhs, cmd) == key_primary(*rhs, cmd),
            is_collation(collator) ==> chain_order(collator, cmd, 0, key_view(*lhs), key_view(*rhs)) == chain_order(
                collator,
                cmd,
                idx as int,
                key_view(*lhs),
                key_view(*rhs),
            ),
        decreases 5 - idx,
    {
        let c = match cmd.sort_preference[idx] {
            SortOrder::Default | SortOrder::Name => collator.compare_names(lhs.name.as_str(), rhs.name.as_str()),
            SortOrder::Date => compare_dates(lhs, rhs, cmd.time_field),
            SortOrder::Extension => collator.compare_names(lhs.ext.as_str(), rhs.ext.as_str()),
            SortOrder::Size => compare_u64(lhs.file_size, rhs.file_size),
        };
        proof {
            if is_collation(collator) {
                match cmd.sort_preference[idx as int] {
                    SortOrder::Default | SortOrder::Name => {
                        lemma_collates_is_order(collator, lhs.name@, rhs.name@, c);
                    },
                    SortOrder::Extension => {
                        lemma_collates_is_order(collator, lhs.ext@, rhs.ext@, c);
                    },
                    _ => {},
                }
                assert(c == attr_order(collator, cmd.sort_preference[idx as int], cmd.time_field, key_view(*lhs), key_view(*rhs)));
            }
        }
        match c {
            Order::Equal => {},
            _ => {
                if idx == 0 && cmd.sort_direction == SortDirection::Descending {
                    return match c {
                        Order::Less => Order::Greater,
                        Order::Greater => Order::Less,
                        Order::Equal => Order::Equal,
                    };
                }
                return c;
            },
        }
        idx = idx + 1;
    }
    Order::Equal
}

/// Every directory comes before every file.
pub open spec fn directories_first(s: Seq<FileInfo>) -> bool {
    forall|i: int, j: int| 0 <= i < j < s.len() && entry_is_dir(s[j]) ==> entry_is_dir(s[i])
}

/// The value compared first when the first sort attribute is a number:
/// the size, or the selected time; none for names and extensions.
pub open spec fn primary_value(f: FileInfo, cmd: &CommandLine) -> Option<u64> {
    match cmd.sort_preference[0] {
        SortOrder::Size => Some(f.file_size),
        SortOrder::Date => Some(match cmd.time_field {
            TimeField::Creation => f.creation_time,
            TimeField::Access => f.last_access_time,
            TimeField::Written => f.last_write_time,
        }),
        _ => None,
    }
}

/// `a` may come before `b`: a directory before a file, and between two of
/// a kind the first sort attribute, when numeric, in the requested
/// direction.
pub open spec fn may_precede(a: FileInfo, b: FileInfo, cmd: &CommandLine) -> bool {
    ||| entry_is_dir(a) && !entry_is_dir(b)
    ||| entry_is_dir(a) == entry_is_dir(b) && match (primary_value(a, cmd), primary_value(b, cmd)) {
        (Some(x), Some(y)) => if cmd.sort_direction == SortDirection::Descending {
            x >= y
        } else {
            x <= y
        },
        _ => true,
    }
}

/// Entries in an order that `may_precede` allows for every pair.
pub open spec fn sorted_entries(s: Seq<FileInfo>, cmd: &CommandLine) -> bool {
    forall|i: int, j: int| 0 <= i < j < s.len() ==> may_precede(s[i], s[j], cmd)
}

/// The key's counterpart of `primary_value`.
spec fn key_primary(k: SortKey, cmd: &CommandLine) -> Option<u64> {
    match cmd.sort_preference[0] {
        SortOrder::Size => Some(k.file_size),
        SortOrder::Date => Some(match cmd.time_field {
            TimeField::Creation => k.creation_time,
            TimeField::Access => k.last_access_time,
            TimeField::Written => k.last_write_time,
        }),
        _ => None,
    }
}

/// The key's counterpart of `may_precede`.
spec fn key_precedes(a: SortKey, b: SortKey, cmd: &CommandLine) -> bool {
    ||| a.is_dir && !b.is_dir
    ||| a.is_dir == b.is_dir && match (key_primary(a, cmd), key_primary(b, cmd)) {
        (Some(x), Some(y)) => if cmd.sort_direction == SortDirection::Descending {
            x >= y
        } else {
            x <= y
        },
        _ => true,
    }
}

/// The key describes the entry.
spec fn key_of(k: SortKey, f: FileInfo) -> bool {
    &&& k.is_dir == entry_is_dir(f)
    &&& k.file_size == f.file_size
    &&& k.creation_time == f.creation_time
    &&& k.last_write_time == f.last_write_time
    &&& k.last_access_time == f.last_access_time
    &&& key_view(k) == entry_key(f)
}

/// The keys read through the positions `idx` are in an allowed order.
spec fn keys_sorted(keys: Seq<SortKey>, idx: Seq<usize>, cmd: &CommandLine) -> bool {
    forall|i: int, j: int| 0 <= i < j < idx.len() ==> key_precedes(keys[idx[i] as int], keys[idx[j] as int], cmd)
}

/// The keys at `x` and `y` may stand in this order in a sorted, stable
/// listing: not after one another, and when level, in their input order.
spec fn stable_pair<C: NameCollator>(c: &C, cmd: &CommandLine, keys: Seq<SortKey>, x: usize, y: usize) -> bool {
    let o = entry_order(c, cmd, key_view(keys[x as int]), key_view(keys[y as int]));
    not_after(o) && (o == Order::Equal ==> x < y)
}

/// `key_precedes` chains.
proof fn lemma_key_precedes_trans(a: SortKey, b: SortKey, c: SortKey, cmd: &CommandLine)
    requires
        key_precedes(a, b, cmd),
        key_precedes(b, c, cmd),
    ensures
        key_precedes(a, c, cmd),
{
}

/// Sorts entries: directories first, then by the sort attributes of `cmd`,
/// names and extensions ordered by `collator`.  The result is a
/// rearrangement of the entries with every directory before every file and,
/// when the first sort attribute is the size or a time, in the order of
/// that value (in the requested direction) among entries of a kind.  When
/// the collation is a total preorder (`is_collation`), the result is in
/// `entry_order` throughout, and entries that order level keep their input
/// order.
pub fn sort_files<C: NameCollator>(matches: &mut Vec<FileInfo>, cmd: &CommandLine, collator: &C)
    ensures
        final(matches).len() == old(matches).len(),
        exists|perm: Seq<usize>|
            {
                &&& is_permutation(perm, old(matches).len() as int)
                &&& forall|i: int| 0 <= i < perm.len() ==> #[trigger] final(matches)@[i] == old(matches)@[perm[i] as int]
                &&& is_collation(collator) ==> forall|i: int, j: int|
                    0 <= i < j < perm.len() ==> {
                        let o = entry_order(collator, cmd, entry_key(#[trigger] final(matches)@[i]), entry_key(#[trigger] final(matches)@[j]));
                        not_after(o) && (o == Order::Equal ==> perm[i] < perm[j])
                    }
            },
        directories_first(final(matches)@),
        sorted_entries(final(matches)@, cmd),
{
    let n = matches.len();
    if n <= 1 {
        proof {
            let perm = Seq::new(n as nat, |i: int| i as usize);
            assert(is_permutation(perm, n as int));
            assert(forall|i: int| 0 <= i < perm.len() ==> #[trigger] matches@[i] == old(matches)@[perm[i] as int]);
        }
        return;
    }
    let mut keys: Vec<SortKey> = Vec::new();
    let mut k: usize = 0;
    while k < n
        invariant
            k <= n == matches.len(),
            keys.len() == k,
            forall|j: int| 0 <= j < k ==> key_of(#[trigger] keys@[j], matches@[j]),
        decreases n - k,
    {
        keys.push(SortKey::from_file_info(&matches[k]));
        k = k + 1;
    }
    let mut order: Vec<usize> = Vec::new();
    let mut i: usize = 0;
    while i < n
        invariant
            i <= n == keys.len() == matches.len(),
            matches@ == old(matches)@,
            forall|j: int| 0 <= j < n ==> key_of(#[trigger] keys@[j], matches@[j]),
            order.len() == i,
            forall|a: int| 0 <= a < i ==> #[trigger] order@[a] < i,
            forall|a: int, b: int| 0 <= a < b < i ==> order@[a] != order@[b],
            keys_sorted(keys@, order@, cmd),
            is_collation(collator) ==> forall|a: int, b: int|
                0 <= a < b < i ==> stable_pair(collator, cmd, keys@, #[trigger] order@[a], #[trigger] order@[b]),
        decreases n - i,
    {
        order.push(i);
        let mut p = i;
        loop
            invariant
                p <= i < n == keys.len(),
                order.len() == i + 1,
                forall|a: int| 0 <= a <= i ==> #[trigger] order@[a] <= i,
                forall|a: int, b: int| 0 <= a < b <= i ==> order@[a] != order@[b],
                order@[p as int] == i,
                forall|a: int, b: int|
                    0 <= a < b <= i && a != p && b != p ==> key_precedes(keys@[order@[a] as int], keys@[order@[b] as int], cmd),
                forall|b: int| p < b <= i ==> key_precedes(keys@[i as int], keys@[order@[b] as int], cmd),
                is_collation(collator) ==> forall|a: int, b: int|
                    0 <= a < b <= i && a != p && b != p ==> stable_pair(collator, cmd, keys@, #[trigger] order@[a], #[trigger] order@[b]),
                is_collation(collator) ==> forall|b: int|
                    p < b <= i ==> entry_order(collator, cmd, key_view(keys@[i as int]), key_view(keys@[#[trigger] order@[b] as int])) == Order::Less,
            ensures
                p <= i,
                order.len() == i + 1,
                forall|a: int| 0 <= a <= i ==> #[trigger] order@[a] <= i,
                forall|a: int, b: int| 0 <= a < b <= i ==> order@[a] != order@[b],
                order@[p as int] == i,
                forall|a: int, b: int|
                    0 <= a < b <= i && a != p && b != p ==> key_precedes(keys@[order@[a] as int], keys@[order@[b] as int], cmd),
                forall|b: int| p < b <= i ==> key_precedes(keys@[i as int], keys@[order@[b] as int], cmd),
                is_collation(collator) ==> forall|a: int, b: int|
                    0 <= a < b <= i && a != p && b != p ==> stable_pair(collator, cmd, keys@, #[trigger] order@[a], #[trigger] order@[b]),
                is_collation(collator) ==> forall|b: int|
                    p < b <= i ==> entry_order(collator, cmd, key_view(keys@[i as int]), key_view(keys@[#[trigger] order@[b] as int])) == Order::Less,
                p > 0 ==> key_precedes(keys@[order@[p - 1] as int], keys@[i as int], cmd),
                p > 0 && is_collation(collator) ==> entry_order(collator, cmd, key_view(keys@[i as int]), key_view(keys@[order@[p - 1] as int])) != Order::Less,
            decreases p,
        {
            if p == 0 {
                break;
            }
            let c = compare_keyed(&keys[order[p]], &keys[order[p - 1]], cmd, collator);
            if c != Order::Less {
                break;
            }
            let x = order[p];
            let y = order[p - 1];
            order.set(p, y);
            order.set(p - 1, x);
            p = p - 1;
        }
        proof {
            assert forall|a: int, b: int| 0 <= a < b <= i implies key_precedes(
                keys@[order@[a] as int],
                keys@[order@[b] as int],
                cmd,
            ) by {
                if b == p {
                    if a < p - 1 {
                        lemma_key_precedes_trans(
                            keys@[order@[a] as int],
                            keys@[order@[p - 1] as int],
                            keys@[i as int],
                            cmd,
                        );
                    }
                }
            }
            if is_collation(collator) {
                assert forall|a: int, b: int| 0 <= a < b <= i implies stable_pair(collator, cmd, keys@, #[trigger] order@[a], #[trigger] order@[b]) by {
                    let ki = key_view(keys@[i as int]);
                    if b == p {
                        let kp = key_view(keys@[order@[p - 1] as int]);
                        lemma_entry_order(collator, cmd, ki, kp, ki);
                        if a < p - 1 {
                            let ka = key_view(keys@[order@[a] as int]);
                            assert(stable_pair(collator, cmd, keys@, order@[a], order@[p - 1]));
                            lemma_entry_order(collator, cmd, ka, kp, ki);
                        }
                        assert(order@[a] != order@[b]);
                    } else if a == p {
                        assert(entry_order(collator, cmd, ki, key_view(keys@[order@[b] as int])) == Order::Less);
                    }
                }
            }
        }
        i = i + 1;
    }
    let ghost perm = order@;
    let ghost before = matches@;
    apply_permutation(matches, order);
    proof {
        assert(is_permutation(perm, n as int));
        assert forall|a: int, b: int| 0 <= a < b < n implies may_precede(matches@[a], matches@[b], cmd) by {
            assert(matches@[b] == before[perm[b] as int]);
            assert(matches@[a] == before[perm[a] as int]);
            let ka = keys@[perm[a] as int];
            let kb = keys@[perm[b] as int];
            assert(key_of(ka, before[perm[a] as int]));
            assert(key_of(kb, before[perm[b] as int]));
            assert(key_precedes(ka, kb, cmd));
            assert(key_primary(ka, cmd) == primary_value(before[perm[a] as int], cmd));
            assert(key_primary(kb, cmd) == primary_value(before[perm[b] as int], cmd));
        }
        assert forall|a: int, b: int| 0 <= a < b < n && entry_is_dir(matches@[b]) implies entry_is_dir(matches@[a]) by {
            assert(may_precede(matches@[a], matches@[b], cmd));
        }
        if is_collation(collator) {
            assert forall|a: int, b: int| 0 <= a < b < perm.len() implies {
                let o = entry_order(collator, cmd, entry_key(#[trigger] matches@[a]), entry_key(#[trigger] matches@[b]));
                not_after(o) && (o == Order::Equal ==> perm[a] < perm[b])
            } by {
                assert(stable_pair(collator, cmd, keys@, perm[a], perm[b]));
                assert(matches@[b] == before[perm[b] as int]);
                assert(matches@[a] == before[perm[a] as int]);
                assert(key_of(keys@[perm[a] as int], before[perm[a] as int]));
            }
        }
    }
}

} // verus!
