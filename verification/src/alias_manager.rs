//! The decisions of the alias commands: the sub-alias table and its
//! choices, conflicts with PowerShell's built-in aliases, the labels of the
//! profile choice, the configuration that a set of choices describes, and
//! the steps of the set and remove wizards: from the wizard's state and
//! what the user answered, the next state and what to do.

use vstd::prelude::*;
use crate::alias_types::{AliasBlock, AliasConfig, AliasDefinition, ProfileLocation, ProfileScope};
use crate::profile_file_manager::BlockView;
use crate::text::{utf8_len, utf8_len_range, chars_of, eq_ic, push_char, push_str, eq_ic_str};

verus! {

/// Sub-aliases offered for a root alias: suffix, switches, description.
pub const SUB_ALIAS_DEFS: [(&'static str, &'static str, &'static str); 5] = [
    ("t", "--tree", "Tree view"),
    ("w", "-w", "Wide format"),
    ("d", "-a:d", "Directories only"),
    ("s", "-s", "Recursive"),
    ("sb", "-s -b", "Recursive bare"),
];

/// PowerShell's built-in aliases that an alias must not shadow, with the
/// command each stands for.
pub const BUILTIN_ALIASES: [(&'static str, &'static str); 22] = [
    ("ac", "Add-Content"),
    ("cat", "Get-Content"),
    ("cd", "Set-Location"),
    ("cls", "Clear-Host"),
    ("cp", "Copy-Item"),
    ("del", "Remove-Item"),
    ("dir", "Get-ChildItem"),
    ("echo", "Write-Output"),
    ("gc", "Get-Content"),
    ("h", "Get-History"),
    ("ls", "Get-ChildItem"),
    ("man", "help"),
    ("md", "mkdir"),
    ("mv", "Move-Item"),
    ("ps", "Get-Process"),
    ("r", "Invoke-History"),
    ("rm", "Remove-Item"),
    ("sc", "Set-Content"),
    ("sl", "Set-Location"),
    ("sp", "Set-ItemProperty"),
    ("sv", "Set-Variable"),
    ("type", "Get-Content"),
];

/// The built-in alias table as mathematical values.
pub open spec fn builtin_table() -> Seq<(Seq<char>, Seq<char>)> {
    BUILTIN_ALIASES@.map_values(|e: (&'static str, &'static str)| (e.0@, e.1@))
}

/// The command of the first built-in alias, from index `i` on, that equals
/// `name` ignoring ASCII case.
pub open spec fn conflict_from(name: Seq<char>, table: Seq<(Seq<char>, Seq<char>)>, i: int) -> Option<Seq<char>>
    decreases table.len() - i,
{
    if i < 0 || i >= table.len() {
        None
    } else if eq_ic(name, table[i].0) {
        Some(table[i].1)
    } else {
        conflict_from(name, table, i + 1)
    }
}

/// The built-in command that `name` would shadow, if any.
pub fn find_alias_conflict(name: &str) -> (r: Option<&'static str>)
    ensures
        r matches Some(c) ==> conflict_from(name@, builtin_table(), 0) == Some(c@),
        r is None ==> conflict_from(name@, builtin_table(), 0) is None,
{
    let v = chars_of(name);
    assert(v@.subrange(0, v@.len() as int) =~= v@);
    let mut i: usize = 0;
    while i < BUILTIN_ALIASES.len()
        invariant
            i <= BUILTIN_ALIASES.len(),
            v@ == name@,
            conflict_from(name@, builtin_table(), 0) == conflict_from(name@, builtin_table(), i as int),
        decreases BUILTIN_ALIASES.len() - i,
    {
        let (builtin, cmdlet) = BUILTIN_ALIASES[i];
        assert(builtin_table()[i as int] == (builtin@, cmdlet@));
        assert(v@.subrange(0, v@.len() as int) =~= v@);
        if eq_ic_str(&v, 0, v.len(), builtin) {
            return Some(cmdlet);
        }
        i = i + 1;
    }
    None
}

/// `s` padded with spaces on the right to `w` characters.
pub open spec fn pad_right(s: Seq<char>, w: int) -> Seq<char> {
    if s.len() >= w {
        s
    } else {
        s + Seq::new((w - s.len()) as nat, |i: int| ' ')
    }
}

/// Label of the choice that writes nothing.
pub const SESSION_ONLY_LABEL: &'static str = "Current session only";

/// Longest variable name among `locs[..k]` in UTF-8 bytes, at least
/// `floor`.
pub open spec fn max_name_len(locs: Seq<ProfileLocation>, k: int, floor: int) -> int
    decreases k,
{
    if k <= 0 {
        floor
    } else {
        let m = max_name_len(locs, k - 1, floor);
        if utf8_len(locs[k - 1].variable_name@) > m {
            utf8_len(locs[k - 1].variable_name@) as int
        } else {
            m
        }
    }
}

/// The label of one profile location.
pub open spec fn location_label(loc: ProfileLocation, w: int) -> Seq<char> {
    pad_right(loc.variable_name@, w) + "  ("@ + loc.resolved_path@ + ")"@ + (if loc.has_alias_block {
        " [has aliases]"@
    } else if loc.requires_admin {
        " (requires admin)"@
    } else {
        Seq::empty()
    })
}

/// Index of the last location among `locs[..k]` of the current-user,
/// all-hosts scope, or 0.
pub open spec fn default_choice(locs: Seq<ProfileLocation>, k: int) -> int
    decreases k,
{
    if k <= 0 {
        0
    } else if locs[k - 1].scope == ProfileScope::CurrentUserAllHosts {
        k - 1
    } else {
        default_choice(locs, k - 1)
    }
}

/// Appends `s` padded with spaces to `w` characters.
fn push_padded(out: &mut String, s: &str, w: usize)
    ensures
        final(out)@ == old(out)@ + pad_right(s@, w as int),
{
    push_str(out, s);
    let v = chars_of(s);
    let mut n = v.len();
    let ghost base = out@;
    while n < w
        invariant
            v.len() <= n <= w || (n == v.len() && n >= w),
            v@ == s@,
            out@ == base + Seq::new((n - v.len()) as nat, |i: int| ' '),
        decreases w - n,
    {
        push_char(out, ' ');
        n = n + 1;
        assert(out@ =~= base + Seq::new((n - v.len()) as nat, |i: int| ' '));
    }
    assert(old(out)@ + pad_right(s@, w as int) =~= base + Seq::new((n - v.len()) as nat, |i: int| ' '));
}

/// Labels of the profile choices, one per location and a last one for the
/// current session, with the index of the default choice.  Names are
/// padded in characters to the byte length of the longest one.
pub fn build_profile_labels(locations: &[ProfileLocation], _console_width: usize) -> (r: (Vec<String>, usize))
    requires
        forall|i: int| 0 <= i < locations.len() ==> (#[trigger] locations@[i]).variable_name@.len() < usize::MAX / 4,
    ensures
        r.0.len() == locations.len() + 1,
        forall|i: int|
            0 <= i < locations.len() ==> #[trigger] r.0@[i]@ == location_label(
                locations@[i],
                max_name_len(locations@, locations.len() as int, 20),
            ),
        r.0@[locations.len() as int]@ == pad_right(
            SESSION_ONLY_LABEL@,
            max_name_len(locations@, locations.len() as int, 20),
        ) + "  (not persisted)"@,
        r.1 == default_choice(locations@, locations.len() as int),
{
    proof {
        reveal_strlit("Current session only");
    }
    let mut w: usize = 20;
    let mut k: usize = 0;
    while k < locations.len()
        invariant
            k <= locations.len(),
            w == max_name_len(locations@, k as int, 20),
            forall|i: int| 0 <= i < locations.len() ==> (#[trigger] locations@[i]).variable_name@.len() < usize::MAX / 4,
        decreases locations.len() - k,
    {
        let v = chars_of(locations[k].variable_name.as_str());
        assert(locations@[k as int].variable_name@.len() < usize::MAX / 4);
        let l = utf8_len_range(&v, 0, v.len());
        assert(v@.subrange(0, v@.len() as int) =~= v@);
        if l > w {
            w = l;
        }
        k = k + 1;
    }
    let mut items: Vec<String> = Vec::new();
    let mut default_idx: usize = 0;
    let mut i: usize = 0;
    while i < locations.len()
        invariant
            i <= locations.len(),
            w == max_name_len(locations@, locations.len() as int, 20),
            items.len() == i,
            forall|j: int| 0 <= j < i ==> #[trigger] items@[j]@ == location_label(locations@[j], w as int),
            default_idx == default_choice(locations@, i as int),
        decreases locations.len() - i,
    {
        let loc = &locations[i];
        let mut s = String::new();
        push_padded(&mut s, loc.variable_name.as_str(), w);
        push_str(&mut s, "  (");
        push_str(&mut s, loc.resolved_path.as_str());
        push_str(&mut s, ")");
        if loc.has_alias_block {
            push_str(&mut s, " [has aliases]");
        } else if loc.requires_admin {
            push_str(&mut s, " (requires admin)");
        }
        proof {
            reveal_strlit("  (");
            reveal_strlit(")");
            reveal_strlit(" [has aliases]");
            reveal_strlit(" (requires admin)");
        }
        assert(s@ =~= location_label(*loc, w as int));
        items.push(s);
        if loc.scope == ProfileScope::CurrentUserAllHosts {
            default_idx = i;
        }
        i = i + 1;
    }
    let mut last = String::new();
    push_padded(&mut last, SESSION_ONLY_LABEL, w);
    push_str(&mut last, "  (not persisted)");
    items.push(last);
    (items, default_idx)
}

/// Name of sub-alias `k` of `root`: the root followed by the suffix.
pub open spec fn sub_alias_name(root: Seq<char>, k: int) -> Seq<char> {
    root + SUB_ALIAS_DEFS@[k].0@
}

/// Widest sub-alias name of `root` in UTF-8 bytes.
pub open spec fn sub_name_width(root: Seq<char>) -> int {
    (utf8_len(root) + 2) as int
}

/// Label of sub-alias `k` of `root`: its name padded to the widest name,
/// the root with the switches padded to seven characters, and the
/// description.
pub open spec fn sub_alias_label(root: Seq<char>, k: int) -> Seq<char> {
    pad_right(sub_alias_name(root, k), sub_name_width(root)) + " = "@ + root + " "@ + pad_right(
        SUB_ALIAS_DEFS@[k].1@,
        7,
    ) + " ("@ + SUB_ALIAS_DEFS@[k].2@ + ")"@
}

/// Whether sub-alias `name` starts checked: never when it would shadow a
/// built-in alias; otherwise as in the existing block of the same root, and
/// checked when there is none.
pub open spec fn sub_alias_checked(root: Seq<char>, name: Seq<char>, existing: Option<BlockView>) -> bool {
    if conflict_from(name, builtin_table(), 0) is Some {
        false
    } else {
        match existing {
            Some(b) => if b.root == root {
                b.names.contains(name)
            } else {
                true
            },
            None => true,
        }
    }
}

/// The root alias offered first: the existing block's, or "d".
pub open spec fn default_root(existing: Option<BlockView>) -> Seq<char> {
    match existing {
        Some(b) => b.root,
        None => "d"@,
    }
}

/// The root alias offered first.
pub fn default_root_alias(existing: Option<&AliasBlock>) -> (r: String)
    ensures
        r@ == default_root(match existing {
            Some(b) => Some(b@),
            None => None,
        }),
{
    match existing {
        Some(b) => b.root_alias.clone(),
        None => crate::text::string_from("d"),
    }
}

/// Whether `names` holds `name`.
fn names_contain(names: &Vec<String>, name: &String) -> (r: bool)
    ensures
        r == crate::command_line::strings_view(names@).contains(name@),
{
    let nv = chars_of(name.as_str());
    let mut k: usize = 0;
    while k < names.len()
        invariant
            k <= names.len(),
            nv@ == name@,
            forall|j: int| 0 <= j < k ==> names@[j]@ != name@,
        decreases names.len() - k,
    {
        let cv = chars_of(names[k].as_str());
        assert(cv@.subrange(0, cv@.len() as int) =~= cv@);
        if crate::text::eq_range(&cv, 0, cv.len(), &nv) {
            assert(crate::command_line::strings_view(names@)[k as int] == name@);
            return true;
        }
        k = k + 1;
    }
    assert forall|j: int| 0 <= j < names@.len() implies crate::command_line::strings_view(names@)[j] != name@ by {
        assert(crate::command_line::strings_view(names@)[j] == names@[j]@);
    }
    false
}

/// The sub-alias choices for `root`: a label and whether it starts
/// checked, for each sub-alias in table order, and whether each is locked
/// because it would shadow a built-in alias.
#[verifier::spinoff_prover]
#[verifier::rlimit(40)]
pub fn sub_alias_items(root: &str, existing: Option<&AliasBlock>) -> (r: (Vec<(String, bool)>, Vec<bool>))
    requires
        root@.len() < usize::MAX / 8,
    ensures
        r.0.len() == 5,
        r.1.len() == 5,
        forall|k: int| 0 <= k < 5 ==> #[trigger] r.1@[k] == (conflict_from(sub_alias_name(root@, k), builtin_table(), 0) is Some),
        forall|k: int| 0 <= k < 5 ==> #[trigger] r.0@[k].0@ == sub_alias_label(root@, k),
        forall|k: int| 0 <= k < 5 ==> #[trigger] r.0@[k].1 == sub_alias_checked(
            root@,
            sub_alias_name(root@, k),
            match existing {
                Some(b) => Some(b@),
                None => None,
            },
        ),
{
    let ghost ex = match existing {
        Some(b) => Some(b@),
        None => None::<BlockView>,
    };
    let rv = chars_of(root);
    assert(rv@.subrange(0, rv@.len() as int) =~= rv@);
    proof {
        crate::text::lemma_utf8_len_bound(rv@);
    }
    let w = utf8_len_range(&rv, 0, rv.len()) + 2;
    proof {
        reveal_strlit("t");
        reveal_strlit("w");
        reveal_strlit("d");
        reveal_strlit("s");
        reveal_strlit("sb");
        reveal_strlit(" = ");
        reveal_strlit(" ");
        reveal_strlit(" (");
        reveal_strlit(")");
    }
    let mut items: Vec<(String, bool)> = Vec::new();
    let mut locked: Vec<bool> = Vec::new();
    let mut k: usize = 0;
    while k < 5
        invariant
            k <= 5,
            items.len() == k,
            locked.len() == k,
            w == sub_name_width(root@),
            rv@ == root@,
            ex == (match existing {
                Some(b) => Some(b@),
                None => None::<BlockView>,
            }),
            forall|j: int| 0 <= j < k ==> #[trigger] locked@[j] == (conflict_from(sub_alias_name(root@, j), builtin_table(), 0) is Some),
            forall|j: int| 0 <= j < k ==> #[trigger] items@[j].0@ == sub_alias_label(root@, j),
            forall|j: int| 0 <= j < k ==> #[trigger] items@[j].1 == sub_alias_checked(root@, sub_alias_name(root@, j), ex),
        decreases 5 - k,
    {
        let (suffix, flags, desc) = SUB_ALIAS_DEFS[k];
        let mut name = crate::text::string_from(root);
        push_str(&mut name, suffix);
        assert(name@ == sub_alias_name(root@, k as int));
        let is_locked = find_alias_conflict(name.as_str()).is_some();
        let mut label = String::new();
        push_padded(&mut label, name.as_str(), w);
        push_str(&mut label, " = ");
        push_str(&mut label, root);
        push_str(&mut label, " ");
        push_padded(&mut label, flags, 7);
        push_str(&mut label, " (");
        push_str(&mut label, desc);
        push_str(&mut label, ")");
        assert(label@ =~= sub_alias_label(root@, k as int));
        let checked = if is_locked {
            false
        } else {
            match existing {
                Some(b) => {
                    let bv = chars_of(b.root_alias.as_str());
                    assert(bv@.subrange(0, bv@.len() as int) =~= bv@);
                    if crate::text::eq_range(&bv, 0, bv.len(), &rv) {
                        assert(b@.root == root@);
                        names_contain(&b.alias_names, &name)
                    } else {
                        assert(b@.root != root@);
                        true
                    }
                },
                None => true,
            }
        };
        assert(checked == sub_alias_checked(root@, sub_alias_name(root@, k as int), ex));
        items.push((label, checked));
        locked.push(is_locked);
        k = k + 1;
    }
    (items, locked)
}

/// The alias configuration that a set of choices describes: each
/// sub-alias of `root` with its switches, description and whether it was
/// checked.  A configuration for the current session only has no target
/// file and the current-user, all-hosts scope.
pub fn alias_config_from_choices(
    root: &str,
    rcdir_invocation: String,
    checked: &[bool],
    target_scope: ProfileScope,
    target_path: String,
    session_only: bool,
    what_if: bool,
) -> (r: AliasConfig)
    requires
        checked.len() == 5,
    ensures
        r.root_alias@ == root@,
        r.rcdir_invocation@ == rcdir_invocation@,
        r.sub_aliases.len() == 5,
        forall|k: int| 0 <= k < 5 ==> {
            let d = #[trigger] r.sub_aliases@[k];
            &&& d.name@ == sub_alias_name(root@, k)
            &&& d.flags@ == SUB_ALIAS_DEFS@[k].1@
            &&& d.description@ == SUB_ALIAS_DEFS@[k].2@
            &&& d.enabled == checked@[k]
        },
        r.target_scope == (if session_only { ProfileScope::CurrentUserAllHosts } else { target_scope }),
        r.target_path@ == (if session_only { Seq::<char>::empty() } else { target_path@ }),
        r.session_only == session_only,
        r.what_if == what_if,
{
    let mut subs: Vec<AliasDefinition> = Vec::new();
    let mut k: usize = 0;
    while k < 5
        invariant
            k <= 5,
            checked.len() == 5,
            subs.len() == k,
            forall|j: int| 0 <= j < k ==> {
                let d = #[trigger] subs@[j];
                &&& d.name@ == sub_alias_name(root@, j)
                &&& d.flags@ == SUB_ALIAS_DEFS@[j].1@
                &&& d.description@ == SUB_ALIAS_DEFS@[j].2@
                &&& d.enabled == checked@[j]
            },
        decreases 5 - k,
    {
        let (suffix, flags, desc) = SUB_ALIAS_DEFS[k];
        let mut name = crate::text::string_from(root);
        push_str(&mut name, suffix);
        subs.push(AliasDefinition {
            name,
            flags: crate::text::string_from(flags),
            description: crate::text::string_from(desc),
            enabled: checked[k],
        });
        k = k + 1;
    }
    AliasConfig {
        root_alias: crate::text::string_from(root),
        rcdir_invocation,
        sub_aliases: subs,
        target_scope: if session_only {
            ProfileScope::CurrentUserAllHosts
        } else {
            target_scope
        },
        target_path: if session_only {
            String::new()
        } else {
            target_path
        },
        session_only,
        what_if,
    }
}

/// `names` joined with ", ".
pub open spec fn comma_joined(names: Seq<Seq<char>>) -> Seq<char>
    decreases names.len(),
{
    if names.len() == 0 {
        Seq::empty()
    } else if names.len() == 1 {
        names[0]
    } else {
        comma_joined(names.drop_last()) + ", "@ + names.last()
    }
}

/// Label of a profile offered for removal, with the aliases found in it.
pub fn removal_label(variable_name: &str, path: &str, names: &Vec<String>) -> (r: String)
    ensures
        r@ == variable_name@ + " ("@ + path@ + ")\n        Found aliases: "@ + comma_joined(
            crate::command_line::strings_view(names@),
        ),
{
    let mut s = crate::text::string_from(variable_name);
    push_str(&mut s, " (");
    push_str(&mut s, path);
    push_str(&mut s, ")\n        Found aliases: ");
    let ghost head = s@;
    let mut k: usize = 0;
    while k < names.len()
        invariant
            k <= names.len(),
            s@ == head + comma_joined(crate::command_line::strings_view(names@).take(k as int)),
        decreases names.len() - k,
    {
        let ghost prev = crate::command_line::strings_view(names@).take(k as int);
        if k > 0 {
            push_str(&mut s, ", ");
        }
        push_str(&mut s, names[k].as_str());
        proof {
            reveal_strlit(", ");
            let next = crate::command_line::strings_view(names@).take(k + 1);
            assert(next.drop_last() =~= prev);
            assert(next.last() == names@[k as int]@);
            if k == 0 {
                assert(comma_joined(prev) =~= Seq::<char>::empty());
                assert(next.len() == 1);
            }
        }
        k = k + 1;
        assert(s@ =~= head + comma_joined(crate::command_line::strings_view(names@).take(k as int)));
    }
    assert(crate::command_line::strings_view(names@).take(names@.len() as int) =~= crate::command_line::strings_view(names@));
    proof {
        reveal_strlit(" (");
        reveal_strlit(")\n        Found aliases: ");
    }
    s
}

// ───────────────────────────── set wizard ─────────────────────────────

/// What the set wizard knows before it starts: whether it only previews,
/// and how many profile locations it offers (the choice after the last one
/// is the current session only).
#[derive(Debug, Clone, Copy)]
pub struct SetAliasContext {
    pub what_if: bool,
    pub location_count: usize,
}

/// Where the set wizard stands.
#[derive(Debug)]
pub enum SetAliasState {
    /// Waiting for the root alias.
    AskRoot,
    /// Waiting for the sub-alias choices of `root`.
    AskSubAliases { root: String },
    /// Waiting for the profile location.
    AskLocation { root: String, checked: Vec<bool> },
    /// Waiting for the confirmation to write to location `location`.
    AskConfirm { root: String, checked: Vec<bool>, location: usize },
    /// Finished.
    Done,
}

/// What the user did.
#[derive(Debug)]
pub enum SetAliasEvent {
    /// The wizard starts.
    Begin,
    /// The user cancelled the current prompt.
    Cancelled,
    /// The user entered a root alias.
    RootEntered(String),
    /// The user chose which sub-aliases to keep (one flag per sub-alias).
    SubAliasesChosen(Vec<bool>),
    /// The user chose a profile location; the index after the last
    /// location is the current session only.
    LocationChosen(usize),
    /// The user answered the confirmation.
    Confirmed(bool),
}

/// What follows the preview of the block.
#[derive(Debug, Clone, Copy, PartialEq, Eq, Structural)]
pub enum AfterPreview {
    /// A what-if run: nothing is written.
    Finish,
    /// The block is for the current session: it is only shown.
    SessionOnly,
    /// The user is asked before the block is written.
    Confirm,
}

/// What the set wizard does next.
#[derive(Debug)]
pub enum SetAliasAction {
    /// Ask for the root alias.
    PromptRoot,
    /// Report that `candidate` shadows PowerShell's alias for `command`,
    /// then ask again.
    ReportConflict { candidate: String, command: String },
    /// Ask which sub-aliases of `root` to keep.
    PromptSubAliases { root: String },
    /// Ask where to save the aliases.
    PromptLocation,
    /// Show the block for these choices, then go on as `then` says.
    ShowBlock { root: String, checked: Vec<bool>, location: usize, session_only: bool, then: AfterPreview },
    /// Write the block for these choices into the profile at `location`
    /// (replacing its block, or appended when it has none).
    WriteBlock { root: String, checked: Vec<bool>, location: usize },
    /// Report that the wizard was cancelled.
    ReportCancelled,
    /// The event does not apply in this state.
    Ignored,
}

/// One step of the set wizard: a cancelled prompt ends it; a root alias
/// that shadows a built-in alias is refused and asked again; the choices
/// lead on to the sub-aliases and the location; in a what-if run the block
/// is only shown, for the current session it is shown to be pasted, and
/// otherwise it is written once the user confirms.  An event that does not
/// apply leaves the state as it is.
pub open spec fn set_alias_step_spec(
    ctx: SetAliasContext,
    s: SetAliasState,
    e: SetAliasEvent,
    ns: SetAliasState,
    a: SetAliasAction,
) -> bool {
    let ignored = ns == s && a is Ignored;
    if s is Done {
        ns is Done && a is Ignored
    } else {
        match e {
            SetAliasEvent::Cancelled => ns is Done && a is ReportCancelled,
            SetAliasEvent::Begin => if s is AskRoot {
                ns is AskRoot && a is PromptRoot
            } else {
                ignored
            },
            SetAliasEvent::RootEntered(c) => if s is AskRoot {
                match conflict_from(c@, builtin_table(), 0) {
                    Some(cmd) => ns is AskRoot && (a matches SetAliasAction::ReportConflict { candidate, command }
                        && candidate@ == c@ && command@ == cmd),
                    None => (ns matches SetAliasState::AskSubAliases { root } && root@ == c@) && (
                    a matches SetAliasAction::PromptSubAliases { root } && root@ == c@),
                }
            } else {
                ignored
            },
            SetAliasEvent::SubAliasesChosen(v) => match s {
                SetAliasState::AskSubAliases { root } => if v.len() == 5 {
                    (ns matches SetAliasState::AskLocation { root: r2, checked } && r2@ == root@ && checked@ == v@)
                        && a is PromptLocation
                } else {
                    ignored
                },
                _ => ignored,
            },
            SetAliasEvent::LocationChosen(i) => match s {
                SetAliasState::AskLocation { root, checked } => if i <= ctx.location_count {
                    let session = i == ctx.location_count;
                    let then = if ctx.what_if {
                        AfterPreview::Finish
                    } else if session {
                        AfterPreview::SessionOnly
                    } else {
                        AfterPreview::Confirm
                    };
                    &&& a matches SetAliasAction::ShowBlock { root: r, checked: c, location, session_only, then: t }
                        && r@ == root@ && c@ == checked@ && location == i && session_only == session && t == then
                    &&& if then == AfterPreview::Confirm {
                        ns matches SetAliasState::AskConfirm { root: r3, checked: c3, location: l3 } && r3@ == root@
                            && c3@ == checked@ && l3 == i
                    } else {
                        ns is Done
                    }
                } else {
                    ignored
                },
                _ => ignored,
            },
            SetAliasEvent::Confirmed(b) => match s {
                SetAliasState::AskConfirm { root, checked, location } => if b {
                    ns is Done && (a matches SetAliasAction::WriteBlock { root: r, checked: c, location: l } && r@
                        == root@ && c@ == checked@ && l == location)
                } else {
                    ns is Done && a is ReportCancelled
                },
                _ => ignored,
            },
        }
    }
}

/// A copy of a list of flags.
fn copy_flags(v: &Vec<bool>) -> (r: Vec<bool>)
    ensures
        r@ == v@,
{
    let mut r: Vec<bool> = Vec::new();
    let mut k: usize = 0;
    while k < v.len()
        invariant
            k <= v.len(),
            r@ == v@.take(k as int),
        decreases v.len() - k,
    {
        r.push(v[k]);
        k = k + 1;
        assert(r@ =~= v@.take(k as int));
    }
    assert(v@.take(v@.len() as int) =~= v@);
    r
}

/// One step of the set wizard (see `set_alias_step_spec`).
pub fn set_aliases_step(ctx: SetAliasContext, state: SetAliasState, event: SetAliasEvent) -> (r: (
    SetAliasState,
    SetAliasAction,
))
    ensures
        set_alias_step_spec(ctx, state, event, r.0, r.1),
{
    match state {
        SetAliasState::Done => (SetAliasState::Done, SetAliasAction::Ignored),
        _ => match event {
            SetAliasEvent::Cancelled => (SetAliasState::Done, SetAliasAction::ReportCancelled),
            SetAliasEvent::Begin => match state {
                SetAliasState::AskRoot => (SetAliasState::AskRoot, SetAliasAction::PromptRoot),
                other => (other, SetAliasAction::Ignored),
            },
            SetAliasEvent::RootEntered(c) => match state {
                SetAliasState::AskRoot => match find_alias_conflict(c.as_str()) {
                    Some(cmd) => (
                        SetAliasState::AskRoot,
                        SetAliasAction::ReportConflict { candidate: c, command: crate::text::string_from(cmd) },
                    ),
                    None => {
                        let root2 = c.clone();
                        (SetAliasState::AskSubAliases { root: c }, SetAliasAction::PromptSubAliases { root: root2 })
                    },
                },
                other => (other, SetAliasAction::Ignored),
            },
            SetAliasEvent::SubAliasesChosen(v) => match state {
                SetAliasState::AskSubAliases { root } => if v.len() == 5 {
                    (SetAliasState::AskLocation { root, checked: v }, SetAliasAction::PromptLocation)
                } else {
                    (SetAliasState::AskSubAliases { root }, SetAliasAction::Ignored)
                },
                other => (other, SetAliasAction::Ignored),
            },
            SetAliasEvent::LocationChosen(i) => match state {
                SetAliasState::AskLocation { root, checked } => if i <= ctx.location_count {
                    let session = i == ctx.location_count;
                    let then = if ctx.what_if {
                        AfterPreview::Finish
                    } else if session {
                        AfterPreview::SessionOnly
                    } else {
                        AfterPreview::Confirm
                    };
                    let shown = SetAliasAction::ShowBlock {
                        root: root.clone(),
                        checked: copy_flags(&checked),
                        location: i,
                        session_only: session,
                        then,
                    };
                    match then {
                        AfterPreview::Confirm => (SetAliasState::AskConfirm { root, checked, location: i }, shown),
                        _ => (SetAliasState::Done, shown),
                    }
                } else {
                    (SetAliasState::AskLocation { root, checked }, SetAliasAction::Ignored)
                },
                other => (other, SetAliasAction::Ignored),
            },
            SetAliasEvent::Confirmed(b) => match state {
                SetAliasState::AskConfirm { root, checked, location } => if b {
                    (SetAliasState::Done, SetAliasAction::WriteBlock { root, checked, location })
                } else {
                    (SetAliasState::Done, SetAliasAction::ReportCancelled)
                },
                other => (other, SetAliasAction::Ignored),
            },
        },
    }
}

// ──────────────────────────── remove wizard ────────────────────────────

/// Where the remove wizard stands.
#[derive(Debug, Clone, Copy, PartialEq, Eq, Structural)]
pub enum RemoveAliasState {
    /// Not started.
    Start,
    /// Waiting for the profiles to remove the aliases from.
    AskProfiles,
    /// Finished.
    Done,
}

/// What the user did.
#[derive(Debug)]
pub enum RemoveAliasEvent {
    /// The wizard starts.
    Begin,
    /// The user cancelled the prompt.
    Cancelled,
    /// The user chose, for each profile holding aliases, whether to remove
    /// them.
    ProfilesChosen(Vec<bool>),
}

/// What the remove wizard does next.
#[derive(Debug)]
pub enum RemoveAliasAction {
    /// Report that no profile holds aliases.
    ReportNoAliases,
    /// Ask which profiles to remove the aliases from.
    PromptProfiles,
    /// Report that no profile was chosen.
    ReportNoneSelected,
    /// A what-if run: show what would be removed from the chosen profiles.
    ShowWhatIf { selected: Vec<bool> },
    /// Remove the alias block from the chosen profiles.
    RemoveFrom { selected: Vec<bool> },
    /// Report that the wizard was cancelled.
    ReportCancelled,
    /// The event does not apply in this state.
    Ignored,
}

/// One step of the remove wizard, for `profile_count` profiles holding
/// aliases: with none there is nothing to do; a cancelled prompt ends it;
/// choosing no profile removes nothing; a what-if run only shows what the
/// chosen profiles would lose; otherwise their blocks are removed.  An
/// event that does not apply leaves the state as it is.
pub open spec fn remove_alias_step_spec(
    what_if: bool,
    profile_count: usize,
    s: RemoveAliasState,
    e: RemoveAliasEvent,
    ns: RemoveAliasState,
    a: RemoveAliasAction,
) -> bool {
    let ignored = ns == s && a is Ignored;
    match (s, e) {
        (RemoveAliasState::Start, RemoveAliasEvent::Begin) => if profile_count == 0 {
            ns == RemoveAliasState::Done && a is ReportNoAliases
        } else {
            ns == RemoveAliasState::AskProfiles && a is PromptProfiles
        },
        (RemoveAliasState::AskProfiles, RemoveAliasEvent::Cancelled) => ns == RemoveAliasState::Done
            && a is ReportCancelled,
        (RemoveAliasState::AskProfiles, RemoveAliasEvent::ProfilesChosen(sel)) => if sel.len() != profile_count {
            ignored
        } else if !sel@.contains(true) {
            ns == RemoveAliasState::Done && a is ReportNoneSelected
        } else if what_if {
            ns == RemoveAliasState::Done && (a matches RemoveAliasAction::ShowWhatIf { selected } && selected@
                == sel@)
        } else {
            ns == RemoveAliasState::Done && (a matches RemoveAliasAction::RemoveFrom { selected } && selected@
                == sel@)
        },
        _ => ignored,
    }
}

/// Whether any flag is set.
fn any_set(v: &Vec<bool>) -> (r: bool)
    ensures
        r == v@.contains(true),
{
    let mut k: usize = 0;
    while k < v.len()
        invariant
            k <= v.len(),
            forall|j: int| 0 <= j < k ==> !v@[j],
        decreases v.len() - k,
    {
        if v[k] {
            assert(v@[k as int] == true);
            return true;
        }
        k = k + 1;
    }
    false
}

/// One step of the remove wizard (see `remove_alias_step_spec`).
pub fn remove_aliases_step(
    what_if: bool,
    profile_count: usize,
    state: RemoveAliasState,
    event: RemoveAliasEvent,
) -> (r: (RemoveAliasState, RemoveAliasAction))
    ensures
        remove_alias_step_spec(what_if, profile_count, state, event, r.0, r.1),
{
    match (state, event) {
        (RemoveAliasState::Start, RemoveAliasEvent::Begin) => if profile_count == 0 {
            (RemoveAliasState::Done, RemoveAliasAction::ReportNoAliases)
        } else {
            (RemoveAliasState::AskProfiles, RemoveAliasAction::PromptProfiles)
        },
        (RemoveAliasState::AskProfiles, RemoveAliasEvent::Cancelled) => (
            RemoveAliasState::Done,
            RemoveAliasAction::ReportCancelled,
        ),
        (RemoveAliasState::AskProfiles, RemoveAliasEvent::ProfilesChosen(sel)) => if sel.len() != profile_count {
            (RemoveAliasState::AskProfiles, RemoveAliasAction::Ignored)
        } else if !any_set(&sel) {
            (RemoveAliasState::Done, RemoveAliasAction::ReportNoneSelected)
        } else if what_if {
            (RemoveAliasState::Done, RemoveAliasAction::ShowWhatIf { selected: sel })
        } else {
            (RemoveAliasState::Done, RemoveAliasAction::RemoveFrom { selected: sel })
        },
        (other, _) => (other, RemoveAliasAction::Ignored),
    }
}

} // verus!
