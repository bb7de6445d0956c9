//! Where the PowerShell profiles are, from facts gathered by the caller:
//! the launching process's executable name, the Documents folder, the
//! PowerShell home directory and which files exist.

use vstd::prelude::*;
use crate::alias_types::{PowerShellVersion, ProfileLocation, ProfileScope, scope_variable_name};
use crate::ehm::AppError;
use crate::text::{chars_of, eq_ic, eq_ic_range, eq_ic_str, find_ch, push_str, string_from};

verus! {

/// The PowerShell edition of an executable file name (ignoring ASCII case).
pub open spec fn version_of_exe(name: Seq<char>) -> PowerShellVersion {
    if eq_ic(name, "pwsh.exe"@) {
        PowerShellVersion::PowerShell
    } else if eq_ic(name, "powershell.exe"@) {
        PowerShellVersion::WindowsPowerShell
    } else {
        PowerShellVersion::Unknown
    }
}

/// The PowerShell edition whose executable is `exe_file_name`.
pub fn version_from_exe_name(exe_file_name: &str) -> (r: PowerShellVersion)
    ensures
        r == version_of_exe(exe_file_name@),
{
    let v = chars_of(exe_file_name);
    assert(v@.subrange(0, v@.len() as int) =~= v@);
    if eq_ic_str(&v, 0, v.len(), "pwsh.exe") {
        PowerShellVersion::PowerShell
    } else if eq_ic_str(&v, 0, v.len(), "powershell.exe") {
        PowerShellVersion::WindowsPowerShell
    } else {
        PowerShellVersion::Unknown
    }
}

/// `dir` and `name` joined with a backslash, unless `dir` is empty or
/// already ends in a separator.
pub open spec fn join_path(dir: Seq<char>, name: Seq<char>) -> Seq<char> {
    if dir.len() == 0 || dir.last() == '\\' || dir.last() == '/' {
        dir + name
    } else {
        dir.push('\\') + name
    }
}

/// `dir` and `name` joined as a path.
pub fn join(dir: &str, name: &str) -> (r: String)
    ensures
        r@ == join_path(dir@, name@),
{
    let v = chars_of(dir);
    let mut s = string_from(dir);
    if !(v.len() == 0 || v[v.len() - 1] == '\\' || v[v.len() - 1] == '/') {
        crate::text::push_char(&mut s, '\\');
    }
    push_str(&mut s, name);
    s
}

/// Folder of the per-user profiles under Documents for an edition.
pub open spec fn edition_folder(version: PowerShellVersion) -> Seq<char> {
    match version {
        PowerShellVersion::PowerShell => "PowerShell"@,
        _ => "WindowsPowerShell"@,
    }
}

/// The message for an unknown edition.
pub open spec fn unknown_edition_message() -> Seq<char> {
    "Cannot resolve profile paths for unknown PowerShell version."@
}

/// The profile location of one scope.
pub open spec fn location_is(
    loc: ProfileLocation,
    scope: ProfileScope,
    path: Seq<char>,
    exists: bool,
    requires_admin: bool,
) -> bool {
    &&& loc.scope == scope
    &&& loc.variable_name@ == scope_variable_name(scope)
    &&& loc.resolved_path@ == path
    &&& loc.exists == exists
    &&& loc.requires_admin == requires_admin
    &&& !loc.has_alias_block
}

/// A profile location.
fn make_location(scope: ProfileScope, path: String, exists: bool, requires_admin: bool) -> (r: ProfileLocation)
    ensures
        location_is(r, scope, path@, exists, requires_admin),
{
    ProfileLocation {
        scope,
        variable_name: string_from(scope.variable_name()),
        resolved_path: path,
        exists,
        requires_admin,
        has_alias_block: false,
    }
}

/// The four profile locations of an edition, in the order current user
/// and current host, current user and all hosts, all users and current
/// host, all users and all hosts.  The per-user profiles are in the
/// edition's folder under `documents`, the all-users ones in `pshome`,
/// which needs administrator rights unless `pshome_writable`.  `exists`
/// tells which of the four files exist.
pub fn resolve_profile_paths(
    version: PowerShellVersion,
    documents: &str,
    pshome: &str,
    pshome_writable: bool,
    exists: [bool; 4],
) -> (r: Result<Vec<ProfileLocation>, AppError>)
    ensures
        version == PowerShellVersion::Unknown <==> r is Err,
        r matches Err(AppError::InvalidArg(m)) ==> m@ == unknown_edition_message(),
        r is Err ==> r matches Err(AppError::InvalidArg(_)),
        r matches Ok(v) ==> {
            let user_dir = join_path(documents@, edition_folder(version));
            &&& v.len() == 4
            &&& location_is(v@[0], ProfileScope::CurrentUserCurrentHost, join_path(user_dir, "Microsoft.PowerShell_profile.ps1"@), exists@[0], false)
            &&& location_is(v@[1], ProfileScope::CurrentUserAllHosts, join_path(user_dir, "profile.ps1"@), exists@[1], false)
            &&& location_is(v@[2], ProfileScope::AllUsersCurrentHost, join_path(pshome@, "Microsoft.PowerShell_profile.ps1"@), exists@[2], !pshome_writable)
            &&& location_is(v@[3], ProfileScope::AllUsersAllHosts, join_path(pshome@, "profile.ps1"@), exists@[3], !pshome_writable)
        },
{
    let folder = match version {
        PowerShellVersion::PowerShell => "PowerShell",
        PowerShellVersion::WindowsPowerShell => "WindowsPowerShell",
        PowerShellVersion::Unknown => {
            return Err(AppError::InvalidArg(string_from("Cannot resolve profile paths for unknown PowerShell version.")));
        },
    };
    let user_dir = join(documents, folder);
    let mut v: Vec<ProfileLocation> = Vec::new();
    v.push(make_location(
        ProfileScope::CurrentUserCurrentHost,
        join(user_dir.as_str(), "Microsoft.PowerShell_profile.ps1"),
        exists[0],
        false,
    ));
    v.push(make_location(ProfileScope::CurrentUserAllHosts, join(user_dir.as_str(), "profile.ps1"), exists[1], false));
    v.push(make_location(
        ProfileScope::AllUsersCurrentHost,
        join(pshome, "Microsoft.PowerShell_profile.ps1"),
        exists[2],
        !pshome_writable,
    ));
    v.push(make_location(ProfileScope::AllUsersAllHosts, join(pshome, "profile.ps1"), exists[3], !pshome_writable));
    Ok(v)
}


/// The command that runs rcdir from a PowerShell profile: the bare name
/// when the executable that a PATH search finds is this one (paths
/// compared ignoring ASCII case), else the full path, quoted and invoked
/// with `&` when it holds a space.
pub open spec fn invocation_of(exe_path: Seq<char>, found_on_path: Option<Seq<char>>) -> Seq<char> {
    if found_on_path matches Some(f) && eq_ic(f, exe_path) {
        "rcdir"@
    } else if exe_path.contains(' ') {
        "& \""@ + exe_path + "\""@
    } else {
        exe_path
    }
}

/// The command that runs rcdir from a profile, from the executable's full
/// path and what a PATH search for its file name found.
pub fn rcdir_invocation_for(exe_path: &str, found_on_path: Option<&str>) -> (r: String)
    ensures
        r@ == invocation_of(
            exe_path@,
            match found_on_path {
                Some(f) => Some(f@),
                None => None,
            },
        ),
{
    let ev = chars_of(exe_path);
    if let Some(f) = found_on_path {
        let fv = chars_of(f);
        assert(fv@.subrange(0, fv@.len() as int) =~= fv@);
        if eq_ic_range(&fv, 0, fv.len(), &ev) {
            proof {
                reveal_strlit("rcdir");
            }
            return string_from("rcdir");
        }
    }
    match find_ch(&ev, ' ') {
        Some(i) => {
            proof {
                assert(ev@[i as int] == ' ');
                reveal_strlit("& \"");
                reveal_strlit("\"");
            }
            let mut s = string_from("& \"");
            push_str(&mut s, exe_path);
            push_str(&mut s, "\"");
            s
        },
        None => {
            proof {
                crate::text::lemma_find_from_spec(ev@, seq![' '], 0);
                assert forall|j: int| 0 <= j < ev@.len() implies ev@[j] != ' ' by {
                    if ev@[j] == ' ' {
                        assert(ev@.subrange(j, j + 1) =~= seq![' ']);
                        assert(crate::text::occurs_at(ev@, seq![' '], j));
                    }
                }
                assert(!exe_path@.contains(' '));
            }
            string_from(exe_path)
        },
    }
}

} // verus!
