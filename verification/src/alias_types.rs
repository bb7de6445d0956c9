//! Types shared by the alias commands.

use vstd::prelude::*;

verus! {

/// The PowerShell edition that launched the program.
#[derive(Debug, Clone, Copy, PartialEq, Eq, Structural)]
pub enum PowerShellVersion {
    /// PowerShell 7 and later (pwsh.exe).
    PowerShell,
    /// Windows PowerShell 5.1 (powershell.exe).
    WindowsPowerShell,
    /// Neither of the two.
    Unknown,
}

/// The four PowerShell profile scopes.
#[derive(Debug, Clone, Copy, PartialEq, Eq, Structural)]
pub enum ProfileScope {
    CurrentUserCurrentHost,
    CurrentUserAllHosts,
    AllUsersCurrentHost,
    AllUsersAllHosts,
}

/// The `$PROFILE` property that names a scope.
pub open spec fn scope_variable_name(s: ProfileScope) -> Seq<char> {
    match s {
        ProfileScope::CurrentUserCurrentHost => "$PROFILE.CurrentUserCurrentHost"@,
        ProfileScope::CurrentUserAllHosts => "$PROFILE.CurrentUserAllHosts"@,
        ProfileScope::AllUsersCurrentHost => "$PROFILE.AllUsersCurrentHost"@,
        ProfileScope::AllUsersAllHosts => "$PROFILE.AllUsersAllHosts"@,
    }
}

impl ProfileScope {
    /// The PowerShell expression of the scope's profile path, such as
    /// "$PROFILE.CurrentUserAllHosts".
    pub fn variable_name(&self) -> (r: &'static str)
        ensures
            r@ == scope_variable_name(*self),
    {
        match self {
            ProfileScope::CurrentUserCurrentHost => "$PROFILE.CurrentUserCurrentHost",
            ProfileScope::CurrentUserAllHosts => "$PROFILE.CurrentUserAllHosts",
            ProfileScope::AllUsersCurrentHost => "$PROFILE.AllUsersCurrentHost",
            ProfileScope::AllUsersAllHosts => "$PROFILE.AllUsersAllHosts",
        }
    }
}

/// A profile file of one scope.
#[derive(Debug, Clone)]
pub struct ProfileLocation {
    pub scope: ProfileScope,
    pub variable_name: String,
    pub resolved_path: String,
    pub exists: bool,
    pub requires_admin: bool,
    pub has_alias_block: bool,
}

/// One alias: its name, the switches it passes and whether it is wanted.
#[derive(Debug, Clone)]
pub struct AliasDefinition {
    pub name: String,
    pub flags: String,
    pub description: String,
    pub enabled: bool,
}

/// Everything needed to generate an alias block.
#[derive(Debug, Clone)]
pub struct AliasConfig {
    pub root_alias: String,
    /// How the root alias invokes the program.
    pub rcdir_invocation: String,
    pub sub_aliases: Vec<AliasDefinition>,
    pub target_scope: ProfileScope,
    pub target_path: String,
    pub session_only: bool,
    pub what_if: bool,
}

/// An alias block found in a profile's lines.
#[derive(Debug, Clone)]
pub struct AliasBlock {
    /// First line of the block, banner lines included.
    pub start_line: usize,
    /// Last line of the block, banner lines included.
    pub end_line: usize,
    /// Name of the first function in the block.
    pub root_alias: String,
    /// Names of the functions in the block, in order.
    pub alias_names: Vec<String>,
    /// The block's function lines, in order.
    pub function_lines: Vec<String>,
    /// Version written in the block's header.
    pub version: String,
    pub found: bool,
}

} // verus!
