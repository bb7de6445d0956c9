use rcdir::alias_block_generator;
use rcdir::profile_file_manager;
use rcdir::alias_manager::SUB_ALIAS_DEFS;
use rcdir::alias_manager::find_alias_conflict;
use rcdir::alias_types::AliasConfig;
use rcdir::alias_types::AliasDefinition;
use rcdir::alias_types::ProfileScope;
use rcdir::nerd_font_detector::detect;
use rcdir::profile_file_manager::append_alias_block;
use rcdir::profile_file_manager::find_alias_block;
use rcdir::profile_file_manager::remove_alias_block;
use rcdir::profile_file_manager::replace_alias_block;

fn make_config(root: &str, invocation: &str, subs: &[(&str, &str, &str, bool)]) -> AliasConfig {
    AliasConfig {
        root_alias: root.to_string(),
        rcdir_invocation: invocation.to_string(),
        sub_aliases: subs.iter().map(|(name, flags, desc, enabled)| AliasDefinition {
            name: name.to_string(),
            flags: flags.to_string(),
            description: desc.to_string(),
            enabled: *enabled,
        }).collect(),
        target_scope: ProfileScope::CurrentUserAllHosts,
        target_path: String::new(),
        session_only: false,
        what_if: false,
    }
}


#[test]
fn build_default_sub_aliases_default_root() {
    let names: Vec<String> = SUB_ALIAS_DEFS.iter()
        .map (|(suffix, _, _)| format! ("d{}", suffix))
        .collect();

    assert_eq! (names.len(), 5);
    assert_eq! (names[0], "dt");
    assert_eq! (names[1], "dw");
    assert_eq! (names[2], "dd");
    assert_eq! (names[3], "ds");
    assert_eq! (names[4], "dsb");
}

#[test]
fn build_default_sub_aliases_custom_root() {
    let names: Vec<String> = SUB_ALIAS_DEFS.iter()
        .map (|(suffix, _, _)| format! ("tc{}", suffix))
        .collect();

    assert_eq! (names.len(), 5);
    assert_eq! (names[0], "tct");
    assert_eq! (names[1], "tcw");
    assert_eq! (names[2], "tcd");
    assert_eq! (names[3], "tcs");
    assert_eq! (names[4], "tcsb");
}

#[test]
fn set_aliases_generate_and_append_in_memory() {
    let config = make_config ("d", "rcdir", &[
        ("dd", "-a:d", "dirs",   true),
        ("ds", "-s",   "search", true),
        ("dw", "-w",   "wide",   false),
    ]);

    let block_lines = alias_block_generator::generate (&config);
    let mut lines: Vec<String> = Vec::new();

    profile_file_manager::append_alias_block (&mut lines, &block_lines);

    let block = profile_file_manager::find_alias_block (&lines);

    assert! (block.found);
    assert_eq! (block.root_alias, "d");
    // Root + 2 enabled subs = 3
    assert_eq! (block.alias_names.len(), 3);
}

#[test]
fn set_aliases_existing_block_replaces_correctly() {
    let config1 = make_config ("d", "rcdir", &[
        ("dd", "-a:d", "dirs", true),
    ]);
    let config2 = make_config ("tc", "rcdir", &[
        ("tcd", "-a:d", "dirs",   true),
        ("tcs", "-s",   "search", true),
    ]);

    let block1 = alias_block_generator::generate (&config1);
    let block2 = alias_block_generator::generate (&config2);

    let mut lines = vec!["# Before content".to_string()];
    profile_file_manager::append_alias_block (&mut lines, &block1);
    lines.push ("# After content".to_string());

    let found = profile_file_manager::find_alias_block (&lines);
    assert! (found.found);

    profile_file_manager::replace_alias_block (&mut lines, &found, &block2);

    let found2 = profile_file_manager::find_alias_block (&lines);
    assert! (found2.found);
    assert_eq! (found2.root_alias, "tc");
    assert_eq! (found2.alias_names.len(), 3); // tc, tcd, tcs

    assert_eq! (lines.first().unwrap(), "# Before content");
    assert_eq! (lines.last().unwrap(), "# After content");
}

#[test]
fn session_only_generates_block() {
    let mut config = make_config ("d", "rcdir", &[
        ("dd", "-a:d", "dirs", true),
    ]);
    config.session_only = true;

    let block_lines = alias_block_generator::generate (&config);

    assert! (block_lines.len() > 5);

    let found_root = block_lines.iter().any (|l| l.contains ("function d"));
    assert! (found_root);
}

#[test]
fn get_aliases_finds_block_in_file() {
    let config = make_config ("d", "rcdir", &[
        ("dd", "-a:d", "dirs",   true),
        ("ds", "-s",   "search", true),
    ]);

    let block_lines = alias_block_generator::generate (&config);

    let mut lines = vec!["# My profile".to_string(), "Import-Module posh-git".to_string()];
    profile_file_manager::append_alias_block (&mut lines, &block_lines);

    let block = profile_file_manager::find_alias_block (&lines);

    assert! (block.found);
    assert_eq! (block.root_alias, "d");
    assert_eq! (block.alias_names.len(), 3); // d, dd, ds
    assert_eq! (block.alias_names[0], "d");
    assert_eq! (block.alias_names[1], "dd");
    assert_eq! (block.alias_names[2], "ds");
    assert! (!block.version.is_empty());
}

#[test]
fn get_aliases_no_aliases_block_not_found() {
    let lines = vec![
        "# My PowerShell profile".to_string(),
        "Set-Location C:\\code".to_string(),
        "Import-Module posh-git".to_string(),
    ];

    let block = profile_file_manager::find_alias_block (&lines);
    assert! (!block.found);
}

#[test]
fn get_aliases_multiple_profiles_scanned() {
    let config = make_config ("d", "rcdir", &[
        ("dd", "-a:d", "dirs", true),
    ]);

    let block_lines = alias_block_generator::generate (&config);

    // Profile 1: has aliases
    let mut profile1 = vec!["# profile 1".to_string()];
    profile_file_manager::append_alias_block (&mut profile1, &block_lines);

    // Profile 2: no aliases
    let profile2 = vec!["# profile 2".to_string()];

    let block1 = profile_file_manager::find_alias_block (&profile1);
    let block2 = profile_file_manager::find_alias_block (&profile2);

    assert! (block1.found);
    assert! (!block2.found);
}

#[test]
fn update_aliases_root_change_full_round_trip() {
    let config1 = make_config ("d", "rcdir", &[
        ("dd", "-a:d", "dirs", true),
    ]);

    let block1 = alias_block_generator::generate (&config1);

    let mut lines = vec!["# My profile".to_string()];
    profile_file_manager::append_alias_block (&mut lines, &block1);

    let found = profile_file_manager::find_alias_block (&lines);
    assert! (found.found);
    assert_eq! (found.root_alias, "d");

    // Generate replacement with new root
    let config2 = make_config ("tc", "rcdir", &[
        ("tcd", "-a:d", "dirs",   true),
        ("tcs", "-s",   "search", true),
    ]);
    let block2 = alias_block_generator::generate (&config2);

    profile_file_manager::replace_alias_block (&mut lines, &found, &block2);

    let found2 = profile_file_manager::find_alias_block (&lines);
    assert! (found2.found);
    assert_eq! (found2.root_alias, "tc");
    assert_eq! (found2.alias_names.len(), 3);

    assert_eq! (lines[0], "# My profile");
}

#[test]
fn update_aliases_same_root_different_subs() {
    let config1 = make_config ("d", "rcdir", &[
        ("dd", "-a:d", "dirs",   true),
        ("ds", "-s",   "search", true),
    ]);
    let config2 = make_config ("d", "rcdir", &[
        ("dd", "-a:d", "dirs",   false),  // disabled
        ("ds", "-s",   "search", true),
        ("dw", "-w",   "wide",   true),   // newly enabled
    ]);

    let block1 = alias_block_generator::generate (&config1);
    let block2 = alias_block_generator::generate (&config2);

    let mut lines: Vec<String> = Vec::new();
    profile_file_manager::append_alias_block (&mut lines, &block1);

    let found = profile_file_manager::find_alias_block (&lines);
    assert! (found.found);

    profile_file_manager::replace_alias_block (&mut lines, &found, &block2);

    let found2 = profile_file_manager::find_alias_block (&lines);
    assert! (found2.found);
    assert_eq! (found2.root_alias, "d");
    // d, ds, dw (dd disabled)
    assert_eq! (found2.alias_names.len(), 3);
    assert_eq! (found2.alias_names[0], "d");
    assert_eq! (found2.alias_names[1], "ds");
    assert_eq! (found2.alias_names[2], "dw");
}

#[test]
fn remove_aliases_clean_removal_in_memory() {
    let config = make_config ("d", "rcdir", &[
        ("dd", "-a:d", "dirs", true),
    ]);
    let block_lines = alias_block_generator::generate (&config);

    let mut lines = vec![
        "# Before aliases".to_string(),
        "Import-Module posh-git".to_string(),
    ];
    profile_file_manager::append_alias_block (&mut lines, &block_lines);
    lines.push ("# After aliases".to_string());

    let found = profile_file_manager::find_alias_block (&lines);
    assert! (found.found);

    profile_file_manager::remove_alias_block (&mut lines, &found);

    let found2 = profile_file_manager::find_alias_block (&lines);
    assert! (!found2.found);

    let text = lines.join ("\n");
    assert! (text.contains ("# Before aliases"));
    assert! (text.contains ("Import-Module posh-git"));
    assert! (text.contains ("# After aliases"));
}

#[test]
fn remove_aliases_no_aliases_nothing_to_remove() {
    let lines = vec![
        "# My profile".to_string(),
        "Set-Location C:\\code".to_string(),
    ];

    let block = profile_file_manager::find_alias_block (&lines);
    assert! (!block.found);
}

#[test]
fn whatif_set_aliases_no_file_modification() {
    let mut config = make_config ("d", "rcdir", &[
        ("dd", "-a:d", "dirs", true),
    ]);
    config.what_if = true;

    let block_lines = alias_block_generator::generate (&config);

    assert! (config.what_if);
    assert! (block_lines.len() > 5);

    let found_root = block_lines.iter().any (|l|
        l.contains ("function d") && l.contains ("rcdir @args")
    );
    assert! (found_root);
}

#[test]
fn whatif_remove_aliases_no_file_modification() {
    let config = make_config ("d", "rcdir", &[
        ("dd", "-a:d", "dirs", true),
    ]);
    let block_lines = alias_block_generator::generate (&config);

    let mut lines = vec!["# Profile content".to_string()];
    profile_file_manager::append_alias_block (&mut lines, &block_lines);

    let count_before = lines.len();

    // WhatIf: detect block but do NOT remove
    let block = profile_file_manager::find_alias_block (&lines);
    assert! (block.found);

    // Verify lines are unchanged (whatif = no modification)
    assert_eq! (lines.len(), count_before);

    let block2 = profile_file_manager::find_alias_block (&lines);
    assert! (block2.found);
}

#[test]
fn conflict_detection_known_builtin() {
    let conflict = find_alias_conflict ("r");
    assert! (conflict.is_some());
    assert_eq! (conflict.unwrap(), "Invoke-History");
}

#[test]
fn conflict_detection_no_conflict() {
    let conflict = find_alias_conflict ("zzz");
    assert! (conflict.is_none());
}

#[test]
fn find_block_in_profile() {
    let lines = vec![
        "# some existing content".to_string(),
        "".to_string(),
        "################################################################################".to_string(),
        "#".to_string(),
        "#  RCDir Aliases -- Generated by rcdir v5.1.1133".to_string(),
        "#".to_string(),
        "################################################################################".to_string(),
        "".to_string(),
        "function d   { rcdir @args    }".to_string(),
        "function dt  { d --tree @args }".to_string(),
        "".to_string(),
        "################################################################################".to_string(),
        "#  End RCDir Aliases".to_string(),
        "################################################################################".to_string(),
    ];

    let block = find_alias_block (&lines);
    assert! (block.found);
    assert_eq! (block.start_line, 2);
    assert_eq! (block.end_line, 13);
    assert_eq! (block.root_alias, "d");
    assert_eq! (block.alias_names, vec!["d", "dt"]);
    assert_eq! (block.function_lines.len(), 2);
    assert_eq! (block.version, "5.1.1133");
}

#[test]
fn find_no_block() {
    let lines = vec![
        "# just a regular profile".to_string(),
        "Set-Alias ll Get-ChildItem".to_string(),
    ];

    let block = find_alias_block (&lines);
    assert! (!block.found);
}

#[test]
fn replace_block() {
    let mut lines = vec![
        "# before".to_string(),
        "################################################################################".to_string(),
        "#  RCDir Aliases -- Generated by rcdir v1.0".to_string(),
        "################################################################################".to_string(),
        "function d { rcdir @args }".to_string(),
        "################################################################################".to_string(),
        "#  End RCDir Aliases".to_string(),
        "################################################################################".to_string(),
        "# after".to_string(),
    ];

    let block = find_alias_block (&lines);
    assert! (block.found);

    let new_block = vec!["# NEW BLOCK".to_string()];
    replace_alias_block (&mut lines, &block, &new_block);

    assert_eq! (lines[0], "# before");
    assert_eq! (lines[1], "# NEW BLOCK");
    assert_eq! (lines[2], "# after");
}

#[test]
fn append_block() {
    let mut lines = vec!["# existing".to_string()];
    let new_block = vec!["# block".to_string()];

    append_alias_block (&mut lines, &new_block);
    assert_eq! (lines.len(), 3); // existing + blank + block
    assert_eq! (lines[1], "");
    assert_eq! (lines[2], "# block");
}

#[test]
fn remove_block() {
    let mut lines = vec![
        "# before".to_string(),
        "################################################################################".to_string(),
        "#  RCDir Aliases -- Generated by rcdir v1.0".to_string(),
        "################################################################################".to_string(),
        "function d { rcdir @args }".to_string(),
        "################################################################################".to_string(),
        "#  End RCDir Aliases".to_string(),
        "################################################################################".to_string(),
        "# after".to_string(),
    ];

    let block = find_alias_block (&lines);
    remove_alias_block (&mut lines, &block);

    assert_eq! (lines.len(), 2);
    assert_eq! (lines[0], "# before");
    assert_eq! (lines[1], "# after");
}

#[test]
fn applying_a_block_replaces_or_appends() {
    let first = alias_block_generator::generate(&make_config("d", "rcdir", &[("dt", "--tree", "Tree view", true)]));
    let mut lines: Vec<String> = vec!["# my profile".to_string(), "Set-Location ~".to_string()];
    assert!(!profile_file_manager::apply_alias_block(&mut lines, &first));
    let b = find_alias_block(&lines);
    assert!(b.found);
    assert_eq!(b.alias_names, vec!["d", "dt"]);
    assert_eq!(lines[2], "");
    let second = alias_block_generator::generate(&make_config("tc", "rcdir", &[("tcw", "-w", "Wide format", true)]));
    assert!(profile_file_manager::apply_alias_block(&mut lines, &second));
    let b = find_alias_block(&lines);
    assert_eq!(b.root_alias, "tc");
    assert_eq!(b.alias_names, vec!["tc", "tcw"]);
    assert_eq!(lines.len(), 3 + second.len());
    assert!(profile_file_manager::strip_alias_block(&mut lines));
    assert_eq!(lines, vec!["# my profile", "Set-Location ~", ""]);
    assert!(!profile_file_manager::strip_alias_block(&mut lines));
    assert_eq!(lines, vec!["# my profile", "Set-Location ~", ""]);
}
