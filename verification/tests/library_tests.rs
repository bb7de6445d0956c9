use std::sync::Arc;

use rcdir::alias_block_generator::generate;
use rcdir::alias_manager::{
    alias_config_from_choices, build_profile_labels, default_root_alias, find_alias_conflict, removal_label, sub_alias_items,
};
use rcdir::alias_types::{AliasConfig, AliasDefinition, PowerShellVersion, ProfileLocation, ProfileScope};
use rcdir::color::{color_name_from_fg, parse_color_name, FC_LIGHT_RED};
use rcdir::command_line::CommandLine;
use rcdir::config::env_overrides::config_file_path;
use rcdir::config::file_reader::ConfigFileError;
use rcdir::config::style::{ensure_visible_color_attr, extension_key_of};
use rcdir::config::{Attribute, AttributeSource, Config, RCDIR_ENV_VAR_NAME};
use rcdir::console::Console;
use rcdir::directory_info::{accumulate_totals, DirectoryInfo};
use rcdir::directory_lister::{collect_entries, is_dots, passes_attribute_filter};
use rcdir::drive_info::{drive_root_of, DriveInfo, DRIVE_FIXED, DRIVE_REMOTE};
use rcdir::ehm::AppError;
use rcdir::environment_provider::{EnvironmentProvider, MockEnvironmentProvider, PresetEnvironmentProvider};
use rcdir::file_comparator::{apply_permutation, sort_files, NameCollator, Order};
use rcdir::file_info::{FileInfo, FILE_ATTRIBUTE_DIRECTORY, FILE_ATTRIBUTE_HIDDEN};
use rcdir::keyed::StrMap;
use rcdir::listing_totals::ListingTotals;
use rcdir::mask_grouper::{add_mask_to_groups, mask_matches};
use rcdir::nerd_font_detector::{resolve_icons, FontProber};
use rcdir::path_ellipsis::ellipsize_path;
use rcdir::profile_file_manager::{append_alias_block, find_alias_block, remove_alias_block, replace_alias_block};
use rcdir::profile_path_resolver::{rcdir_invocation_for, resolve_profile_paths, version_from_exe_name};
use rcdir::results_displayer::format_number_with_separators;

fn file(name: &str, attrs: u32, size: u64) -> FileInfo {
    FileInfo {
        file_name: name.to_string(),
        file_attributes: attrs,
        file_size: size,
        creation_time: 0,
        last_write_time: 0,
        last_access_time: 0,
        reparse_tag: 0,
        streams: Vec::new(),
    }
}

fn default_config() -> Config {
    let mut cfg = Config::new();
    cfg.initialize_with_provider(0x07, &MockEnvironmentProvider::new());
    cfg
}

struct CaseInsensitive;

impl NameCollator for CaseInsensitive {
    fn compare_names(&self, a: &str, b: &str) -> Order {
        match a.to_lowercase().cmp(&b.to_lowercase()) {
            std::cmp::Ordering::Less => Order::Less,
            std::cmp::Ordering::Equal => Order::Equal,
            std::cmp::Ordering::Greater => Order::Greater,
        }
    }
}

struct FixedProber(bool);

impl FontProber for FixedProber {
    fn probe_console_font_for_glyph(&self, _canary: char) -> Result<bool, AppError> {
        Ok(self.0)
    }

    fn is_nerd_font_installed(&self) -> Result<bool, AppError> {
        Ok(self.0)
    }
}

#[test]
fn color_names_parse_back_to_their_colors() {
    for v in 0u16..16 {
        let name = color_name_from_fg(v).unwrap();
        assert_eq!(parse_color_name(name, false).unwrap(), v);
        assert_eq!(parse_color_name(name, true).unwrap(), v * 16);
        assert_eq!(parse_color_name(&name.to_uppercase(), false).unwrap(), v);
    }
}

#[test]
fn unknown_color_name_is_an_invalid_argument() {
    let err = parse_color_name("Chartreuse", false).unwrap_err();
    assert!(matches!(err, AppError::InvalidArg(_)));
    assert_eq!(err.message(), "Invalid color name: Chartreuse");
}

#[test]
fn visible_color_separates_fore_and_back() {
    // Blue on blue becomes blue on light grey; bright red on bright red on black.
    assert_eq!(ensure_visible_color_attr(0x11, 0x07), 0x71);
    assert_eq!(ensure_visible_color_attr(0xCC, 0x07), 0x0C);
    // No background: the default one is used.
    assert_eq!(ensure_visible_color_attr(0x0E, 0x10), 0x1E);
    // Light grey on light grey gets a black background.
    assert_eq!(ensure_visible_color_attr(0x07, 0x70), 0x07);
    assert_eq!(ensure_visible_color_attr(0x77, 0x07), 0x07);
    for d in [0x07u16, 0x70, 0x1F] {
        for c in 0u16..256 {
            let r = ensure_visible_color_attr(c, d);
            assert_ne!((r & 0x0F) << 4, r & 0xF0, "color {:#x}", c);
        }
    }
}

#[test]
fn permutation_places_each_source_element() {
    let mut data = vec!["a", "b", "c", "d", "e"];
    let perm = vec![4, 0, 3, 1, 2];
    let old = data.clone();
    apply_permutation(&mut data, perm.clone());
    for i in 0..perm.len() {
        assert_eq!(data[i], old[perm[i]]);
    }
}

#[test]
fn sort_puts_directories_first_and_keeps_all_entries() {
    let cmd = CommandLine::default();
    let mut files = vec![
        file("zeta.txt", 0x20, 5),
        file("Beta", FILE_ATTRIBUTE_DIRECTORY, 0),
        file("alpha.txt", 0x20, 7),
        file("alpha", FILE_ATTRIBUTE_DIRECTORY, 0),
    ];
    sort_files(&mut files, &cmd, &CaseInsensitive);
    let names: Vec<&str> = files.iter().map(|f| f.file_name.as_str()).collect();
    assert_eq!(names, vec!["alpha", "Beta", "alpha.txt", "zeta.txt"]);
}

#[test]
fn sort_by_date_descending_uses_write_time() {
    let mut cmd = CommandLine::parse_from(&["/o:-d"]).unwrap();
    cmd.sort_preference[0] = rcdir::command_line::SortOrder::Date;
    let mut a = file("a", 0x20, 1);
    a.last_write_time = 10;
    let mut b = file("b", 0x20, 1);
    b.last_write_time = 30;
    let mut c = file("c", 0x20, 1);
    c.last_write_time = 20;
    let mut files = vec![a, b, c];
    sort_files(&mut files, &cmd, &CaseInsensitive);
    let names: Vec<&str> = files.iter().map(|f| f.file_name.as_str()).collect();
    assert_eq!(names, vec!["b", "c", "a"]);
}

#[test]
fn ellipsize_keeps_short_paths() {
    let p = r"C:\Users\me\Documents\Projects\rcdir";
    let r = ellipsize_path(p, 40);
    assert_eq!((r.prefix.as_str(), r.suffix.as_str(), r.truncated), (p, "", false));
    let r = ellipsize_path(r"a\b", 1);
    assert_eq!((r.prefix.as_str(), r.suffix.as_str(), r.truncated), (r"a\b", "", false));
}

#[test]
fn ellipsize_drops_middle_components() {
    let p = r"C:\Users\me\Documents\Projects\rcdir";
    let r = ellipsize_path(p, 25);
    assert_eq!((r.prefix.as_str(), r.suffix.as_str(), r.truncated), (r"C:\Users\", r"\Projects\rcdir", true));
    let r = ellipsize_path(p, 20);
    assert_eq!((r.prefix.as_str(), r.suffix.as_str(), r.truncated), (r"C:\Users\", r"\rcdir", true));
    let r = ellipsize_path(p, 12);
    assert_eq!((r.prefix.as_str(), r.suffix.as_str(), r.truncated), (r"C:\", r"\rcdir", true));
}

#[test]
fn ellipsize_falls_back_to_the_leaf() {
    let p = r"C:\Users\me\Documents\Projects\rcdir";
    let r = ellipsize_path(p, 6);
    assert_eq!((r.prefix.as_str(), r.suffix.as_str(), r.truncated), ("rcdir", "", false));
    let r = ellipsize_path(p, 4);
    assert_eq!((r.prefix.as_str(), r.suffix.as_str(), r.truncated), ("rcd", "", true));
    let r = ellipsize_path(p, 1);
    assert_eq!((r.prefix.as_str(), r.suffix.as_str(), r.truncated), ("", "", true));
}

#[test]
fn wildcard_masks_match_names() {
    assert!(mask_matches("main.rs", "*.rs"));
    assert!(mask_matches("MAIN.RS", "*.rs"));
    assert!(mask_matches("a.b.c", "*.c"));
    assert!(mask_matches("abc", "a?c"));
    assert!(!mask_matches("abbc", "a?c"));
    assert!(mask_matches("anything", "*"));
    assert!(mask_matches("", "*"));
    assert!(!mask_matches("main.rs", "*.toml"));
}

#[test]
fn masks_of_one_directory_share_a_group() {
    let mut groups: Vec<(String, Vec<String>)> = Vec::new();
    let mut index: Vec<(String, usize)> = Vec::new();
    add_mask_to_groups(r"C:\Src".to_string(), "*.rs".to_string(), &mut groups, &mut index);
    add_mask_to_groups(r"C:\Docs".to_string(), "*.md".to_string(), &mut groups, &mut index);
    add_mask_to_groups(r"c:\src\".to_string(), "*.toml".to_string(), &mut groups, &mut index);
    assert_eq!(groups.len(), 2);
    assert_eq!(groups[0].0, r"C:\Src");
    assert_eq!(groups[0].1, vec!["*.rs".to_string(), "*.toml".to_string()]);
    assert_eq!(groups[1].1, vec!["*.md".to_string()]);
    assert_eq!(index[0].0, r"c:\src\");
}

#[test]
fn dots_need_the_terminator() {
    assert!(is_dots(&[0x2E, 0]));
    assert!(is_dots(&[0x2E, 0x2E, 0]));
    assert!(!is_dots(&[0x2E, 0x2E, 0x2E, 0]));
    assert!(!is_dots(&[0]));
}

#[test]
fn numbers_get_thousands_separators() {
    assert_eq!(format_number_with_separators(0), "0");
    assert_eq!(format_number_with_separators(999), "999");
    assert_eq!(format_number_with_separators(1000), "1,000");
    assert_eq!(format_number_with_separators(1234567), "1,234,567");
    assert_eq!(format_number_with_separators(1000001), "1,000,001");
    assert_eq!(format_number_with_separators(u64::MAX), "18,446,744,073,709,551,615");
}

#[test]
fn generated_block_round_trips_through_find_replace_remove() {
    let cfg = AliasConfig {
        root_alias: "d".to_string(),
        rcdir_invocation: "rcdir".to_string(),
        sub_aliases: vec![
            AliasDefinition { name: "dt".to_string(), flags: "--tree".to_string(), description: "Tree view".to_string(), enabled: true },
            AliasDefinition { name: "dw".to_string(), flags: "-w".to_string(), description: "Wide format".to_string(), enabled: false },
        ],
        target_scope: ProfileScope::CurrentUserAllHosts,
        target_path: String::new(),
        session_only: false,
        what_if: false,
    };
    let block = generate(&cfg);
    assert!(block.contains(&"function d { rcdir @args }".to_string()));
    assert!(block.contains(&"function dt { d --tree @args }".to_string()));
    let mut lines = vec!["# mine".to_string(), "".to_string()];
    append_alias_block(&mut lines, &block);
    assert_eq!(lines.len(), 2 + block.len());
    lines.push("# after".to_string());
    let found = find_alias_block(&lines);
    assert!(found.found);
    assert_eq!(found.start_line, 2);
    assert_eq!(found.end_line, lines.len() - 2);
    assert_eq!(found.alias_names, vec!["d".to_string(), "dt".to_string()]);
    assert_eq!(found.version, rcdir::alias_block_generator::VERSION_STRING);
    let new_block = vec!["# replaced".to_string()];
    let mut replaced = lines.clone();
    replace_alias_block(&mut replaced, &found, &new_block);
    assert_eq!(replaced, vec!["# mine", "", "# replaced", "# after"]);
    remove_alias_block(&mut lines, &found);
    assert_eq!(lines, vec!["# mine", "", "# after"]);
    assert!(!find_alias_block(&lines).found);
}

#[test]
fn header_without_footer_is_not_a_block() {
    let lines = vec!["#".to_string(), "#  RCDir Aliases -- Generated by rcdir v2.0 ".to_string(), "function x { y }".to_string()];
    let b = find_alias_block(&lines);
    assert!(!b.found);
    assert_eq!(b.start_line, 0);
    assert_eq!(b.version, "2.0");
    assert!(b.alias_names.is_empty());
}

#[test]
fn removal_also_drops_following_blank_lines() {
    let mut lines: Vec<String> = ["a", "x", "y", "", "", "b"].iter().map(|s| s.to_string()).collect();
    let block = rcdir::alias_types::AliasBlock {
        start_line: 1,
        end_line: 2,
        root_alias: String::new(),
        alias_names: Vec::new(),
        function_lines: Vec::new(),
        version: String::new(),
        found: true,
    };
    remove_alias_block(&mut lines, &block);
    assert_eq!(lines, vec!["a", "b"]);
}

#[test]
fn append_adds_a_blank_line_only_after_text() {
    let mut lines = vec!["a".to_string(), "".to_string()];
    append_alias_block(&mut lines, &["b".to_string()]);
    assert_eq!(lines, vec!["a", "", "b"]);
    let mut empty: Vec<String> = Vec::new();
    append_alias_block(&mut empty, &["b".to_string()]);
    assert_eq!(empty, vec!["b"]);
}

#[test]
fn conflicts_ignore_case() {
    assert_eq!(find_alias_conflict("LS"), Some("Get-ChildItem"));
    assert_eq!(find_alias_conflict("Type"), Some("Get-Content"));
    assert_eq!(find_alias_conflict("d"), None);
}

#[test]
fn profile_labels_are_padded_and_marked() {
    let locs = vec![
        ProfileLocation {
            scope: ProfileScope::CurrentUserCurrentHost,
            variable_name: "$PROFILE.CurrentUserCurrentHost".to_string(),
            resolved_path: "p0".to_string(),
            exists: true,
            requires_admin: false,
            has_alias_block: false,
        },
        ProfileLocation {
            scope: ProfileScope::CurrentUserAllHosts,
            variable_name: "$PROFILE.CurrentUserAllHosts".to_string(),
            resolved_path: "p1".to_string(),
            exists: true,
            requires_admin: true,
            has_alias_block: true,
        },
        ProfileLocation {
            scope: ProfileScope::AllUsersAllHosts,
            variable_name: "$PROFILE.AllUsersAllHosts".to_string(),
            resolved_path: "p3".to_string(),
            exists: false,
            requires_admin: true,
            has_alias_block: false,
        },
    ];
    let (labels, default_idx) = build_profile_labels(&locs, 80);
    assert_eq!(labels.len(), 4);
    assert_eq!(labels[0], "$PROFILE.CurrentUserCurrentHost  (p0)");
    assert_eq!(labels[1], "$PROFILE.CurrentUserAllHosts     (p1) [has aliases]");
    assert_eq!(labels[2], "$PROFILE.AllUsersAllHosts        (p3) (requires admin)");
    assert_eq!(labels[3], "Current session only             (not persisted)");
    assert_eq!(default_idx, 1);
}

#[test]
fn profile_paths_follow_the_edition() {
    let locs = resolve_profile_paths(PowerShellVersion::PowerShell, r"C:\Users\me\Documents", r"C:\Program Files\PowerShell\7", false, [true, false, false, true]).unwrap();
    assert_eq!(locs.len(), 4);
    assert_eq!(locs[0].resolved_path, r"C:\Users\me\Documents\PowerShell\Microsoft.PowerShell_profile.ps1");
    assert_eq!(locs[1].resolved_path, r"C:\Users\me\Documents\PowerShell\profile.ps1");
    assert_eq!(locs[1].variable_name, "$PROFILE.CurrentUserAllHosts");
    assert_eq!(locs[3].resolved_path, r"C:\Program Files\PowerShell\7\profile.ps1");
    assert!(locs[0].exists && !locs[1].exists && locs[3].exists);
    assert!(locs[2].requires_admin && !locs[0].requires_admin);
    let w = resolve_profile_paths(PowerShellVersion::WindowsPowerShell, r"D:\Docs\", r"C:\ps", true, [false; 4]).unwrap();
    assert_eq!(w[1].resolved_path, r"D:\Docs\WindowsPowerShell\profile.ps1");
    assert!(!w[2].requires_admin);
    let err = resolve_profile_paths(PowerShellVersion::Unknown, "a", "b", true, [false; 4]).unwrap_err();
    assert_eq!(err.message(), "Cannot resolve profile paths for unknown PowerShell version.");
}

#[test]
fn edition_comes_from_the_executable_name() {
    assert_eq!(version_from_exe_name("PWSH.EXE"), PowerShellVersion::PowerShell);
    assert_eq!(version_from_exe_name("powershell.exe"), PowerShellVersion::WindowsPowerShell);
    assert_eq!(version_from_exe_name("cmd.exe"), PowerShellVersion::Unknown);
}

#[test]
fn drive_descriptions_and_file_systems() {
    let mut d = DriveInfo {
        unc_path: String::new(),
        root_path: r"C:\".to_string(),
        volume_name: String::new(),
        file_system_name: "ntfs".to_string(),
        volume_type: DRIVE_FIXED,
        is_unc_path: false,
        remote_name: String::new(),
    };
    assert_eq!(d.volume_description(), "a hard drive");
    assert!(d.is_ntfs() && !d.is_refs());
    d.volume_type = DRIVE_REMOTE;
    assert_eq!(d.volume_description(), "a network drive");
    d.volume_type = 99;
    assert_eq!(d.volume_description(), "an unknown type");
    assert_eq!(drive_root_of(r"d:\work"), Some(r"d:\".to_string()));
    assert_eq!(drive_root_of(r"\\server\share"), None);
}

#[test]
fn console_switches_colors_around_line_breaks() {
    let mut con = Console::new(Arc::new(default_config()), 100);
    con.printf(0x0C, "a\nb");
    assert_eq!(con.take_output(), "\x1b[91;40ma\x1b[37;40m\n\x1b[91;40mb");
    con.printf(0x0C, "c");
    con.printf(0x0C, "d");
    assert_eq!(con.take_output(), "\x1b[91;40mcd");
    assert_eq!(con.width(), 100);
}

#[test]
fn console_markers_pick_item_colors() {
    let cfg = default_config();
    assert_eq!(cfg.attributes[Attribute::Error as usize], FC_LIGHT_RED);
    let mut con = Console::new(Arc::new(cfg), 80);
    con.color_printf("{Error}x{Bogus}");
    assert_eq!(con.take_output(), "\x1b[37;40m\x1b[91;40mx{Bogus}");
    con.color_puts("{Unclosed");
    assert_eq!(con.take_output(), "\x1b[37;40m{Unclosed\n");
}

#[test]
fn colorful_string_skips_the_background_color() {
    let mut con = Console::new(Arc::new(default_config()), 80);
    con.print_colorful_string("ab");
    // Black (the background) is skipped: 'a' is blue, 'b' green.
    assert_eq!(con.take_output(), "\x1b[34;40ma\x1b[32;40mb");
}

#[test]
fn icons_follow_command_line_then_config_then_detection() {
    let cfg = default_config();
    let env = MockEnvironmentProvider::new();
    let mut cmd = CommandLine::default();
    cmd.icons = Some(false);
    assert!(!resolve_icons(&cmd, &cfg, &env, Some(&FixedProber(true))));
    cmd.icons = None;
    assert!(resolve_icons(&cmd, &cfg, &env, Some(&FixedProber(true))));
    assert!(!resolve_icons(&cmd, &cfg, &env, None::<&FixedProber>));
    let mut cfg2 = default_config();
    cfg2.icons = Some(true);
    assert!(resolve_icons(&cmd, &cfg2, &env, None::<&FixedProber>));
    let mut wez = MockEnvironmentProvider::new();
    wez.set("TERM_PROGRAM", "WezTerm");
    assert!(resolve_icons(&cmd, &cfg, &wez, Some(&FixedProber(false))));
}

#[test]
fn config_file_is_read_from_the_user_profile() {
    let mut env = PresetEnvironmentProvider::new();
    env.set("USERPROFILE", r"C:\Users\me");
    env.set(RCDIR_ENV_VAR_NAME, ".h=Yellow");
    let path = config_file_path(r"C:\Users\me");
    assert_eq!(path, r"C:\Users\me\.rcdirconfig");
    env.set_config_file(path.clone(), Ok(vec!["# colors".to_string(), ".cpp = Red".to_string(), ".h = Blue".to_string(), "Bogus=Nope".to_string()]));
    let mut cfg = Config::new();
    cfg.initialize_with_provider(0x07, &env);
    assert!(cfg.is_config_file_loaded());
    assert_eq!(cfg.config_file_path, path);
    assert_eq!(cfg.extension_colors.get(".cpp"), Some(&0x04));
    assert_eq!(cfg.extension_sources.get(".cpp"), Some(&AttributeSource::ConfigFile));
    assert_eq!(cfg.extension_colors.get(".h"), Some(&0x0E));
    assert_eq!(cfg.extension_sources.get(".h"), Some(&AttributeSource::Environment));
    let issues = cfg.validate_config_file();
    assert_eq!(issues.errors.len(), 1);
    assert_eq!(issues.errors[0].line_number, 4);
    assert_eq!(issues.errors[0].source_file_path, path);
}

#[test]
fn unreadable_config_file_is_reported() {
    let mut env = PresetEnvironmentProvider::new();
    env.set("USERPROFILE", "u");
    env.set_config_file(config_file_path("u"), Err(ConfigFileError::EncodingError("bad".to_string())));
    assert_eq!(env.get_env_var("USERPROFILE"), Some("u".to_string()));
    let mut cfg = Config::new();
    cfg.initialize_with_provider(0x07, &env);
    assert!(!cfg.is_config_file_loaded());
    assert_eq!(cfg.validate_config_file().errors.len(), 1);
    assert_eq!(cfg.validate_config_file().errors[0].message, "bad");
}

#[test]
fn entries_are_filtered_and_counted() {
    let mut cmd = CommandLine::default();
    cmd.attrs_excluded = FILE_ATTRIBUTE_HIDDEN;
    cmd.wide_listing = true;
    let entries = vec![
        (file(".", FILE_ATTRIBUTE_DIRECTORY, 0), 1),
        (file("..", FILE_ATTRIBUTE_DIRECTORY, 0), 2),
        (file("src", FILE_ATTRIBUTE_DIRECTORY, 0), 3),
        (file("big.bin", 0x20, 5000), 7),
        (file(".secret", FILE_ATTRIBUTE_HIDDEN, 10), 7),
        (file("a", 0x20, 12), 1),
    ];
    let mut di = DirectoryInfo::new("dir".to_string(), "*".to_string());
    let mut totals = ListingTotals::new();
    collect_entries(entries, &mut di, &cmd, &mut totals);
    let names: Vec<&str> = di.matches.iter().map(|f| f.file_name.as_str()).collect();
    assert_eq!(names, vec!["src", "big.bin", "a"]);
    assert_eq!(di.subdirectory_count, 1);
    assert_eq!(di.file_count, 2);
    assert_eq!(di.bytes_used, 5012);
    assert_eq!(di.largest_file_size, 5000);
    assert_eq!(di.largest_file_name, 7);
    assert_eq!(totals.file_count, 2);
    assert_eq!(totals.file_bytes, 5012);
    let mut sum = ListingTotals::new();
    accumulate_totals(&di, &mut sum);
    assert_eq!(sum.directory_count, 1);
    assert_eq!(sum.file_bytes, 5012);
    assert!(passes_attribute_filter(0x21, 0x01, 0x02));
    assert!(!passes_attribute_filter(0x20, 0x01, 0x02));
}

#[test]
fn extension_keys_are_lowercase_with_dot() {
    assert_eq!(extension_key_of("Main.CPP"), Some(".cpp".to_string()));
    assert_eq!(extension_key_of("archive.tar.GZ"), Some(".gz".to_string()));
    assert_eq!(extension_key_of(".bashrc"), None);
    assert_eq!(extension_key_of("README"), None);
    assert_eq!(extension_key_of(".."), None);
}

#[test]
fn string_map_keeps_the_last_value() {
    let mut m: StrMap<u16> = StrMap::new();
    m.insert("a".to_string(), 1);
    m.insert("b".to_string(), 2);
    m.insert("a".to_string(), 3);
    assert_eq!(m.get("a"), Some(&3));
    assert_eq!(m.get("b"), Some(&2));
    assert_eq!(m.get("c"), None);
    assert_eq!(m.len(), 2);
}

#[test]
fn every_attribute_name_parses_back() {
    for a in Attribute::ALL.iter() {
        assert_eq!(Attribute::from_name(a.name()), Some(*a));
    }
}

#[test]
fn split_masks_are_grouped_in_order() {
    let groups = rcdir::mask_grouper::group_split_masks("cwd".to_string(), Vec::new());
    assert_eq!(groups, vec![("cwd".to_string(), vec!["*".to_string()])]);
    let splits = vec![
        ("A".to_string(), "*.rs".to_string()),
        ("B".to_string(), "*.md".to_string()),
        ("a".to_string(), "x".to_string()),
    ];
    let groups = rcdir::mask_grouper::group_split_masks("cwd".to_string(), splits);
    assert_eq!(groups.len(), 2);
    assert_eq!(groups[0], ("A".to_string(), vec!["*.rs".to_string(), "x".to_string()]));
    assert_eq!(groups[1], ("B".to_string(), vec!["*.md".to_string()]));
}

fn block_with_root(root: &str, names: &[&str]) -> rcdir::alias_types::AliasBlock {
    rcdir::alias_types::AliasBlock {
        start_line: 0,
        end_line: 0,
        root_alias: root.to_string(),
        alias_names: names.iter().map(|n| n.to_string()).collect(),
        function_lines: Vec::new(),
        version: "1.0.0".to_string(),
        found: true,
    }
}

#[test]
fn default_root_comes_from_the_existing_block() {
    assert_eq!(default_root_alias(None), "d");
    let b = block_with_root("tc", &["tc", "tct"]);
    assert_eq!(default_root_alias(Some(&b)), "tc");
}

#[test]
fn sub_alias_items_label_lock_and_keep_choices() {
    let b = block_with_root("c", &["c", "ct", "cs"]);
    let (items, locked) = sub_alias_items("c", Some(&b));
    assert_eq!(items.len(), 5);
    assert_eq!(items[0].0, "ct  = c --tree  (Tree view)");
    assert_eq!(items[4].0, "csb = c -s -b   (Recursive bare)");
    assert_eq!(locked, vec![false, false, true, false, false]);
    let checked: Vec<bool> = items.iter().map(|i| i.1).collect();
    assert_eq!(checked, vec![true, false, false, true, false]);
}

#[test]
fn sub_alias_items_default_to_checked_for_a_new_root() {
    let b = block_with_root("x", &["x"]);
    let (items, locked) = sub_alias_items("d", Some(&b));
    assert_eq!(locked, vec![false; 5]);
    assert!(items.iter().all(|i| i.1));
    assert_eq!(items[1].0, "dw  = d -w      (Wide format)");
    let (none_items, _) = sub_alias_items("d", None);
    assert!(none_items.iter().all(|i| i.1));
}

#[test]
fn choices_become_an_alias_config() {
    let checked = [true, false, true, false, true];
    let cfg = alias_config_from_choices("tc", "rcdir".to_string(), &checked, ProfileScope::AllUsersAllHosts, "p".to_string(), false, true);
    assert_eq!(cfg.root_alias, "tc");
    assert_eq!(cfg.sub_aliases.len(), 5);
    assert_eq!(cfg.sub_aliases[4].name, "tcsb");
    assert_eq!(cfg.sub_aliases[4].flags, "-s -b");
    assert!(!cfg.sub_aliases[1].enabled);
    assert_eq!(cfg.target_scope, ProfileScope::AllUsersAllHosts);
    assert_eq!(cfg.target_path, "p");
    assert!(cfg.what_if);
    let session = alias_config_from_choices("tc", "rcdir".to_string(), &checked, ProfileScope::AllUsersAllHosts, "p".to_string(), true, false);
    assert_eq!(session.target_scope, ProfileScope::CurrentUserAllHosts);
    assert_eq!(session.target_path, "");
    assert!(session.session_only);
}

#[test]
fn removal_label_lists_found_aliases() {
    let names = vec!["d".to_string(), "dt".to_string(), "dw".to_string()];
    assert_eq!(removal_label("$PROFILE.CurrentUserAllHosts", "p1", &names), "$PROFILE.CurrentUserAllHosts (p1)\n        Found aliases: d, dt, dw");
    assert_eq!(removal_label("v", "p", &Vec::new()), "v (p)\n        Found aliases: ");
}

#[test]
fn invocation_is_bare_name_when_found_on_path() {
    assert_eq!(rcdir_invocation_for(r"C:\Tools\rcdir.exe", Some(r"c:\tools\RCDIR.EXE")), "rcdir");
    assert_eq!(rcdir_invocation_for(r"C:\Tools\rcdir.exe", Some(r"C:\Other\rcdir.exe")), r"C:\Tools\rcdir.exe");
    assert_eq!(rcdir_invocation_for(r"C:\My Tools\rcdir.exe", None), r#"& "C:\My Tools\rcdir.exe""#);
    assert_eq!(rcdir_invocation_for(r"C:\Tools\rcdir.exe", None), r"C:\Tools\rcdir.exe");
}

#[test]
fn ellipsize_counts_characters() {
    let r = ellipsize_path(r"C:\a\b\éé", 2);
    assert_eq!((r.prefix.as_str(), r.suffix.as_str(), r.truncated), ("éé", "", false));
    let r = ellipsize_path(r"C:\a\b\ééé", 3);
    assert_eq!((r.prefix.as_str(), r.suffix.as_str(), r.truncated), ("ééé", "", false));
    let r = ellipsize_path(r"C:\a\b\éééé", 3);
    assert_eq!((r.prefix.as_str(), r.suffix.as_str(), r.truncated), ("éé", "", true));
    let r = ellipsize_path(r"C:\é\ü", 6);
    assert_eq!((r.prefix.as_str(), r.suffix.as_str(), r.truncated), (r"C:\é\ü", "", false));
}
