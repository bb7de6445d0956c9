use rcdir::command_line::CommandLine;
use rcdir::command_line::SizeFormat;
use rcdir::command_line::SortDirection;
use rcdir::command_line::SortOrder;
use rcdir::command_line::TimeField;
use rcdir::config::Config;
use rcdir::file_info::FILE_ATTRIBUTE_DIRECTORY;
use rcdir::file_info::FILE_ATTRIBUTE_HIDDEN;



#[test]
fn default_values() {
    let cmd = CommandLine::default();
    assert!(!cmd.recurse);
    assert!(!cmd.wide_listing);
    assert!(!cmd.bare_listing);
    assert!(!cmd.perf_timer);
    assert!(cmd.multi_threaded);
    assert!(!cmd.show_help);
    assert_eq!(cmd.sort_order, SortOrder::Default);
    assert_eq!(cmd.sort_direction, SortDirection::Ascending);
    assert_eq!(cmd.time_field, TimeField::Written);
    assert_eq!(cmd.switch_prefix, '-');
}

#[test]
fn parse_slash_switches() {
    let cmd = CommandLine::parse_from(&["/s", "/w", "/p"]).unwrap();
    assert!(cmd.recurse);
    assert!(cmd.wide_listing);
    assert!(cmd.perf_timer);
    assert_eq!(cmd.switch_prefix, '/');
}

#[test]
fn parse_dash_switches() {
    let cmd = CommandLine::parse_from(&["-s", "-b"]).unwrap();
    assert!(cmd.recurse);
    assert!(cmd.bare_listing);
    assert_eq!(cmd.switch_prefix, '-');
}

#[test]
fn parse_disable_with_trailing_dash() {
    let cmd = CommandLine::parse_from(&["/m-"]).unwrap();
    assert!(!cmd.multi_threaded);
}

#[test]
fn parse_help() {
    let cmd = CommandLine::parse_from(&["/?"]).unwrap();
    assert!(cmd.show_help);
}

#[test]
fn parse_sort_name() {
    let cmd = CommandLine::parse_from(&["/on"]).unwrap();
    assert_eq!(cmd.sort_order, SortOrder::Name);
    assert_eq!(cmd.sort_direction, SortDirection::Ascending);
}

#[test]
fn parse_sort_with_colon() {
    let cmd = CommandLine::parse_from(&["/o:s"]).unwrap();
    assert_eq!(cmd.sort_order, SortOrder::Size);
}

#[test]
fn parse_sort_descending() {
    let cmd = CommandLine::parse_from(&["/o:-d"]).unwrap();
    assert_eq!(cmd.sort_order, SortOrder::Date);
    assert_eq!(cmd.sort_direction, SortDirection::Descending);
}

#[test]
fn parse_sort_case_insensitive() {
    let cmd = CommandLine::parse_from(&["/O:E"]).unwrap();
    assert_eq!(cmd.sort_order, SortOrder::Extension);
}

#[test]
fn parse_sort_empty_errors() {
    assert!(CommandLine::parse_from(&["/o"]).is_err());
    assert!(CommandLine::parse_from(&["/o:"]).is_err());
}

#[test]
fn parse_sort_trailing_chars_error() {
    assert!(CommandLine::parse_from(&["/o:d-"]).is_err());
    assert!(CommandLine::parse_from(&["/o:nx"]).is_err());
}

#[test]
fn parse_attrs_required() {
    let cmd = CommandLine::parse_from(&["/a:d"]).unwrap();
    assert_ne!(cmd.attrs_required & 0x10, 0); // FILE_ATTRIBUTE_DIRECTORY = 0x10
}

#[test]
fn parse_attrs_excluded() {
    let cmd = CommandLine::parse_from(&["/a:-h"]).unwrap();
    assert_ne!(cmd.attrs_excluded & 0x02, 0); // FILE_ATTRIBUTE_HIDDEN = 0x02
}

#[test]
fn parse_attrs_mixed() {
    // /a:h-ds → require H, exclude D, require S
    let cmd = CommandLine::parse_from(&["/a:h-ds"]).unwrap();
    assert_ne!(cmd.attrs_required & 0x02, 0); // H required
    assert_ne!(cmd.attrs_excluded & 0x10, 0);  // D excluded
    assert_ne!(cmd.attrs_required & 0x04, 0); // S required
}

#[test]
fn parse_attrs_double_dash_error() {
    assert!(CommandLine::parse_from(&["/a:--d"]).is_err());
}

#[test]
fn parse_time_creation() {
    let cmd = CommandLine::parse_from(&["/t:c"]).unwrap();
    assert_eq!(cmd.time_field, TimeField::Creation);
}

#[test]
fn parse_time_access() {
    let cmd = CommandLine::parse_from(&["/t:a"]).unwrap();
    assert_eq!(cmd.time_field, TimeField::Access);
}

#[test]
fn parse_time_no_colon() {
    let cmd = CommandLine::parse_from(&["/tw"]).unwrap();
    assert_eq!(cmd.time_field, TimeField::Written);
}

#[test]
fn parse_long_switch_env_double_dash() {
    let cmd = CommandLine::parse_from(&["--env"]).unwrap();
    assert!(cmd.show_env_help);
}

#[test]
fn parse_long_switch_env_slash() {
    let cmd = CommandLine::parse_from(&["/env"]).unwrap();
    assert!(cmd.show_env_help);
}

#[test]
fn parse_long_switch_single_dash_error() {
    // -env (single dash + long) should produce descriptive error
    let err = CommandLine::parse_from(&["-env"]).unwrap_err();
    assert_eq!(err.message(), "Unknown switch: -env.  Did you mean --env?");

    // Unrecognized long switch with single dash
    let err = CommandLine::parse_from(&["-notaswitch"]).unwrap_err();
    assert_eq!(err.message(), "Unknown switch: -notaswitch.");

    // Single-dash with '=' separator — strips = for lookup
    let err = CommandLine::parse_from(&["-icons=true"]).unwrap_err();
    assert!(err.message().contains("Did you mean"));
}

#[test]
fn parse_long_switch_config() {
    let cmd = CommandLine::parse_from(&["/config"]).unwrap();
    assert!(cmd.show_config);
}

#[test]
fn parse_long_switch_owner() {
    let cmd = CommandLine::parse_from(&["--owner"]).unwrap();
    assert!(cmd.show_owner);
}

#[test]
fn parse_long_switch_streams() {
    let cmd = CommandLine::parse_from(&["/streams"]).unwrap();
    assert!(cmd.show_streams);
}

#[test]
fn parse_long_switch_case_insensitive() {
    let cmd = CommandLine::parse_from(&["/ENV"]).unwrap();
    assert!(cmd.show_env_help);

    let cmd2 = CommandLine::parse_from(&["--Owner"]).unwrap();
    assert!(cmd2.show_owner);
}

#[test]
fn parse_masks() {
    let cmd = CommandLine::parse_from(&["*.rs", "*.toml"]).unwrap();
    assert_eq!(cmd.masks.len(), 2);
    assert_eq!(cmd.masks[0], "*.rs");
    assert_eq!(cmd.masks[1], "*.toml");
}

#[test]
fn parse_mixed_masks_and_switches() {
    let cmd = CommandLine::parse_from(&["*.rs", "/s", "*.toml", "/o:n"]).unwrap();
    assert_eq!(cmd.masks.len(), 2);
    assert!(cmd.recurse);
    assert_eq!(cmd.sort_order, SortOrder::Name);
}

#[test]
fn apply_config_defaults() {
    let mut cmd = CommandLine::default();
    let mut config = Config::new();
    config.wide_listing = Some(true);
    config.perf_timer = Some(true);
    config.multi_threaded = Some(false);

    cmd.apply_config_defaults(&config);

    assert!(cmd.wide_listing);
    assert!(cmd.perf_timer);
    assert!(!cmd.multi_threaded);
}

#[test]
fn switch_prefix_tracks_last_used() {
    let cmd = CommandLine::parse_from(&["-s", "/w"]).unwrap();
    assert_eq!(cmd.switch_prefix, '/');

    let cmd2 = CommandLine::parse_from(&["/s", "-w"]).unwrap();
    assert_eq!(cmd2.switch_prefix, '-');
}

#[test]
fn sort_preference_default() {
    let cmd = CommandLine::default();
    assert_eq!(cmd.sort_preference[0], SortOrder::Default);
    assert_eq!(cmd.sort_preference[1], SortOrder::Name);
    assert_eq!(cmd.sort_preference[2], SortOrder::Date);
    assert_eq!(cmd.sort_preference[3], SortOrder::Extension);
    assert_eq!(cmd.sort_preference[4], SortOrder::Size);
}

#[test]
fn sort_preference_updated_on_sort() {
    let cmd = CommandLine::parse_from(&["/o:s"]).unwrap();
    assert_eq!(cmd.sort_preference[0], SortOrder::Size);
    // Rest of chain unchanged
    assert_eq!(cmd.sort_preference[1], SortOrder::Name);
}

#[test]
fn parse_tree_switch_double_dash () {
    let cmd = CommandLine::parse_from(&["--Tree"]).unwrap();
    assert_eq! (cmd.tree, Some (true));
}

#[test]
fn parse_tree_switch_slash () {
    let cmd = CommandLine::parse_from(&["/Tree"]).unwrap();
    assert_eq! (cmd.tree, Some (true));
}

#[test]
fn parse_tree_disable_switch_double_dash () {
    let cmd = CommandLine::parse_from(&["--Tree-"]).unwrap();
    assert_eq! (cmd.tree, Some (false));
}

#[test]
fn parse_tree_switch_case_insensitive () {
    let cmd = CommandLine::parse_from(&["--tree"]).unwrap();
    assert_eq! (cmd.tree, Some (true));

    let cmd2 = CommandLine::parse_from(&["--TREE"]).unwrap();
    assert_eq! (cmd2.tree, Some (true));
}

#[test]
fn parse_alias_switches () {
    let cmd = CommandLine::parse_from(&["--set-aliases"]).unwrap();
    assert! (cmd.set_aliases);
    assert! (!cmd.get_aliases);
    assert! (!cmd.remove_aliases);

    let cmd = CommandLine::parse_from(&["--get-aliases"]).unwrap();
    assert! (cmd.get_aliases);
    assert! (!cmd.set_aliases);

    let cmd = CommandLine::parse_from(&["--remove-aliases"]).unwrap();
    assert! (cmd.remove_aliases);
    assert! (!cmd.set_aliases);
}

#[test]
fn parse_whatif_with_alias_switch () {
    let cmd = CommandLine::parse_from(&["--set-aliases", "--whatif"]).unwrap();
    assert! (cmd.set_aliases);
    assert! (cmd.what_if);

    let cmd = CommandLine::parse_from(&["--remove-aliases", "--whatif"]).unwrap();
    assert! (cmd.remove_aliases);
    assert! (cmd.what_if);
}

#[test]
fn alias_switches_mutually_exclusive () {
    assert! (CommandLine::parse_from(&["--set-aliases", "--get-aliases"]).is_err());
    assert! (CommandLine::parse_from(&["--set-aliases", "--remove-aliases"]).is_err());
    assert! (CommandLine::parse_from(&["--get-aliases", "--remove-aliases"]).is_err());
}

#[test]
fn whatif_without_alias_switch_errors () {
    assert! (CommandLine::parse_from(&["--whatif"]).is_err());
}

#[test]
fn alias_switches_reject_listing_switches () {
    assert! (CommandLine::parse_from(&["--set-aliases", "/w"]).is_err());
    assert! (CommandLine::parse_from(&["--get-aliases", "/s"]).is_err());
    assert! (CommandLine::parse_from(&["--remove-aliases", "--tree"]).is_err());
}

#[test]
fn parse_tree_switch_single_dash_fails () {
    let err = CommandLine::parse_from(&["-tree"]).unwrap_err();
    assert! (err.message().contains ("Did you mean"));
}

#[test]
fn parse_depth_single_dash_fails () {
    let err = CommandLine::parse_from(&["-depth=5"]).unwrap_err();
    assert! (err.message().contains ("Did you mean"));
}

#[test]
fn parse_depth_with_equals () {
    let cmd = CommandLine::parse_from(&["--Tree", "--Depth=5"]).unwrap();
    assert_eq! (cmd.max_depth, 5);
}

#[test]
fn parse_depth_with_space () {
    let cmd = CommandLine::parse_from(&["--Tree", "--Depth", "5"]).unwrap();
    assert_eq! (cmd.max_depth, 5);
}

#[test]
fn parse_tree_indent_with_equals () {
    let cmd = CommandLine::parse_from(&["--Tree", "--TreeIndent=2"]).unwrap();
    assert_eq! (cmd.tree_indent, 2);
}

#[test]
fn parse_tree_with_wide_fails () {
    assert! (CommandLine::parse_from(&["--Tree", "/w"]).is_err());
}

#[test]
fn parse_tree_with_bare_fails () {
    assert! (CommandLine::parse_from(&["--Tree", "/b"]).is_err());
}

#[test]
fn parse_tree_with_recurse_fails () {
    assert! (CommandLine::parse_from(&["--Tree", "/s"]).is_err());
}

#[test]
fn parse_tree_with_owner_fails () {
    assert! (CommandLine::parse_from(&["--Tree", "--owner"]).is_err());
}

#[test]
fn parse_depth_without_tree_fails () {
    assert! (CommandLine::parse_from(&["--Depth=5"]).is_err());
}

#[test]
fn parse_tree_indent_without_tree_fails () {
    assert! (CommandLine::parse_from(&["--TreeIndent=2"]).is_err());
}

#[test]
fn parse_tree_indent_out_of_range_fails () {
    assert! (CommandLine::parse_from(&["--Tree", "--TreeIndent=10"]).is_err());
    assert! (CommandLine::parse_from(&["--Tree", "--TreeIndent=0"]).is_err());
}

#[test]
fn parse_depth_zero_fails () {
    assert! (CommandLine::parse_from(&["--Tree", "--Depth=0"]).is_err());
}

#[test]
fn parse_depth_negative_fails () {
    assert! (CommandLine::parse_from(&["--Tree", "--Depth=-1"]).is_err());
}

#[test]
fn parse_tree_with_owner_fails_even_with_icons () {
    assert! (CommandLine::parse_from(&["--Tree", "--owner", "--icons"]).is_err());
}

#[test]
fn parse_tree_with_depth_and_indent_succeeds () {
    let cmd = CommandLine::parse_from(&["--Tree", "--Depth=3", "--TreeIndent=6"]).unwrap();
    assert_eq! (cmd.tree, Some (true));
    assert_eq! (cmd.max_depth, 3);
    assert_eq! (cmd.tree_indent, 6);
}

#[test]
fn apply_config_defaults_tree_transfers () {
    let mut cmd = CommandLine::default();
    let mut config = Config::new();
    config.tree = Some (true);

    cmd.apply_config_defaults (&config);

    assert_eq! (cmd.tree, Some (true));
}

#[test]
fn apply_config_defaults_tree_with_depth_transfers () {
    let mut cmd = CommandLine::default();
    let mut config = Config::new();
    config.tree      = Some (true);
    config.max_depth  = Some (5);

    cmd.apply_config_defaults (&config);

    assert_eq! (cmd.tree, Some (true));
    assert_eq! (cmd.max_depth, 5);
}

#[test]
fn apply_config_defaults_depth_without_tree_silently_ignored () {
    let mut cmd = CommandLine::default();
    let mut config = Config::new();
    config.max_depth = Some (5);

    cmd.apply_config_defaults (&config);

    assert_eq! (cmd.max_depth, 0);
}

#[test]
fn cli_tree_disable_overrides_env_var_tree () {
    let mut cmd = CommandLine::parse_from(&["--Tree-"]).unwrap();
    let mut config = Config::new();
    config.tree = Some (true);

    cmd.apply_config_defaults (&config);

    assert_eq! (cmd.tree, Some (false));
}

#[test]
fn cli_depth_overrides_env_var_depth () {
    let mut cmd = CommandLine::parse_from(&["--Tree", "--Depth=3"]).unwrap();
    let mut config = Config::new();
    config.max_depth = Some (10);

    cmd.apply_config_defaults (&config);

    assert_eq! (cmd.max_depth, 3);
}

#[test]
fn parse_size_default_resolves_to_bytes_without_tree () {
    let cmd = CommandLine::default();
    assert_eq! (cmd.resolved_size_format(), SizeFormat::Bytes);
}

#[test]
fn parse_size_bytes_without_tree () {
    let cmd = CommandLine::parse_from(&["--Size=Bytes"]).unwrap();
    assert_eq! (cmd.size_format, SizeFormat::Bytes);
}

#[test]
fn parse_size_auto_without_tree () {
    let cmd = CommandLine::parse_from(&["--Size=Auto"]).unwrap();
    assert_eq! (cmd.size_format, SizeFormat::Auto);
}

#[test]
fn parse_size_invalid_fails () {
    assert! (CommandLine::parse_from(&["--Size=Invalid"]).is_err());
}

#[test]
fn parse_size_case_insensitive () {
    let cmd = CommandLine::parse_from(&["--Size=auto"]).unwrap();
    assert_eq! (cmd.size_format, SizeFormat::Auto);

    let cmd2 = CommandLine::parse_from(&["--Size=BYTES"]).unwrap();
    assert_eq! (cmd2.size_format, SizeFormat::Bytes);
}

#[test]
fn parse_size_auto_with_tree () {
    let cmd = CommandLine::parse_from(&["--Tree", "--Size=Auto"]).unwrap();
    assert_eq! (cmd.size_format, SizeFormat::Auto);
    assert_eq! (cmd.tree, Some (true));
}

#[test]
fn parse_size_bytes_with_tree_fails () {
    assert! (CommandLine::parse_from(&["--Tree", "--Size=Bytes"]).is_err());
}

#[test]
fn parse_size_default_resolves_to_auto_with_tree () {
    let cmd = CommandLine::parse_from(&["--Tree"]).unwrap();
    assert_eq! (cmd.resolved_size_format(), SizeFormat::Auto);
}

#[test]
fn apply_config_defaults_size_auto_transfers () {
    let mut cmd = CommandLine::default();
    let mut config = Config::new();
    config.size_format = Some (SizeFormat::Auto);

    cmd.apply_config_defaults (&config);

    assert_eq! (cmd.size_format, SizeFormat::Auto);
}

#[test]
fn apply_config_defaults_size_bytes_not_overridden_by_cli () {
    let mut cmd = CommandLine::parse_from(&["--Size=Bytes"]).unwrap();
    let mut config = Config::new();
    config.size_format = Some (SizeFormat::Auto);

    cmd.apply_config_defaults (&config);

    assert_eq! (cmd.size_format, SizeFormat::Bytes);
}

#[test]
fn parse_long_switch_settings_double_dash () {
    let cmd = CommandLine::parse_from(&["--settings"]).unwrap();
    assert! (cmd.show_settings);
}

#[test]
fn alias_switch_rejects_settings () {
    let result = CommandLine::parse_from(&["--set-aliases", "--settings"]);
    assert! (result.is_err());
}

#[test]
fn command_line_switches_win_over_config_defaults() {
    let mut cmd = CommandLine::parse_from(&["/w-", "--owner", "/m-"]).unwrap();
    let mut config = Config::new();
    config.wide_listing = Some(true);
    config.show_owner = Some(false);
    config.multi_threaded = Some(true);
    config.bare_listing = Some(true);
    cmd.apply_config_defaults(&config);
    assert!(!cmd.wide_listing);
    assert!(cmd.show_owner);
    assert!(!cmd.multi_threaded);
    assert!(cmd.bare_listing);
}
